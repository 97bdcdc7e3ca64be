//! The concrete-syntax layer: what the parsers of this library ask of the
//! tree-sitter runtime and of its grammars.
//!
//! Nothing here is proved. The runtime parses a text, runs query patterns
//! over the tree and reports what they capture; the parsers get the
//! captures as plain values.

use vstd::prelude::*;

verus! {

/// `tree_sitter::Point`: a zero-based row and column.
#[verifier::external_type_specification]
pub struct ExPoint(tree_sitter::Point);

/// `tree_sitter::Range`: the bytes and the points at which a node starts
/// and ends.
#[verifier::external_type_specification]
pub struct ExRange(tree_sitter::Range);

/// A captured node: the name its pattern gives it, the text it spans and
/// its range.
#[derive(Debug)]
pub struct Found {
    pub name: String,
    pub text: String,
    pub range: tree_sitter::Range,
}

/// Mathematical value of a [`Found`]: the name, the text, the byte range
/// and the rows, counted from zero, of the first and last character.
pub struct FoundModel {
    pub name: Seq<char>,
    pub text: Seq<char>,
    pub start: usize,
    pub end: usize,
    pub start_row: usize,
    pub end_row: usize,
}

impl View for Found {
    type V = FoundModel;

    open spec fn view(&self) -> FoundModel {
        FoundModel {
            name: self.name@,
            text: self.text@,
            start: self.range.start_byte,
            end: self.range.end_byte,
            start_row: self.range.start_point.row,
            end_row: self.range.end_point.row,
        }
    }
}

impl DeepView for Found {
    type V = FoundModel;

    open spec fn deep_view(&self) -> FoundModel {
        self@
    }
}

/// What the syntax runtime finds in a text: the tree of `content` under the
/// grammar of `language` (`rust`, `go`, `python`, `javascript` or
/// `typescript`), and on it the matches of the query `patterns`, in the order
/// `tree_sitter::QueryCursor::matches` reports them, each with its captures
/// in order. `None` when the runtime refuses the grammar, gives no tree, or
/// refuses the patterns.
pub uninterp spec fn syntax_matches(language: Seq<char>, patterns: Seq<char>, content: Seq<char>) -> Option<
    Seq<Seq<FoundModel>>,
>;

/// `tree_sitter::Parser::set_language` with the grammar
/// `tree_sitter_rust::language`, then `Parser::parse`, `Query::new`,
/// `Query::capture_names` and `QueryCursor::matches` on the root of the tree:
/// every match, and of each node it captures the name of the capture and
/// what `Node::utf8_text` and `Node::range` give. Nothing when the runtime
/// refuses the grammar or the patterns or gives no tree.
#[verifier::external_body]
pub(crate) fn rust_matches(patterns: &str, content: &str) -> (found: Option<Vec<Vec<Found>>>)
    ensures
        found.deep_view() == syntax_matches("rust"@, patterns@, content@),
{
    let mut parser = tree_sitter::Parser::new();
    parser.set_language(tree_sitter_rust::language()).ok()?;
    let tree = parser.parse(content, None)?;
    let query = tree_sitter::Query::new(tree_sitter_rust::language(), patterns).ok()?;
    let names = query.capture_names();
    let mut cursor = tree_sitter::QueryCursor::new();
    let found = cursor.matches(&query, tree.root_node(), content.as_bytes());
    Some(found.map(|m| m.captures.iter().map(|c| Found {
        name: names[c.index as usize].clone(),
        text: c.node.utf8_text(content.as_bytes()).unwrap_or("").to_string(),
        range: c.node.range(),
    }).collect()).collect())
}

/// `tree_sitter::Parser::set_language` with the grammar
/// `tree_sitter_go::language`, then `Parser::parse`, `Query::new`,
/// `Query::capture_names` and `QueryCursor::matches` on the root of the tree:
/// every match, and of each node it captures the name of the capture and
/// what `Node::utf8_text` and `Node::range` give. Nothing when the runtime
/// refuses the grammar or the patterns or gives no tree.
#[verifier::external_body]
pub(crate) fn go_matches(patterns: &str, content: &str) -> (found: Option<Vec<Vec<Found>>>)
    ensures
        found.deep_view() == syntax_matches("go"@, patterns@, content@),
{
    let mut parser = tree_sitter::Parser::new();
    parser.set_language(tree_sitter_go::language()).ok()?;
    let tree = parser.parse(content, None)?;
    let query = tree_sitter::Query::new(tree_sitter_go::language(), patterns).ok()?;
    let names = query.capture_names();
    let mut cursor = tree_sitter::QueryCursor::new();
    let found = cursor.matches(&query, tree.root_node(), content.as_bytes());
    Some(found.map(|m| m.captures.iter().map(|c| Found {
        name: names[c.index as usize].clone(),
        text: c.node.utf8_text(content.as_bytes()).unwrap_or("").to_string(),
        range: c.node.range(),
    }).collect()).collect())
}

/// `tree_sitter::Parser::set_language` with the grammar
/// `tree_sitter_python::language`, then `Parser::parse`, `Query::new`,
/// `Query::capture_names` and `QueryCursor::matches` on the root of the tree:
/// every match, and of each node it captures the name of the capture and
/// what `Node::utf8_text` and `Node::range` give. Nothing when the runtime
/// refuses the grammar or the patterns or gives no tree.
#[verifier::external_body]
pub(crate) fn python_matches(patterns: &str, content: &str) -> (found: Option<Vec<Vec<Found>>>)
    ensures
        found.deep_view() == syntax_matches("python"@, patterns@, content@),
{
    let mut parser = tree_sitter::Parser::new();
    parser.set_language(tree_sitter_python::language()).ok()?;
    let tree = parser.parse(content, None)?;
    let query = tree_sitter::Query::new(tree_sitter_python::language(), patterns).ok()?;
    let names = query.capture_names();
    let mut cursor = tree_sitter::QueryCursor::new();
    let found = cursor.matches(&query, tree.root_node(), content.as_bytes());
    Some(found.map(|m| m.captures.iter().map(|c| Found {
        name: names[c.index as usize].clone(),
        text: c.node.utf8_text(content.as_bytes()).unwrap_or("").to_string(),
        range: c.node.range(),
    }).collect()).collect())
}

/// `tree_sitter::Parser::set_language` with the grammar
/// `tree_sitter_javascript::language`, then `Parser::parse`, `Query::new`,
/// `Query::capture_names` and `QueryCursor::matches` on the root of the tree:
/// every match, and of each node it captures the name of the capture and
/// what `Node::utf8_text` and `Node::range` give. Nothing when the runtime
/// refuses the grammar or the patterns or gives no tree.
#[verifier::external_body]
pub(crate) fn javascript_matches(patterns: &str, content: &str) -> (found: Option<Vec<Vec<Found>>>)
    ensures
        found.deep_view() == syntax_matches("javascript"@, patterns@, content@),
{
    let mut parser = tree_sitter::Parser::new();
    parser.set_language(tree_sitter_javascript::language()).ok()?;
    let tree = parser.parse(content, None)?;
    let query = tree_sitter::Query::new(tree_sitter_javascript::language(), patterns).ok()?;
    let names = query.capture_names();
    let mut cursor = tree_sitter::QueryCursor::new();
    let found = cursor.matches(&query, tree.root_node(), content.as_bytes());
    Some(found.map(|m| m.captures.iter().map(|c| Found {
        name: names[c.index as usize].clone(),
        text: c.node.utf8_text(content.as_bytes()).unwrap_or("").to_string(),
        range: c.node.range(),
    }).collect()).collect())
}

/// `tree_sitter::Parser::set_language` with the grammar
/// `tree_sitter_typescript::language_typescript`, then `Parser::parse`, `Query::new`,
/// `Query::capture_names` and `QueryCursor::matches` on the root of the tree:
/// every match, and of each node it captures the name of the capture and
/// what `Node::utf8_text` and `Node::range` give. Nothing when the runtime
/// refuses the grammar or the patterns or gives no tree.
#[verifier::external_body]
pub(crate) fn typescript_matches(patterns: &str, content: &str) -> (found: Option<Vec<Vec<Found>>>)
    ensures
        found.deep_view() == syntax_matches("typescript"@, patterns@, content@),
{
    let mut parser = tree_sitter::Parser::new();
    parser.set_language(tree_sitter_typescript::language_typescript()).ok()?;
    let tree = parser.parse(content, None)?;
    let query = tree_sitter::Query::new(tree_sitter_typescript::language_typescript(), patterns).ok()?;
    let names = query.capture_names();
    let mut cursor = tree_sitter::QueryCursor::new();
    let found = cursor.matches(&query, tree.root_node(), content.as_bytes());
    Some(found.map(|m| m.captures.iter().map(|c| Found {
        name: names[c.index as usize].clone(),
        text: c.node.utf8_text(content.as_bytes()).unwrap_or("").to_string(),
        range: c.node.range(),
    }).collect()).collect())
}

} // verus!
