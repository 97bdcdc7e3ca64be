//! Parser of Rust sources.

use vstd::prelude::*;
use crate::parsers::common::ParseError;
use crate::parsers::outline::parse_with;
use crate::parsers::{LanguageParser, ParsedFile, SourceLanguage};

verus! {

/// The query patterns of the parser: functions with their parameters and
/// calls, classes with what they inherit from, and imports.
pub const RUST_PATTERNS: &'static str = r#"
(function_item
  name: (identifier) @func.name
  parameters: (parameters) @func.params
  body: (block) @func.body
) @func.def

(source_file (function_item) @func.free)
(mod_item body: (declaration_list (function_item) @func.free))

(parameters [
  (parameter pattern: (_) @param.name)
  (self_parameter) @param.self
]) @param.list

(struct_item name: (type_identifier) @class.name) @class.def
(enum_item name: (type_identifier) @class.name) @class.def

(impl_item
  trait: (type_identifier) @trait.name
  type: (type_identifier) @trait.target)

(impl_item
  type: (type_identifier) @impl.name
  body: (declaration_list) @impl.body
) @impl.def

(call_expression
  function: [
    (identifier) @call.name
    (field_expression field: (field_identifier) @call.name)
    (scoped_identifier name: (identifier) @call.name)
  ])
(macro_invocation
  macro: [
    (identifier) @call.macro
    (scoped_identifier name: (identifier) @call.macro)
  ])

(use_declaration argument: (_) @import.source)
"#;

/// Parser of Rust sources.
pub struct RustParser;

impl RustParser {
    /// A parser of Rust sources. Making one never fails.
    pub fn new() -> (r: Result<Self, ParseError>)
        ensures
            r is Ok,
    {
        Ok(RustParser)
    }
}

impl LanguageParser for RustParser {
    open spec fn language(&self) -> SourceLanguage {
        SourceLanguage::Rust
    }

    fn parse_file(&self, relative_path: &str, content: &str) -> (r: Result<ParsedFile, ParseError>) {
        parse_with(SourceLanguage::Rust, relative_path, content)
    }
}

} // verus!
