//! Parser of JavaScript sources.

use vstd::prelude::*;
use crate::parsers::common::ParseError;
use crate::parsers::outline::parse_with;
use crate::parsers::{LanguageParser, ParsedFile, SourceLanguage};

verus! {

/// The query patterns of the parser: functions with their parameters and
/// calls, classes with what they inherit from, and imports.
pub const JS_PATTERNS: &'static str = r#"
(function_declaration
  name: (identifier) @func.name
  parameters: (formal_parameters) @func.params
  body: (statement_block) @func.body
) @func.def

(variable_declarator
  name: (identifier) @func.name
  value: [
    (function_expression
      parameters: (formal_parameters) @func.params
      body: (statement_block) @func.body)
    (arrow_function
      parameters: (formal_parameters) @func.params
      body: [ (statement_block) (expression) ] @func.body)
  ]
) @func.def

(method_definition
  name: (property_identifier) @func.name
  parameters: (formal_parameters) @func.params
  body: (statement_block) @func.body
) @func.def

(method_definition) @func.method

(formal_parameters [
  (identifier) @param.name
  (assignment_pattern left: (_) @param.name)
]) @param.list

(class_declaration
  name: (identifier) @class.name
  body: (class_body) @class.body
) @class.def

(class_heritage (identifier) @parent.extends)

(call_expression
  function: [
    (identifier) @call.name
    (member_expression
      property: (property_identifier) @call.name)
  ])

(import_statement
  source: (string) @import.source)

(call_expression
  function: (identifier) @import.func
  (#eq? @import.func "require")
  arguments: (arguments
    (string) @import.source))
"#;

/// Parser of JavaScript sources.
pub struct JavaScriptParser;

impl JavaScriptParser {
    /// A parser of JavaScript sources. Making one never fails.
    pub fn new() -> (r: Result<Self, ParseError>)
        ensures
            r is Ok,
    {
        Ok(JavaScriptParser)
    }
}

impl LanguageParser for JavaScriptParser {
    open spec fn language(&self) -> SourceLanguage {
        SourceLanguage::JavaScript
    }

    fn parse_file(&self, relative_path: &str, content: &str) -> (r: Result<ParsedFile, ParseError>) {
        parse_with(SourceLanguage::JavaScript, relative_path, content)
    }
}

} // verus!
