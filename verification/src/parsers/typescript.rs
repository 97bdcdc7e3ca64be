//! Parser of TypeScript sources.

use vstd::prelude::*;
use crate::parsers::common::ParseError;
use crate::parsers::outline::parse_with;
use crate::parsers::{LanguageParser, ParsedFile, SourceLanguage};

verus! {

/// The query patterns of the parser: functions with their parameters and
/// calls, classes with what they inherit from, and imports.
pub const TS_PATTERNS: &'static str = r#"
(function_declaration
  name: (identifier) @func.name
  parameters: (formal_parameters) @func.params
  body: (statement_block) @func.body
) @func.def

(variable_declarator
  name: (identifier) @func.name
  value: [
    (function_expression
      parameters: (formal_parameters) @func.params
      body: (statement_block) @func.body)
    (arrow_function
      parameters: (formal_parameters) @func.params
      body: [ (statement_block) (expression) ] @func.body)
  ]
) @func.def

(method_definition
  name: (property_identifier) @func.name
  parameters: (formal_parameters) @func.params
  body: (statement_block) @func.body
) @func.def

(method_definition) @func.method

(formal_parameters [
  (required_parameter pattern: (identifier) @param.name)
  (optional_parameter pattern: (identifier) @param.name)
]) @param.list

(class_declaration
  name: (type_identifier) @class.name
  body: (class_body) @class.body
) @class.def

(class_heritage
  (extends_clause value: (identifier) @parent.extends))
(class_heritage
  (implements_clause (type_identifier) @parent.implements))

(call_expression
  function: [
    (identifier) @call.name
    (member_expression
      property: (property_identifier) @call.name)
  ])

(import_statement
  source: (string) @import.source)

(call_expression
  function: (identifier) @import.func
  (#eq? @import.func "require")
  arguments: (arguments
    (string) @import.source))
"#;

/// Parser of TypeScript sources.
pub struct TypeScriptParser;

impl TypeScriptParser {
    /// A parser of TypeScript sources. Making one never fails.
    pub fn new() -> (r: Result<Self, ParseError>)
        ensures
            r is Ok,
    {
        Ok(TypeScriptParser)
    }
}

impl LanguageParser for TypeScriptParser {
    open spec fn language(&self) -> SourceLanguage {
        SourceLanguage::TypeScript
    }

    fn parse_file(&self, relative_path: &str, content: &str) -> (r: Result<ParsedFile, ParseError>) {
        parse_with(SourceLanguage::TypeScript, relative_path, content)
    }
}

} // verus!
