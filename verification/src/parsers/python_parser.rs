//! Parser of Python sources.

use vstd::prelude::*;
use crate::parsers::common::ParseError;
use crate::parsers::outline::parse_with;
use crate::parsers::{LanguageParser, ParsedFile, SourceLanguage};

verus! {

/// The query patterns of the parser: functions with their parameters and
/// calls, classes with what they inherit from, and imports.
pub const PYTHON_PATTERNS: &'static str = r#"
(function_definition
  name: (identifier) @func.name
  parameters: (parameters) @func.params
  body: (block) @func.body
) @func.def

(class_definition body: (block (function_definition) @func.member))

(parameters [
  (identifier) @param.name
  (typed_parameter . (identifier) @param.name)
  (default_parameter name: (_) @param.name)
  (typed_default_parameter name: (_) @param.name)
]) @param.list

(class_definition
  name: (identifier) @class.name
  body: (block) @class.body
) @class.def

(class_definition
  superclasses: (argument_list (identifier) @parent.extends))

(call
  function: [
    (identifier) @call.name
    (attribute attribute: (identifier) @call.name)
  ])

(import_statement (dotted_name) @import.source)
(import_statement (aliased_import name: (dotted_name) @import.source))
(import_from_statement module_name: (dotted_name) @import.source)
(import_from_statement module_name: (relative_import) @import.source)
"#;

/// Parser of Python sources.
pub struct PythonParser;

impl PythonParser {
    /// A parser of Python sources. Making one never fails.
    pub fn new() -> (r: Result<Self, ParseError>)
        ensures
            r is Ok,
    {
        Ok(PythonParser)
    }
}

impl LanguageParser for PythonParser {
    open spec fn language(&self) -> SourceLanguage {
        SourceLanguage::Python
    }

    fn parse_file(&self, relative_path: &str, content: &str) -> (r: Result<ParsedFile, ParseError>) {
        parse_with(SourceLanguage::Python, relative_path, content)
    }
}

} // verus!
