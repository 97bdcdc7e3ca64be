//! Parser of Go sources.

use vstd::prelude::*;
use crate::parsers::common::ParseError;
use crate::parsers::outline::parse_with;
use crate::parsers::{LanguageParser, ParsedFile, SourceLanguage};
use crate::text::{chars_of, string_of, trim, trim_start, trimmed, without_leading, CharClass};

verus! {

/// The query patterns of the parser: functions with their parameters and
/// calls, classes with what they inherit from, and imports.
pub const GO_PATTERNS: &'static str = r#"
(function_declaration
  name: (identifier) @func.name
  parameters: (parameter_list) @func.params
  body: (block) @func.body
) @func.def

(method_declaration
  receiver: (parameter_list) @method.receiver
  name: (field_identifier) @func.name
  parameters: (parameter_list) @func.params
  body: (block) @func.body
) @func.def

(parameter_list (parameter_declaration name: (identifier) @param.name)) @param.list
(parameter_list (parameter_declaration type: (_) @param.type)) @param.list

(type_declaration
  (type_spec
    name: (type_identifier) @class.name
    type: (struct_type))
) @class.def

(call_expression
  function: [
    (identifier) @call.name
    (selector_expression field: (field_identifier) @call.name)
  ])

(import_spec
  path: [(interpreted_string_literal) (raw_string_literal)] @import.source)
"#;

/// Parser of Go sources.
pub struct GoParser;

/// The type a receiver is written with, named as a class: the text without
/// its leading `*` and without surrounding whitespace.
pub open spec fn receiver_class(type_text: Seq<char>) -> Seq<char> {
    trimmed(without_leading(type_text, CharClass::Is('*')))
}

/// The class a method belongs to, from the text of its receiver's type.
pub fn receiver_class_name(type_text: &str) -> (name: String)
    ensures
        name@ == receiver_class(type_text@),
{
    let text = chars_of(type_text);
    let bare = trim_start(&text, CharClass::Is('*'));
    string_of(trim(&bare, CharClass::Space))
}

impl GoParser {
    /// A parser of Go sources. Making one never fails.
    pub fn new() -> (r: Result<Self, ParseError>)
        ensures
            r is Ok,
    {
        Ok(GoParser)
    }
}

impl LanguageParser for GoParser {
    open spec fn language(&self) -> SourceLanguage {
        SourceLanguage::Go
    }

    fn parse_file(&self, relative_path: &str, content: &str) -> (r: Result<ParsedFile, ParseError>) {
        parse_with(SourceLanguage::Go, relative_path, content)
    }
}

} // verus!
