//! Syntactic summaries of source files and the parser capability that
//! produces them.

pub mod common;
pub mod rust_parser;
pub mod python_parser;
pub mod typescript;
pub mod javascript;
pub mod go_parser;
pub mod outline;
pub mod outline_laws;

use vstd::prelude::*;
pub use crate::parsers::common::ParseError;
use crate::parsers::outline::parsed;

verus! {

/// The languages the worker parses.
#[derive(Debug, Clone, Copy, PartialEq, Eq, Structural)]
pub enum SourceLanguage {
    JavaScript,
    TypeScript,
    Rust,
    Go,
    Python,
}

impl SourceLanguage {
    /// The tag parsed files of the language carry.
    pub open spec fn tag(self) -> Seq<char> {
        match self {
            SourceLanguage::JavaScript => "javascript"@,
            SourceLanguage::TypeScript => "typescript"@,
            SourceLanguage::Rust => "rust"@,
            SourceLanguage::Go => "go"@,
            SourceLanguage::Python => "python"@,
        }
    }
}

/// A parser of one language: turns the text of a file into its summary.
pub trait LanguageParser {
    /// The language this parser reads.
    spec fn language(&self) -> SourceLanguage;

    /// Parses `content`, the text of the file at `relative_path`: the summary
    /// made of what the syntax runtime finds in the text with the patterns
    /// of the parser. It carries the path as given. The parse fails exactly
    /// when the runtime has nothing to report.
    fn parse_file(&self, relative_path: &str, content: &str) -> (r: Result<ParsedFile, ParseError>)
        ensures
            match r {
                Ok(file) => parsed(self.language(), relative_path@, content@) == Ok::<
                    ParsedFileModel,
                    ParseError,
                >(file@),
                Err(e) => parsed(self.language(), relative_path@, content@) == Err::<
                    ParsedFileModel,
                    ParseError,
                >(e),
            },
    ;
}

/// A function or method found in a source file.
#[derive(Debug)]
pub struct FunctionInfo {
    pub name: String,
    pub params: Vec<String>,
    pub return_type: Option<String>,
    pub calls: Vec<String>,
    pub start_line: usize,
    pub end_line: usize,
}

/// Mathematical value of a [`FunctionInfo`].
pub struct FunctionModel {
    pub name: Seq<char>,
    pub params: Seq<Seq<char>>,
    pub return_type: Option<Seq<char>>,
    pub calls: Seq<Seq<char>>,
    pub start_line: usize,
    pub end_line: usize,
}

impl View for FunctionInfo {
    type V = FunctionModel;

    open spec fn view(&self) -> FunctionModel {
        FunctionModel {
            name: self.name@,
            params: self.params.deep_view(),
            return_type: self.return_type.deep_view(),
            calls: self.calls.deep_view(),
            start_line: self.start_line,
            end_line: self.end_line,
        }
    }
}

impl DeepView for FunctionInfo {
    type V = FunctionModel;

    open spec fn deep_view(&self) -> FunctionModel {
        self@
    }
}

impl Clone for FunctionInfo {
    fn clone(&self) -> (r: Self)
        ensures
            r@ == self@,
    {
        let r = FunctionInfo {
            name: self.name.clone(),
            params: self.params.clone(),
            return_type: self.return_type.clone(),
            calls: self.calls.clone(),
            start_line: self.start_line,
            end_line: self.end_line,
        };
        assert(r.params.deep_view() =~= self.params.deep_view());
        assert(r.calls.deep_view() =~= self.calls.deep_view());
        r
    }
}

/// One inheritance entry of a class: the parent's name and how the class
/// relates to it (`class`, `interface` or `trait`).
#[derive(Debug)]
pub struct InheritanceInfo {
    pub name: String,
    pub kind: String,
}

/// Mathematical value of an [`InheritanceInfo`].
pub struct InheritanceModel {
    pub name: Seq<char>,
    pub kind: Seq<char>,
}

impl View for InheritanceInfo {
    type V = InheritanceModel;

    open spec fn view(&self) -> InheritanceModel {
        InheritanceModel { name: self.name@, kind: self.kind@ }
    }
}

impl DeepView for InheritanceInfo {
    type V = InheritanceModel;

    open spec fn deep_view(&self) -> InheritanceModel {
        self@
    }
}

impl Clone for InheritanceInfo {
    fn clone(&self) -> (r: Self)
        ensures
            r@ == self@,
    {
        InheritanceInfo { name: self.name.clone(), kind: self.kind.clone() }
    }
}

/// A class, struct or enum found in a source file, with its methods.
#[derive(Debug)]
pub struct ClassInfo {
    pub name: String,
    pub inheritances: Vec<InheritanceInfo>,
    pub methods: Vec<FunctionInfo>,
    pub start_line: usize,
    pub end_line: usize,
}

/// Mathematical value of a [`ClassInfo`].
pub struct ClassModel {
    pub name: Seq<char>,
    pub inheritances: Seq<InheritanceModel>,
    pub methods: Seq<FunctionModel>,
    pub start_line: usize,
    pub end_line: usize,
}

impl View for ClassInfo {
    type V = ClassModel;

    open spec fn view(&self) -> ClassModel {
        ClassModel {
            name: self.name@,
            inheritances: self.inheritances.deep_view(),
            methods: self.methods.deep_view(),
            start_line: self.start_line,
            end_line: self.end_line,
        }
    }
}

impl DeepView for ClassInfo {
    type V = ClassModel;

    open spec fn deep_view(&self) -> ClassModel {
        self@
    }
}

impl Clone for ClassInfo {
    fn clone(&self) -> (r: Self)
        ensures
            r@ == self@,
    {
        let r = ClassInfo {
            name: self.name.clone(),
            inheritances: self.inheritances.clone(),
            methods: self.methods.clone(),
            start_line: self.start_line,
            end_line: self.end_line,
        };
        assert(r.inheritances.deep_view() =~= self.inheritances.deep_view());
        assert(r.methods.deep_view() =~= self.methods.deep_view());
        r
    }
}

/// A service reached by URL from a source file: the host and the scheme.
#[derive(Debug)]
pub struct ServiceCall {
    pub target: String,
    pub protocol: String,
}

/// Mathematical value of a [`ServiceCall`].
pub struct ServiceCallModel {
    pub target: Seq<char>,
    pub protocol: Seq<char>,
}

impl View for ServiceCall {
    type V = ServiceCallModel;

    open spec fn view(&self) -> ServiceCallModel {
        ServiceCallModel { target: self.target@, protocol: self.protocol@ }
    }
}

impl DeepView for ServiceCall {
    type V = ServiceCallModel;

    open spec fn deep_view(&self) -> ServiceCallModel {
        self@
    }
}

impl Clone for ServiceCall {
    fn clone(&self) -> (r: Self)
        ensures
            r@ == self@,
    {
        ServiceCall { target: self.target.clone(), protocol: self.protocol.clone() }
    }
}

/// Everything the analysis keeps of one source file.
#[derive(Debug)]
pub struct ParsedFile {
    pub path: String,
    pub language: String,
    pub functions: Vec<FunctionInfo>,
    pub classes: Vec<ClassInfo>,
    pub imports: Vec<String>,
    pub data_tables: Vec<String>,
    pub service_calls: Vec<ServiceCall>,
}

/// Mathematical value of a [`ParsedFile`].
pub struct ParsedFileModel {
    pub path: Seq<char>,
    pub language: Seq<char>,
    pub functions: Seq<FunctionModel>,
    pub classes: Seq<ClassModel>,
    pub imports: Seq<Seq<char>>,
    pub data_tables: Seq<Seq<char>>,
    pub service_calls: Seq<ServiceCallModel>,
}

impl View for ParsedFile {
    type V = ParsedFileModel;

    open spec fn view(&self) -> ParsedFileModel {
        ParsedFileModel {
            path: self.path@,
            language: self.language@,
            functions: self.functions.deep_view(),
            classes: self.classes.deep_view(),
            imports: self.imports.deep_view(),
            data_tables: self.data_tables.deep_view(),
            service_calls: self.service_calls.deep_view(),
        }
    }
}

impl DeepView for ParsedFile {
    type V = ParsedFileModel;

    open spec fn deep_view(&self) -> ParsedFileModel {
        self@
    }
}

impl Clone for ParsedFile {
    fn clone(&self) -> (r: Self)
        ensures
            r@ == self@,
    {
        let r = ParsedFile {
            path: self.path.clone(),
            language: self.language.clone(),
            functions: self.functions.clone(),
            classes: self.classes.clone(),
            imports: self.imports.clone(),
            data_tables: self.data_tables.clone(),
            service_calls: self.service_calls.clone(),
        };
        assert(r.functions.deep_view() =~= self.functions.deep_view());
        assert(r.classes.deep_view() =~= self.classes.deep_view());
        assert(r.imports.deep_view() =~= self.imports.deep_view());
        assert(r.data_tables.deep_view() =~= self.data_tables.deep_view());
        assert(r.service_calls.deep_view() =~= self.service_calls.deep_view());
        r
    }
}

} // verus!
