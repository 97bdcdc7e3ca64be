//! From what the syntax runtime finds in a file to the summary of the file.
//!
//! The runtime reports matches of the parser's patterns, each a list of
//! captured nodes as plain values. Everything that decides what a function,
//! a method, a class or an import is stands here, on those values.

use vstd::prelude::*;
use crate::parsers::common::{
    dedup, extract_data_tables, extract_service_calls, is_blank, line_number, line_of,
    service_calls_in, table_names, ParseError,
};
use crate::parsers::go_parser::{receiver_class, receiver_class_name, GO_PATTERNS};
use crate::parsers::javascript::JS_PATTERNS;
use crate::parsers::python_parser::PYTHON_PATTERNS;
use crate::parsers::rust_parser::RUST_PATTERNS;
use crate::parsers::typescript::TS_PATTERNS;
use crate::parsers::{
    ClassInfo, ClassModel, FunctionInfo, FunctionModel, InheritanceInfo, InheritanceModel,
    ParsedFile, ParsedFileModel, SourceLanguage,
};
use crate::syntax::{
    go_matches, javascript_matches, python_matches, rust_matches, syntax_matches,
    typescript_matches, Found, FoundModel,
};
use crate::text::{distinct, join2, str_eq, trim_str, without_surrounding, CharClass};
use crate::views::{
    first_index, lemma_deep_view_push, lemma_first_index_bounds, lemma_first_index_unique,
};

verus! {

// ---------------------------------------------------------------------------
// Captures
// ---------------------------------------------------------------------------

/// The last capture of a match that carries the given name.
pub open spec fn picked(m: Seq<FoundModel>, name: Seq<char>) -> Option<FoundModel>
    decreases m.len(),
{
    if m.len() == 0 {
        None
    } else if m.last().name == name {
        Some(m.last())
    } else {
        picked(m.drop_last(), name)
    }
}

/// The text of a capture that may be missing; empty when it is.
pub open spec fn text_or_empty(c: Option<FoundModel>) -> Seq<char> {
    match c {
        Some(c) => c.text,
        None => Seq::empty(),
    }
}

/// Whether the bytes of one node lie within those of another.
pub open spec fn inside(inner: FoundModel, outer: FoundModel) -> bool {
    outer.start <= inner.start && inner.end <= outer.end
}

/// Whether two captures span the same bytes, as two captures of one node
/// do.
pub open spec fn same_node(a: FoundModel, b: FoundModel) -> bool {
    a.start == b.start && a.end == b.end
}

/// Whether some match has the node as its capture of the given name.
pub open spec fn is_marked(found: Seq<Seq<FoundModel>>, name: Seq<char>, node: FoundModel) -> bool
    decreases found.len(),
{
    if found.len() == 0 {
        false
    } else {
        is_marked(found.drop_last(), name, node) || match picked(found.last(), name) {
            Some(c) => same_node(c, node),
            None => false,
        }
    }
}

// ---------------------------------------------------------------------------
// Functions
// ---------------------------------------------------------------------------

/// The name a match of a call pattern gives, if the call lies within the
/// definition: the text of its `call.name`, or the text of its `call.macro`
/// with `!` after it.
pub open spec fn call_of(m: Seq<FoundModel>, def: FoundModel) -> Seq<Seq<char>> {
    match picked(m, "call.name"@) {
        Some(c) => if inside(c, def) {
            seq![c.text]
        } else {
            Seq::empty()
        },
        None => match picked(m, "call.macro"@) {
            Some(c) => if inside(c, def) {
                seq![c.text + "!"@]
            } else {
                Seq::empty()
            },
            None => Seq::empty(),
        },
    }
}

/// The names called within a definition, match by match.
pub open spec fn called_in(found: Seq<Seq<FoundModel>>, def: FoundModel) -> Seq<Seq<char>>
    decreases found.len(),
{
    if found.len() == 0 {
        Seq::empty()
    } else {
        called_in(found.drop_last(), def) + call_of(found.last(), def)
    }
}

/// The name a match of a parameter pattern binds, if its `param.list` is the
/// given list: the text of its `param.name`, or `self` for a `param.self`.
pub open spec fn param_of(m: Seq<FoundModel>, list: FoundModel) -> Seq<Seq<char>> {
    match picked(m, "param.list"@) {
        Some(l) => if same_node(l, list) {
            match picked(m, "param.name"@) {
                Some(c) => seq![c.text],
                None => if picked(m, "param.self"@) is Some {
                    seq!["self"@]
                } else {
                    Seq::empty()
                },
            }
        } else {
            Seq::empty()
        },
        None => Seq::empty(),
    }
}

/// The names the parameters of a list bind, in order. Types and defaults
/// are left out.
pub open spec fn params_in(found: Seq<Seq<FoundModel>>, list: FoundModel) -> Seq<Seq<char>>
    decreases found.len(),
{
    if found.len() == 0 {
        Seq::empty()
    } else {
        params_in(found.drop_last(), list) + param_of(found.last(), list)
    }
}

/// The class a receiver list names: the type of its last parameter that has
/// one, without a leading `*`; empty where no parameter of it has a type.
pub open spec fn owner_in(found: Seq<Seq<FoundModel>>, list: FoundModel) -> Seq<char>
    decreases found.len(),
{
    if found.len() == 0 {
        Seq::empty()
    } else {
        match (picked(found.last(), "param.list"@), picked(found.last(), "param.type"@)) {
            (Some(l), Some(t)) => if same_node(l, list) {
                receiver_class(t.text)
            } else {
                owner_in(found.drop_last(), list)
            },
            _ => owner_in(found.drop_last(), list),
        }
    }
}

/// Whether a match is one of a function pattern: it captures a definition.
pub open spec fn is_function(m: Seq<FoundModel>) -> bool {
    picked(m, "func.def"@) is Some
}

/// Whether a match of a function pattern carries a name.
pub open spec fn is_named(m: Seq<FoundModel>) -> bool {
    text_or_empty(picked(m, "func.name"@)).len() > 0
}

/// The function a match of a function pattern describes: its name, the
/// names its parameters bind, no return type, the names called within its
/// definition, each once, and the lines of the definition, counted from
/// one.
pub open spec fn function_of(all: Seq<Seq<FoundModel>>, m: Seq<FoundModel>) -> FunctionModel {
    let def = picked(m, "func.def"@)->0;
    FunctionModel {
        name: text_or_empty(picked(m, "func.name"@)),
        params: match picked(m, "func.params"@) {
            Some(list) => params_in(all, list),
            None => Seq::empty(),
        },
        return_type: None,
        calls: distinct(called_in(all, def)),
        start_line: line_of(def.start_row),
        end_line: line_of(def.end_row),
    }
}

/// The class that the receiver of a function names. Only Go has receivers.
pub open spec fn owner_of(language: SourceLanguage, all: Seq<Seq<FoundModel>>, m: Seq<FoundModel>) -> Seq<
    char,
> {
    if language == SourceLanguage::Go {
        match picked(m, "method.receiver"@) {
            Some(list) => owner_in(all, list),
            None => Seq::empty(),
        }
    } else {
        Seq::empty()
    }
}

/// Whether a match of a function pattern stands outside every class.
///
/// - Rust: its definition is marked `func.free`, as the patterns mark a
///   function directly in the file or in the body of a module.
/// - Python: its definition is not marked `func.member`, as the patterns
///   mark a function directly in the body of a class.
/// - TypeScript, JavaScript: its definition is not marked `func.method`, as
///   the patterns mark a method definition.
/// - Go: it has no receiver that names a class.
pub open spec fn stands_free(language: SourceLanguage, all: Seq<Seq<FoundModel>>, m: Seq<FoundModel>) -> bool {
    let def = picked(m, "func.def"@)->0;
    match language {
        SourceLanguage::Rust => is_marked(all, "func.free"@, def),
        SourceLanguage::Python => !is_marked(all, "func.member"@, def),
        SourceLanguage::TypeScript => !is_marked(all, "func.method"@, def),
        SourceLanguage::JavaScript => !is_marked(all, "func.method"@, def),
        SourceLanguage::Go => owner_of(language, all, m).len() == 0,
    }
}

/// The functions of a file among the given matches: every named match of a
/// function pattern that stands free, in order.
pub open spec fn free_among(language: SourceLanguage, all: Seq<Seq<FoundModel>>, some: Seq<Seq<FoundModel>>) -> Seq<
    FunctionModel,
>
    decreases some.len(),
{
    if some.len() == 0 {
        Seq::empty()
    } else if is_function(some.last()) && is_named(some.last()) && stands_free(
        language,
        all,
        some.last(),
    ) {
        free_among(language, all, some.drop_last()).push(function_of(all, some.last()))
    } else {
        free_among(language, all, some.drop_last())
    }
}

/// Whether a match of a function pattern can be a method: it is named, and
/// in TypeScript and JavaScript its definition is marked `func.method`.
pub open spec fn is_member(language: SourceLanguage, all: Seq<Seq<FoundModel>>, m: Seq<FoundModel>) -> bool {
    &&& is_named(m)
    &&& (language == SourceLanguage::TypeScript || language == SourceLanguage::JavaScript)
        ==> is_marked(all, "func.method"@, picked(m, "func.def"@)->0)
}

/// The methods within a body among the given matches: every match of a
/// function pattern that can be a method and whose definition lies within
/// the body, in order.
pub open spec fn methods_in(
    language: SourceLanguage,
    all: Seq<Seq<FoundModel>>,
    some: Seq<Seq<FoundModel>>,
    body: FoundModel,
) -> Seq<FunctionModel>
    decreases some.len(),
{
    if some.len() == 0 {
        Seq::empty()
    } else if is_function(some.last()) && is_member(language, all, some.last()) && inside(
        picked(some.last(), "func.def"@)->0,
        body,
    ) {
        methods_in(language, all, some.drop_last(), body).push(function_of(all, some.last()))
    } else {
        methods_in(language, all, some.drop_last(), body)
    }
}

// ---------------------------------------------------------------------------
// Classes
// ---------------------------------------------------------------------------

/// The inheritance entry a match of a parent pattern gives, if the parent
/// lies within the definition: a `parent.extends` is a parent of kind
/// `class`, a `parent.implements` one of kind `interface`.
pub open spec fn parent_of(m: Seq<FoundModel>, def: FoundModel) -> Seq<InheritanceModel> {
    match picked(m, "parent.extends"@) {
        Some(c) => if inside(c, def) {
            seq![InheritanceModel { name: c.text, kind: "class"@ }]
        } else {
            Seq::empty()
        },
        None => match picked(m, "parent.implements"@) {
            Some(c) => if inside(c, def) {
                seq![InheritanceModel { name: c.text, kind: "interface"@ }]
            } else {
                Seq::empty()
            },
            None => Seq::empty(),
        },
    }
}

/// The inheritance entries within a definition, match by match.
pub open spec fn parents_in(found: Seq<Seq<FoundModel>>, def: FoundModel) -> Seq<InheritanceModel>
    decreases found.len(),
{
    if found.len() == 0 {
        Seq::empty()
    } else {
        parents_in(found.drop_last(), def) + parent_of(found.last(), def)
    }
}

/// Whether a match is one of a class pattern with a name.
pub open spec fn is_class(m: Seq<FoundModel>) -> bool {
    picked(m, "class.def"@) is Some && text_or_empty(picked(m, "class.name"@)).len() > 0
}

/// The methods within a body that may be missing.
pub open spec fn methods_of_body(language: SourceLanguage, all: Seq<Seq<FoundModel>>, body: Option<FoundModel>) -> Seq<
    FunctionModel,
> {
    match body {
        Some(body) => methods_in(language, all, all, body),
        None => Seq::empty(),
    }
}

/// The class a match of a class pattern describes: its name, the parents
/// within its definition, the methods within its `class.body`, and the lines
/// of the definition, counted from one.
pub open spec fn class_of(language: SourceLanguage, all: Seq<Seq<FoundModel>>, m: Seq<FoundModel>) -> ClassModel {
    let def = picked(m, "class.def"@)->0;
    ClassModel {
        name: text_or_empty(picked(m, "class.name"@)),
        inheritances: parents_in(all, def),
        methods: methods_of_body(language, all, picked(m, "class.body"@)),
        start_line: line_of(def.start_row),
        end_line: line_of(def.end_row),
    }
}

/// Appends a copy of a text.
fn push_text(out: &mut Vec<String>, text: &str)
    ensures
        final(out).deep_view() == old(out).deep_view() + seq![text@],
{
    let item = text.to_string();
    proof {
        lemma_deep_view_push(out@, out@.push(item), item);
        assert(out.deep_view().push(item@) =~= out.deep_view() + seq![text@]);
    }
    out.push(item);
}

/// The names of the classes, in order.
pub open spec fn class_names(classes: Seq<ClassModel>) -> Seq<Seq<char>> {
    Seq::new(classes.len(), |i: int| classes[i].name)
}

/// Position of the first class of the name, or the number of classes when
/// none carries it.
pub open spec fn slot_of(classes: Seq<ClassModel>, name: Seq<char>) -> int {
    first_index(class_names(classes), name)
}

/// Whether the classes of a file of the language are kept by name, so that
/// a class declared again replaces the earlier one.
pub open spec fn is_keyed(language: SourceLanguage) -> bool {
    language == SourceLanguage::Rust || language == SourceLanguage::Go
}

/// A class of which only the name is known.
pub open spec fn unplaced(name: Seq<char>) -> ClassModel {
    ClassModel {
        name,
        inheritances: Seq::empty(),
        methods: Seq::empty(),
        start_line: 0,
        end_line: 0,
    }
}

/// The classes with one of the given name among them: where none carries
/// the name, an unplaced class is appended.
pub open spec fn opened(classes: Seq<ClassModel>, name: Seq<char>) -> Seq<ClassModel> {
    if slot_of(classes, name) < classes.len() {
        classes
    } else {
        classes.push(unplaced(name))
    }
}

/// The classes after a method was added to the first class of the name.
pub open spec fn with_method(classes: Seq<ClassModel>, owner: Seq<char>, method: FunctionModel) -> Seq<
    ClassModel,
> {
    let open = opened(classes, owner);
    let at = slot_of(open, owner);
    open.update(
        at,
        ClassModel {
            name: open[at].name,
            inheritances: open[at].inheritances,
            methods: open[at].methods.push(method),
            start_line: open[at].start_line,
            end_line: open[at].end_line,
        },
    )
}

/// The classes after an inheritance entry was added to the first class of
/// the name.
pub open spec fn with_parent(classes: Seq<ClassModel>, owner: Seq<char>, parent: InheritanceModel) -> Seq<
    ClassModel,
> {
    let open = opened(classes, owner);
    let at = slot_of(open, owner);
    open.update(
        at,
        ClassModel {
            name: open[at].name,
            inheritances: open[at].inheritances.push(parent),
            methods: open[at].methods,
            start_line: open[at].start_line,
            end_line: open[at].end_line,
        },
    )
}

/// The import a captured source stands for: in Go the text without the
/// double quotes around it, in TypeScript and JavaScript without the quotes
/// of any kind around it, elsewhere the text as it is.
pub open spec fn import_of(language: SourceLanguage, text: Seq<char>) -> Seq<char> {
    match language {
        SourceLanguage::Go => without_surrounding(text, CharClass::Is('"')),
        SourceLanguage::TypeScript => without_surrounding(text, CharClass::Quote),
        SourceLanguage::JavaScript => without_surrounding(text, CharClass::Quote),
        _ => text,
    }
}

/// Position of the first class of the name, or the number of classes when
/// none carries it.
fn find_class(classes: &Vec<ClassInfo>, name: &str) -> (at: usize)
    ensures
        at == slot_of(classes.deep_view(), name@),
        at <= classes@.len(),
{
    let ghost names = class_names(classes.deep_view());
    let mut k: usize = 0;
    while k < classes.len()
        invariant
            k <= classes@.len(),
            names == class_names(classes.deep_view()),
            forall|j: int| 0 <= j < k ==> names[j] != name@,
        decreases classes@.len() - k,
    {
        if str_eq(classes[k].name.as_str(), name) {
            proof {
                assert(names[k as int] == name@);
                lemma_first_index_unique(names, name@, k as int);
            }
            return k;
        }
        assert(names[k as int] != name@);
        k += 1;
    }
    proof {
        lemma_first_index_unique(names, name@, k as int);
    }
    k
}

/// Position of the first class of the name; where none carries it, an
/// unplaced class of the name is appended.
fn open_class(classes: &mut Vec<ClassInfo>, name: &str) -> (at: usize)
    ensures
        final(classes).deep_view() == opened(old(classes).deep_view(), name@),
        at == slot_of(final(classes).deep_view(), name@),
        at < final(classes)@.len(),
{
    let ghost before = classes.deep_view();
    let at = find_class(classes, name);
    if at == classes.len() {
        let class = ClassInfo {
            name: name.to_string(),
            inheritances: Vec::new(),
            methods: Vec::new(),
            start_line: 0,
            end_line: 0,
        };
        proof {
            assert(class.inheritances.deep_view() =~= Seq::empty());
            assert(class.methods.deep_view() =~= Seq::empty());
            assert(class@ == unplaced(name@));
            lemma_deep_view_push(classes@, classes@.push(class), class);
        }
        classes.push(class);
        proof {
            assert(class_names(classes.deep_view()) =~= class_names(before).push(name@));
            lemma_first_index_bounds(class_names(before), name@);
            lemma_first_index_unique(class_names(classes.deep_view()), name@, at as int);
        }
    }
    at
}

/// Adds a method to the first class of the name.
fn add_method(classes: &mut Vec<ClassInfo>, owner: &str, method: FunctionInfo)
    ensures
        final(classes).deep_view() == with_method(old(classes).deep_view(), owner@, method@),
{
    let at = open_class(classes, owner);
    let ghost open = classes.deep_view();
    proof {
        let methods = classes@[at as int].methods@;
        lemma_deep_view_push(methods, methods.push(method), method);
    }
    classes[at].methods.push(method);
    proof {
        assert(classes.deep_view() =~= open.update(
            at as int,
            ClassModel {
                name: open[at as int].name,
                inheritances: open[at as int].inheritances,
                methods: open[at as int].methods.push(method@),
                start_line: open[at as int].start_line,
                end_line: open[at as int].end_line,
            },
        ));
    }
}

/// Adds an inheritance entry to the first class of the name.
fn add_parent(classes: &mut Vec<ClassInfo>, owner: &str, parent: InheritanceInfo)
    ensures
        final(classes).deep_view() == with_parent(old(classes).deep_view(), owner@, parent@),
{
    let at = open_class(classes, owner);
    let ghost open = classes.deep_view();
    proof {
        let parents = classes@[at as int].inheritances@;
        lemma_deep_view_push(parents, parents.push(parent), parent);
    }
    classes[at].inheritances.push(parent);
    proof {
        assert(classes.deep_view() =~= open.update(
            at as int,
            ClassModel {
                name: open[at as int].name,
                inheritances: open[at as int].inheritances.push(parent@),
                methods: open[at as int].methods,
                start_line: open[at as int].start_line,
                end_line: open[at as int].end_line,
            },
        ));
    }
}

/// Whether the classes of a file of the language are kept by name.
fn keyed(language: SourceLanguage) -> (r: bool)
    ensures
        r == is_keyed(language),
{
    match language {
        SourceLanguage::Rust => true,
        SourceLanguage::Go => true,
        _ => false,
    }
}

/// The import a captured source stands for.
fn import_text(language: SourceLanguage, text: &str) -> (import: String)
    ensures
        import@ == import_of(language, text@),
{
    match language {
        SourceLanguage::Go => trim_str(text, CharClass::Is('"')),
        SourceLanguage::TypeScript => trim_str(text, CharClass::Quote),
        SourceLanguage::JavaScript => trim_str(text, CharClass::Quote),
        _ => text.to_string(),
    }
}

/// The tag of a language.
pub fn tag_of(language: SourceLanguage) -> (tag: String)
    ensures
        tag@ == language.tag(),
{
    match language {
        SourceLanguage::JavaScript => "javascript".to_string(),
        SourceLanguage::TypeScript => "typescript".to_string(),
        SourceLanguage::Rust => "rust".to_string(),
        SourceLanguage::Go => "go".to_string(),
        SourceLanguage::Python => "python".to_string(),
    }
}

/// The classes after one more class: where classes are kept by name and one
/// carries the name, the class replaces it in place; otherwise the class is
/// appended.
pub open spec fn recorded(language: SourceLanguage, classes: Seq<ClassModel>, class: ClassModel) -> Seq<
    ClassModel,
> {
    if is_keyed(language) && slot_of(classes, class.name) < classes.len() {
        classes.update(slot_of(classes, class.name), class)
    } else {
        classes.push(class)
    }
}

/// The classes the class patterns declare among the given matches.
pub open spec fn classes_among(language: SourceLanguage, all: Seq<Seq<FoundModel>>, some: Seq<Seq<FoundModel>>) -> Seq<
    ClassModel,
>
    decreases some.len(),
{
    if some.len() == 0 {
        Seq::empty()
    } else if is_class(some.last()) {
        recorded(
            language,
            classes_among(language, all, some.drop_last()),
            class_of(language, all, some.last()),
        )
    } else {
        classes_among(language, all, some.drop_last())
    }
}

/// The classes after a match of a trait pattern: the `trait.target` has the
/// `trait.name` as a parent of kind `trait`. A match that lacks a name
/// changes nothing.
pub open spec fn with_trait(classes: Seq<ClassModel>, m: Seq<FoundModel>) -> Seq<ClassModel> {
    match (picked(m, "trait.name"@), picked(m, "trait.target"@)) {
        (Some(t), Some(target)) => if t.text.len() > 0 && target.text.len() > 0 {
            with_parent(classes, target.text, InheritanceModel { name: t.text, kind: "trait"@ })
        } else {
            classes
        },
        _ => classes,
    }
}

/// The classes after the trait patterns of the given matches.
pub open spec fn with_traits(classes: Seq<ClassModel>, some: Seq<Seq<FoundModel>>) -> Seq<ClassModel>
    decreases some.len(),
{
    if some.len() == 0 {
        classes
    } else {
        with_trait(with_traits(classes, some.drop_last()), some.last())
    }
}

/// The classes after the methods were added to the first class of the name.
pub open spec fn with_all(classes: Seq<ClassModel>, owner: Seq<char>, methods: Seq<FunctionModel>) -> Seq<
    ClassModel,
>
    decreases methods.len(),
{
    if methods.len() == 0 {
        classes
    } else {
        with_method(with_all(classes, owner, methods.drop_last()), owner, methods.last())
    }
}

/// The classes after a match of an implementation pattern: the class it
/// names as `impl.name` is among them and has the methods within the
/// `impl.body`. A match without a name changes nothing.
pub open spec fn with_impl(
    language: SourceLanguage,
    classes: Seq<ClassModel>,
    all: Seq<Seq<FoundModel>>,
    m: Seq<FoundModel>,
) -> Seq<ClassModel> {
    match picked(m, "impl.name"@) {
        Some(n) => if n.text.len() > 0 {
            with_all(
                opened(classes, n.text),
                n.text,
                methods_of_body(language, all, picked(m, "impl.body"@)),
            )
        } else {
            classes
        },
        None => classes,
    }
}

/// The classes after the implementation patterns of the given matches.
pub open spec fn with_impls(
    language: SourceLanguage,
    classes: Seq<ClassModel>,
    all: Seq<Seq<FoundModel>>,
    some: Seq<Seq<FoundModel>>,
) -> Seq<ClassModel>
    decreases some.len(),
{
    if some.len() == 0 {
        classes
    } else {
        with_impl(language, with_impls(language, classes, all, some.drop_last()), all, some.last())
    }
}

/// The classes after every named function among the given matches whose
/// receiver names a class was added to that class.
pub open spec fn with_owned(
    language: SourceLanguage,
    classes: Seq<ClassModel>,
    all: Seq<Seq<FoundModel>>,
    some: Seq<Seq<FoundModel>>,
) -> Seq<ClassModel>
    decreases some.len(),
{
    if some.len() == 0 {
        classes
    } else if is_function(some.last()) && is_named(some.last()) && owner_of(
        language,
        all,
        some.last(),
    ).len() > 0 {
        with_method(
            with_owned(language, classes, all, some.drop_last()),
            owner_of(language, all, some.last()),
            function_of(all, some.last()),
        )
    } else {
        with_owned(language, classes, all, some.drop_last())
    }
}

/// The classes of a file: those the class patterns declare, then the
/// parents the trait patterns give, then the methods of the implementation
/// patterns, then the functions with a receiver.
pub open spec fn classes_of(language: SourceLanguage, all: Seq<Seq<FoundModel>>) -> Seq<ClassModel> {
    with_owned(
        language,
        with_impls(language, with_traits(classes_among(language, all, all), all), all, all),
        all,
        all,
    )
}

/// The imports the `import.source` captures of the given matches stand
/// for, in order.
pub open spec fn imports_listed(language: SourceLanguage, some: Seq<Seq<FoundModel>>) -> Seq<Seq<char>>
    decreases some.len(),
{
    if some.len() == 0 {
        Seq::empty()
    } else {
        match picked(some.last(), "import.source"@) {
            Some(c) => imports_listed(language, some.drop_last()).push(import_of(language, c.text)),
            None => imports_listed(language, some.drop_last()),
        }
    }
}

/// The imports of a file; in TypeScript and JavaScript each once.
pub open spec fn imports_of(language: SourceLanguage, all: Seq<Seq<FoundModel>>) -> Seq<Seq<char>> {
    if language == SourceLanguage::TypeScript || language == SourceLanguage::JavaScript {
        distinct(imports_listed(language, all))
    } else {
        imports_listed(language, all)
    }
}

// ---------------------------------------------------------------------------
// The file
// ---------------------------------------------------------------------------

/// The summary of the file at `path` with the text `content`, given what
/// the syntax runtime finds in it.
pub open spec fn summary_of(
    language: SourceLanguage,
    path: Seq<char>,
    content: Seq<char>,
    all: Seq<Seq<FoundModel>>,
) -> ParsedFileModel {
    ParsedFileModel {
        path,
        language: language.tag(),
        functions: free_among(language, all, all),
        classes: classes_of(language, all),
        imports: imports_of(language, all),
        data_tables: table_names(content),
        service_calls: service_calls_in(content),
    }
}

/// The query patterns of the parser of a language.
pub open spec fn patterns_of(language: SourceLanguage) -> Seq<char> {
    match language {
        SourceLanguage::JavaScript => JS_PATTERNS@,
        SourceLanguage::TypeScript => TS_PATTERNS@,
        SourceLanguage::Rust => RUST_PATTERNS@,
        SourceLanguage::Go => GO_PATTERNS@,
        SourceLanguage::Python => PYTHON_PATTERNS@,
    }
}

/// What parsing the file at `path` with the text `content` gives: the
/// summary made of what the syntax runtime finds with the patterns of the
/// language, or the failure `NoTree` when the runtime finds nothing to
/// report.
pub open spec fn parsed(language: SourceLanguage, path: Seq<char>, content: Seq<char>) -> Result<
    ParsedFileModel,
    ParseError,
> {
    match syntax_matches(language.tag(), patterns_of(language), content) {
        Some(all) => Ok(summary_of(language, path, content, all)),
        None => Err(ParseError::NoTree),
    }
}

/// The last capture of a match that carries the given name.
pub fn pick<'a>(m: &'a Vec<Found>, name: &str) -> (r: Option<&'a Found>)
    ensures
        match r {
            Some(c) => picked(m.deep_view(), name@) == Some(c@),
            None => picked(m.deep_view(), name@) is None,
        },
{
    let mut r: Option<&'a Found> = None;
    let mut k: usize = 0;
    assert(m.deep_view().take(0).len() == 0);
    while k < m.len()
        invariant
            k <= m@.len(),
            match r {
                Some(c) => picked(m.deep_view().take(k as int), name@) == Some(c@),
                None => picked(m.deep_view().take(k as int), name@) is None,
            },
        decreases m@.len() - k,
    {
        assert(m.deep_view().take(k + 1).drop_last() =~= m.deep_view().take(k as int));
        assert(m.deep_view().take(k + 1).last() == m@[k as int]@);
        if str_eq(m[k].name.as_str(), name) {
            r = Some(&m[k]);
        }
        k += 1;
    }
    assert(m.deep_view().take(k as int) =~= m.deep_view());
    r
}

/// The text of the last capture of a match that carries the given name;
/// empty when none does.
pub fn text_named(m: &Vec<Found>, name: &str) -> (text: String)
    ensures
        text@ == text_or_empty(picked(m.deep_view(), name@)),
{
    match pick(m, name) {
        Some(c) => c.text.clone(),
        None => String::new(),
    }
}

/// Whether the bytes of one node lie within those of another.
pub fn within(inner: &Found, outer: &Found) -> (r: bool)
    ensures
        r == inside(inner@, outer@),
{
    outer.range.start_byte <= inner.range.start_byte && inner.range.end_byte <= outer.range.end_byte
}

/// Whether two captures span the same bytes.
pub fn same(a: &Found, b: &Found) -> (r: bool)
    ensures
        r == same_node(a@, b@),
{
    a.range.start_byte == b.range.start_byte && a.range.end_byte == b.range.end_byte
}

/// Whether some match has the node as its capture of the given name.
pub fn marked(all: &Vec<Vec<Found>>, name: &str, node: &Found) -> (r: bool)
    ensures
        r == is_marked(all.deep_view(), name@, node@),
{
    let ghost whole = all.deep_view();
    let mut hit = false;
    let mut i: usize = 0;
    assert(whole.take(0).len() == 0);
    while i < all.len()
        invariant
            i <= all@.len(),
            whole == all.deep_view(),
            hit == is_marked(whole.take(i as int), name@, node@),
        decreases all@.len() - i,
    {
        assert(whole.take(i + 1).drop_last() =~= whole.take(i as int));
        assert(whole.take(i + 1).last() == all@[i as int].deep_view());
        if !hit {
            match pick(&all[i], name) {
                Some(c) => {
                    hit = same(c, node);
                },
                None => {},
            }
        }
        i += 1;
    }
    assert(whole.take(i as int) =~= whole);
    hit
}

/// The names called within a definition, match by match.
pub fn calls_within(all: &Vec<Vec<Found>>, def: &Found) -> (calls: Vec<String>)
    ensures
        calls.deep_view() == called_in(all.deep_view(), def@),
{
    let ghost whole = all.deep_view();
    let mut calls: Vec<String> = Vec::new();
    let mut i: usize = 0;
    assert(calls.deep_view() =~= called_in(whole.take(0), def@));
    while i < all.len()
        invariant
            i <= all@.len(),
            whole == all.deep_view(),
            calls.deep_view() == called_in(whole.take(i as int), def@),
        decreases all@.len() - i,
    {
        assert(whole.take(i + 1).drop_last() =~= whole.take(i as int));
        assert(whole.take(i + 1).last() == all@[i as int].deep_view());
        let ghost before = calls.deep_view();
        assert(before + Seq::<Seq<char>>::empty() =~= before);
        match pick(&all[i], "call.name") {
            Some(c) => {
                if within(c, def) {
                    push_text(&mut calls, c.text.as_str());
                }
            },
            None => match pick(&all[i], "call.macro") {
                Some(c) => {
                    if within(c, def) {
                        let name = join2(c.text.as_str(), "!");
                        push_text(&mut calls, name.as_str());
                    }
                },
                None => {},
            },
        }
        i += 1;
    }
    assert(whole.take(i as int) =~= whole);
    calls
}

/// The names the parameters of a list bind, in order.
pub fn params_within(all: &Vec<Vec<Found>>, list: &Found) -> (params: Vec<String>)
    ensures
        params.deep_view() == params_in(all.deep_view(), list@),
{
    let ghost whole = all.deep_view();
    let mut params: Vec<String> = Vec::new();
    let mut i: usize = 0;
    assert(params.deep_view() =~= params_in(whole.take(0), list@));
    while i < all.len()
        invariant
            i <= all@.len(),
            whole == all.deep_view(),
            params.deep_view() == params_in(whole.take(i as int), list@),
        decreases all@.len() - i,
    {
        assert(whole.take(i + 1).drop_last() =~= whole.take(i as int));
        assert(whole.take(i + 1).last() == all@[i as int].deep_view());
        let ghost before = params.deep_view();
        assert(before + Seq::<Seq<char>>::empty() =~= before);
        match pick(&all[i], "param.list") {
            Some(l) => {
                if same(l, list) {
                    match pick(&all[i], "param.name") {
                        Some(c) => {
                            push_text(&mut params, c.text.as_str());
                        },
                        None => match pick(&all[i], "param.self") {
                            Some(_) => {
                                push_text(&mut params, "self");
                            },
                            None => {},
                        },
                    }
                }
            },
            None => {},
        }
        i += 1;
    }
    assert(whole.take(i as int) =~= whole);
    params
}

/// The class a receiver list names.
pub fn owner_within(all: &Vec<Vec<Found>>, list: &Found) -> (owner: String)
    ensures
        owner@ == owner_in(all.deep_view(), list@),
{
    let ghost whole = all.deep_view();
    let mut owner = String::new();
    let mut i: usize = 0;
    assert(whole.take(0).len() == 0);
    while i < all.len()
        invariant
            i <= all@.len(),
            whole == all.deep_view(),
            owner@ == owner_in(whole.take(i as int), list@),
        decreases all@.len() - i,
    {
        assert(whole.take(i + 1).drop_last() =~= whole.take(i as int));
        assert(whole.take(i + 1).last() == all@[i as int].deep_view());
        match pick(&all[i], "param.list") {
            Some(l) => match pick(&all[i], "param.type") {
                Some(t) => {
                    if same(l, list) {
                        owner = receiver_class_name(t.text.as_str());
                    }
                },
                None => {},
            },
            None => {},
        }
        i += 1;
    }
    assert(whole.take(i as int) =~= whole);
    owner
}

/// The function a match of a function pattern describes.
pub fn function_info(all: &Vec<Vec<Found>>, m: &Vec<Found>, def: &Found) -> (function: FunctionInfo)
    requires
        picked(m.deep_view(), "func.def"@) == Some(def@),
    ensures
        function@ == function_of(all.deep_view(), m.deep_view()),
{
    let params = match pick(m, "func.params") {
        Some(list) => params_within(all, list),
        None => {
            let none: Vec<String> = Vec::new();
            assert(none.deep_view() =~= Seq::empty());
            none
        },
    };
    FunctionInfo {
        name: text_named(m, "func.name"),
        params,
        return_type: None,
        calls: dedup(calls_within(all, def)),
        start_line: line_number(def.range.start_point.row),
        end_line: line_number(def.range.end_point.row),
    }
}

/// The class that the receiver of a function names.
pub fn owner_name(language: SourceLanguage, all: &Vec<Vec<Found>>, m: &Vec<Found>) -> (owner: String)
    ensures
        owner@ == owner_of(language, all.deep_view(), m.deep_view()),
{
    match language {
        SourceLanguage::Go => match pick(m, "method.receiver") {
            Some(list) => owner_within(all, list),
            None => String::new(),
        },
        _ => String::new(),
    }
}

/// Whether a match of a function pattern stands outside every class.
pub fn is_free(language: SourceLanguage, all: &Vec<Vec<Found>>, m: &Vec<Found>, def: &Found) -> (r: bool)
    requires
        picked(m.deep_view(), "func.def"@) == Some(def@),
    ensures
        r == stands_free(language, all.deep_view(), m.deep_view()),
{
    match language {
        SourceLanguage::Rust => marked(all, "func.free", def),
        SourceLanguage::Python => !marked(all, "func.member", def),
        SourceLanguage::TypeScript => !marked(all, "func.method", def),
        SourceLanguage::JavaScript => !marked(all, "func.method", def),
        SourceLanguage::Go => {
            let owner = owner_name(language, all, m);
            is_blank(&owner)
        },
    }
}

/// Whether a match of a function pattern can be a method.
pub fn is_method(language: SourceLanguage, all: &Vec<Vec<Found>>, m: &Vec<Found>, def: &Found) -> (r: bool)
    requires
        picked(m.deep_view(), "func.def"@) == Some(def@),
    ensures
        r == is_member(language, all.deep_view(), m.deep_view()),
{
    let name = text_named(m, "func.name");
    if is_blank(&name) {
        false
    } else {
        match language {
            SourceLanguage::TypeScript => marked(all, "func.method", def),
            SourceLanguage::JavaScript => marked(all, "func.method", def),
            _ => true,
        }
    }
}

/// The functions of a file.
pub fn functions_of(language: SourceLanguage, all: &Vec<Vec<Found>>) -> (functions: Vec<FunctionInfo>)
    ensures
        functions.deep_view() == free_among(language, all.deep_view(), all.deep_view()),
{
    let ghost whole = all.deep_view();
    let mut functions: Vec<FunctionInfo> = Vec::new();
    let mut i: usize = 0;
    assert(functions.deep_view() =~= free_among(language, whole, whole.take(0)));
    while i < all.len()
        invariant
            i <= all@.len(),
            whole == all.deep_view(),
            functions.deep_view() == free_among(language, whole, whole.take(i as int)),
        decreases all@.len() - i,
    {
        assert(whole.take(i + 1).drop_last() =~= whole.take(i as int));
        assert(whole.take(i + 1).last() == all@[i as int].deep_view());
        match pick(&all[i], "func.def") {
            Some(def) => {
                let name = text_named(&all[i], "func.name");
                if !is_blank(&name) && is_free(language, all, &all[i], def) {
                    let function = function_info(all, &all[i], def);
                    proof {
                        lemma_deep_view_push(functions@, functions@.push(function), function);
                    }
                    functions.push(function);
                }
            },
            None => {},
        }
        i += 1;
    }
    assert(whole.take(i as int) =~= whole);
    functions
}

/// The methods within a body.
pub fn methods_within(language: SourceLanguage, all: &Vec<Vec<Found>>, body: &Found) -> (methods: Vec<
    FunctionInfo,
>)
    ensures
        methods.deep_view() == methods_in(language, all.deep_view(), all.deep_view(), body@),
{
    let ghost whole = all.deep_view();
    let mut methods: Vec<FunctionInfo> = Vec::new();
    let mut i: usize = 0;
    assert(methods.deep_view() =~= methods_in(language, whole, whole.take(0), body@));
    while i < all.len()
        invariant
            i <= all@.len(),
            whole == all.deep_view(),
            methods.deep_view() == methods_in(language, whole, whole.take(i as int), body@),
        decreases all@.len() - i,
    {
        assert(whole.take(i + 1).drop_last() =~= whole.take(i as int));
        assert(whole.take(i + 1).last() == all@[i as int].deep_view());
        match pick(&all[i], "func.def") {
            Some(def) => {
                if within(def, body) && is_method(language, all, &all[i], def) {
                    let method = function_info(all, &all[i], def);
                    proof {
                        lemma_deep_view_push(methods@, methods@.push(method), method);
                    }
                    methods.push(method);
                }
            },
            None => {},
        }
        i += 1;
    }
    assert(whole.take(i as int) =~= whole);
    methods
}

/// The methods within the body that a match captures under the given name;
/// none when it captures no body.
pub fn methods_of(language: SourceLanguage, all: &Vec<Vec<Found>>, m: &Vec<Found>, body: &str) -> (methods:
    Vec<FunctionInfo>)
    ensures
        methods.deep_view() == methods_of_body(
            language,
            all.deep_view(),
            picked(m.deep_view(), body@),
        ),
{
    match pick(m, body) {
        Some(body) => methods_within(language, all, body),
        None => {
            let none: Vec<FunctionInfo> = Vec::new();
            assert(none.deep_view() =~= Seq::empty());
            none
        },
    }
}

/// Appends an inheritance entry.
fn push_parent(out: &mut Vec<InheritanceInfo>, name: &str, kind: &str)
    ensures
        final(out).deep_view() == old(out).deep_view() + seq![
            InheritanceModel { name: name@, kind: kind@ },
        ],
{
    let parent = InheritanceInfo { name: name.to_string(), kind: kind.to_string() };
    proof {
        lemma_deep_view_push(out@, out@.push(parent), parent);
        assert(out.deep_view().push(parent@) =~= out.deep_view() + seq![parent@]);
    }
    out.push(parent);
}

/// The inheritance entries within a definition.
pub fn parents_within(all: &Vec<Vec<Found>>, def: &Found) -> (parents: Vec<InheritanceInfo>)
    ensures
        parents.deep_view() == parents_in(all.deep_view(), def@),
{
    let ghost whole = all.deep_view();
    let mut parents: Vec<InheritanceInfo> = Vec::new();
    let mut i: usize = 0;
    assert(parents.deep_view() =~= parents_in(whole.take(0), def@));
    while i < all.len()
        invariant
            i <= all@.len(),
            whole == all.deep_view(),
            parents.deep_view() == parents_in(whole.take(i as int), def@),
        decreases all@.len() - i,
    {
        assert(whole.take(i + 1).drop_last() =~= whole.take(i as int));
        assert(whole.take(i + 1).last() == all@[i as int].deep_view());
        let ghost before = parents.deep_view();
        assert(before + Seq::<InheritanceModel>::empty() =~= before);
        match pick(&all[i], "parent.extends") {
            Some(c) => {
                if within(c, def) {
                    push_parent(&mut parents, c.text.as_str(), "class");
                }
            },
            None => match pick(&all[i], "parent.implements") {
                Some(c) => {
                    if within(c, def) {
                        push_parent(&mut parents, c.text.as_str(), "interface");
                    }
                },
                None => {},
            },
        }
        i += 1;
    }
    assert(whole.take(i as int) =~= whole);
    parents
}

/// The class a match of a class pattern describes.
pub fn class_info(language: SourceLanguage, all: &Vec<Vec<Found>>, m: &Vec<Found>, def: &Found) -> (class:
    ClassInfo)
    requires
        picked(m.deep_view(), "class.def"@) == Some(def@),
    ensures
        class@ == class_of(language, all.deep_view(), m.deep_view()),
{
    ClassInfo {
        name: text_named(m, "class.name"),
        inheritances: parents_within(all, def),
        methods: methods_of(language, all, m, "class.body"),
        start_line: line_number(def.range.start_point.row),
        end_line: line_number(def.range.end_point.row),
    }
}

/// Records a class.
fn record(language: SourceLanguage, classes: &mut Vec<ClassInfo>, class: ClassInfo)
    ensures
        final(classes).deep_view() == recorded(language, old(classes).deep_view(), class@),
{
    let ghost before = classes.deep_view();
    let at = if keyed(language) {
        find_class(classes, class.name.as_str())
    } else {
        classes.len()
    };
    if at < classes.len() {
        classes[at] = class;
        assert(classes.deep_view() =~= before.update(at as int, class@));
    } else {
        proof {
            lemma_deep_view_push(classes@, classes@.push(class), class);
        }
        classes.push(class);
    }
}

/// The classes the class patterns declare.
fn classes_from(language: SourceLanguage, all: &Vec<Vec<Found>>) -> (classes: Vec<ClassInfo>)
    ensures
        classes.deep_view() == classes_among(language, all.deep_view(), all.deep_view()),
{
    let ghost whole = all.deep_view();
    let mut classes: Vec<ClassInfo> = Vec::new();
    let mut i: usize = 0;
    assert(classes.deep_view() =~= classes_among(language, whole, whole.take(0)));
    while i < all.len()
        invariant
            i <= all@.len(),
            whole == all.deep_view(),
            classes.deep_view() == classes_among(language, whole, whole.take(i as int)),
        decreases all@.len() - i,
    {
        assert(whole.take(i + 1).drop_last() =~= whole.take(i as int));
        assert(whole.take(i + 1).last() == all@[i as int].deep_view());
        match pick(&all[i], "class.def") {
            Some(def) => {
                let name = text_named(&all[i], "class.name");
                if !is_blank(&name) {
                    record(language, &mut classes, class_info(language, all, &all[i], def));
                }
            },
            None => {},
        }
        i += 1;
    }
    assert(whole.take(i as int) =~= whole);
    classes
}

/// Adds the parents the trait patterns give.
fn add_traits(classes: &mut Vec<ClassInfo>, all: &Vec<Vec<Found>>)
    ensures
        final(classes).deep_view() == with_traits(old(classes).deep_view(), all.deep_view()),
{
    let ghost whole = all.deep_view();
    let ghost before = classes.deep_view();
    let mut i: usize = 0;
    assert(whole.take(0).len() == 0);
    while i < all.len()
        invariant
            i <= all@.len(),
            whole == all.deep_view(),
            classes.deep_view() == with_traits(before, whole.take(i as int)),
        decreases all@.len() - i,
    {
        assert(whole.take(i + 1).drop_last() =~= whole.take(i as int));
        assert(whole.take(i + 1).last() == all@[i as int].deep_view());
        match pick(&all[i], "trait.name") {
            Some(t) => match pick(&all[i], "trait.target") {
                Some(target) => {
                    if !is_blank(&t.text) && !is_blank(&target.text) {
                        add_parent(
                            classes,
                            target.text.as_str(),
                            InheritanceInfo { name: t.text.clone(), kind: "trait".to_string() },
                        );
                    }
                },
                None => {},
            },
            None => {},
        }
        i += 1;
    }
    assert(whole.take(i as int) =~= whole);
}

/// Adds the methods to the first class of the name.
fn add_all(classes: &mut Vec<ClassInfo>, owner: &str, methods: &Vec<FunctionInfo>)
    ensures
        final(classes).deep_view() == with_all(old(classes).deep_view(), owner@, methods.deep_view()),
{
    let ghost whole = methods.deep_view();
    let ghost before = classes.deep_view();
    let mut i: usize = 0;
    assert(whole.take(0).len() == 0);
    while i < methods.len()
        invariant
            i <= methods@.len(),
            whole == methods.deep_view(),
            classes.deep_view() == with_all(before, owner@, whole.take(i as int)),
        decreases methods@.len() - i,
    {
        assert(whole.take(i + 1).drop_last() =~= whole.take(i as int));
        assert(whole.take(i + 1).last() == methods@[i as int]@);
        add_method(classes, owner, methods[i].clone());
        i += 1;
    }
    assert(whole.take(i as int) =~= whole);
}

/// Adds the methods of the implementation patterns.
fn add_impls(language: SourceLanguage, classes: &mut Vec<ClassInfo>, all: &Vec<Vec<Found>>)
    ensures
        final(classes).deep_view() == with_impls(
            language,
            old(classes).deep_view(),
            all.deep_view(),
            all.deep_view(),
        ),
{
    let ghost whole = all.deep_view();
    let ghost before = classes.deep_view();
    let mut i: usize = 0;
    assert(whole.take(0).len() == 0);
    while i < all.len()
        invariant
            i <= all@.len(),
            whole == all.deep_view(),
            classes.deep_view() == with_impls(language, before, whole, whole.take(i as int)),
        decreases all@.len() - i,
    {
        assert(whole.take(i + 1).drop_last() =~= whole.take(i as int));
        assert(whole.take(i + 1).last() == all@[i as int].deep_view());
        match pick(&all[i], "impl.name") {
            Some(n) => {
                if !is_blank(&n.text) {
                    let methods = methods_of(language, all, &all[i], "impl.body");
                    let _ = open_class(classes, n.text.as_str());
                    add_all(classes, n.text.as_str(), &methods);
                }
            },
            None => {},
        }
        i += 1;
    }
    assert(whole.take(i as int) =~= whole);
}

/// Adds every named function whose receiver names a class to that class.
fn add_owned(language: SourceLanguage, classes: &mut Vec<ClassInfo>, all: &Vec<Vec<Found>>)
    ensures
        final(classes).deep_view() == with_owned(
            language,
            old(classes).deep_view(),
            all.deep_view(),
            all.deep_view(),
        ),
{
    let ghost whole = all.deep_view();
    let ghost before = classes.deep_view();
    let mut i: usize = 0;
    assert(whole.take(0).len() == 0);
    while i < all.len()
        invariant
            i <= all@.len(),
            whole == all.deep_view(),
            classes.deep_view() == with_owned(language, before, whole, whole.take(i as int)),
        decreases all@.len() - i,
    {
        assert(whole.take(i + 1).drop_last() =~= whole.take(i as int));
        assert(whole.take(i + 1).last() == all@[i as int].deep_view());
        match pick(&all[i], "func.def") {
            Some(def) => {
                let name = text_named(&all[i], "func.name");
                if !is_blank(&name) {
                    let owner = owner_name(language, all, &all[i]);
                    if !is_blank(&owner) {
                        add_method(classes, owner.as_str(), function_info(all, &all[i], def));
                    }
                }
            },
            None => {},
        }
        i += 1;
    }
    assert(whole.take(i as int) =~= whole);
}

/// The imports of a file.
pub fn imports_from(language: SourceLanguage, all: &Vec<Vec<Found>>) -> (imports: Vec<String>)
    ensures
        imports.deep_view() == imports_of(language, all.deep_view()),
{
    let ghost whole = all.deep_view();
    let mut listed: Vec<String> = Vec::new();
    let mut i: usize = 0;
    assert(listed.deep_view() =~= imports_listed(language, whole.take(0)));
    while i < all.len()
        invariant
            i <= all@.len(),
            whole == all.deep_view(),
            listed.deep_view() == imports_listed(language, whole.take(i as int)),
        decreases all@.len() - i,
    {
        assert(whole.take(i + 1).drop_last() =~= whole.take(i as int));
        assert(whole.take(i + 1).last() == all@[i as int].deep_view());
        match pick(&all[i], "import.source") {
            Some(c) => {
                let import = import_text(language, c.text.as_str());
                proof {
                    lemma_deep_view_push(listed@, listed@.push(import), import);
                }
                listed.push(import);
            },
            None => {},
        }
        i += 1;
    }
    assert(whole.take(i as int) =~= whole);
    match language {
        SourceLanguage::TypeScript => dedup(listed),
        SourceLanguage::JavaScript => dedup(listed),
        _ => listed,
    }
}

/// The summary of the file at `relative_path` with the text `content`,
/// given what the syntax runtime finds in it. The path is kept as given; the
/// data tables and service calls come from scans of the text.
pub fn describe(language: SourceLanguage, relative_path: &str, content: &str, all: &Vec<Vec<Found>>) -> (file:
    ParsedFile)
    ensures
        file@ == summary_of(language, relative_path@, content@, all.deep_view()),
{
    let mut classes = classes_from(language, all);
    add_traits(&mut classes, all);
    add_impls(language, &mut classes, all);
    add_owned(language, &mut classes, all);
    ParsedFile {
        path: relative_path.to_string(),
        language: tag_of(language),
        functions: functions_of(language, all),
        classes,
        imports: imports_from(language, all),
        data_tables: extract_data_tables(content),
        service_calls: extract_service_calls(content),
    }
}

/// The query patterns of the parser of a language.
pub fn patterns(language: SourceLanguage) -> (text: &'static str)
    ensures
        text@ == patterns_of(language),
{
    match language {
        SourceLanguage::JavaScript => JS_PATTERNS,
        SourceLanguage::TypeScript => TS_PATTERNS,
        SourceLanguage::Rust => RUST_PATTERNS,
        SourceLanguage::Go => GO_PATTERNS,
        SourceLanguage::Python => PYTHON_PATTERNS,
    }
}

/// What the syntax runtime finds in a text with the patterns of the parser
/// of the language.
pub fn matches_of(language: SourceLanguage, content: &str) -> (found: Option<Vec<Vec<Found>>>)
    ensures
        found.deep_view() == syntax_matches(language.tag(), patterns_of(language), content@),
{
    match language {
        SourceLanguage::JavaScript => javascript_matches(JS_PATTERNS, content),
        SourceLanguage::TypeScript => typescript_matches(TS_PATTERNS, content),
        SourceLanguage::Rust => rust_matches(RUST_PATTERNS, content),
        SourceLanguage::Go => go_matches(GO_PATTERNS, content),
        SourceLanguage::Python => python_matches(PYTHON_PATTERNS, content),
    }
}

/// Parses the text of the file at `relative_path` with the parser of the
/// language.
pub fn parse_with(language: SourceLanguage, relative_path: &str, content: &str) -> (r: Result<
    ParsedFile,
    ParseError,
>)
    ensures
        match r {
            Ok(file) => parsed(language, relative_path@, content@) == Ok::<ParsedFileModel, ParseError>(
                file@,
            ),
            Err(e) => parsed(language, relative_path@, content@) == Err::<ParsedFileModel, ParseError>(
                e,
            ),
        },
{
    match matches_of(language, content) {
        Some(all) => Ok(describe(language, relative_path, content, &all)),
        None => Err(ParseError::NoTree),
    }
}

} // verus!
