//! What holds of every summary, whatever the syntax runtime finds.

use vstd::prelude::*;
use crate::parsers::common::{
    lemma_distinct_no_duplicates, service_calls_in, table_names, ParseError,
};
use crate::parsers::outline::{
    called_in, class_names, class_of, classes_among, free_among, function_of, is_function,
    is_named, methods_in, methods_of_body, opened, owner_of, parsed, picked, slot_of,
    stands_free, summary_of, with_all, with_impls, with_method, with_owned, with_parent,
    with_traits,
};
use crate::parsers::{ClassModel, FunctionModel, InheritanceModel, ParsedFileModel, SourceLanguage};
use crate::syntax::FoundModel;
use crate::views::lemma_first_index_bounds;

verus! {

/// A function as the parsers report it: without a return type, with each
/// called name listed once, and with lines counted from one.
pub open spec fn is_neat(f: FunctionModel) -> bool {
    &&& f.return_type is None
    &&& f.calls.no_duplicates()
    &&& f.start_line >= 1
    &&& f.end_line >= 1
}

/// Every function of the list is as the parsers report it.
pub open spec fn all_neat(functions: Seq<FunctionModel>) -> bool {
    forall|i: int| 0 <= i < functions.len() ==> is_neat(#[trigger] functions[i])
}

/// Every method of every class is as the parsers report it.
pub open spec fn classes_neat(classes: Seq<ClassModel>) -> bool {
    forall|i: int| 0 <= i < classes.len() ==> all_neat((#[trigger] classes[i]).methods)
}

proof fn lemma_opened_neat(classes: Seq<ClassModel>, name: Seq<char>)
    requires
        classes_neat(classes),
    ensures
        classes_neat(opened(classes, name)),
        0 <= slot_of(opened(classes, name), name) < opened(classes, name).len(),
{
    lemma_first_index_bounds(class_names(classes), name);
    let open = opened(classes, name);
    if slot_of(classes, name) >= classes.len() {
        assert(class_names(open) =~= class_names(classes).push(name));
        crate::views::lemma_first_index_unique(class_names(open), name, classes.len() as int);
    }
}

proof fn lemma_with_method_neat(classes: Seq<ClassModel>, owner: Seq<char>, method: FunctionModel)
    requires
        classes_neat(classes),
        is_neat(method),
    ensures
        classes_neat(with_method(classes, owner, method)),
{
    lemma_opened_neat(classes, owner);
    let open = opened(classes, owner);
    let at = slot_of(open, owner);
    let after = with_method(classes, owner, method);
    assert forall|i: int| 0 <= i < after.len() implies all_neat((#[trigger] after[i]).methods) by {
        if i == at {
            assert(all_neat(open[at].methods));
            assert forall|k: int| 0 <= k < after[i].methods.len() implies is_neat(
                #[trigger] after[i].methods[k],
            ) by {
                if k < open[at].methods.len() {
                    assert(after[i].methods[k] == open[at].methods[k]);
                }
            }
        } else {
            assert(after[i] == open[i]);
        }
    }
}

proof fn lemma_with_parent_neat(classes: Seq<ClassModel>, owner: Seq<char>, parent: InheritanceModel)
    requires
        classes_neat(classes),
    ensures
        classes_neat(with_parent(classes, owner, parent)),
{
    lemma_opened_neat(classes, owner);
    let open = opened(classes, owner);
    let at = slot_of(open, owner);
    let after = with_parent(classes, owner, parent);
    assert forall|i: int| 0 <= i < after.len() implies all_neat((#[trigger] after[i]).methods) by {
        if i == at {
            assert(all_neat(open[at].methods));
        } else {
            assert(after[i] == open[i]);
        }
    }
}

proof fn lemma_function_is_neat(all: Seq<Seq<FoundModel>>, m: Seq<FoundModel>)
    ensures
        is_neat(function_of(all, m)),
{
    lemma_distinct_no_duplicates(called_in(all, picked(m, "func.def"@)->0));
}

proof fn lemma_free_neat(language: SourceLanguage, all: Seq<Seq<FoundModel>>, some: Seq<Seq<FoundModel>>)
    ensures
        all_neat(free_among(language, all, some)),
    decreases some.len(),
{
    if some.len() > 0 {
        lemma_free_neat(language, all, some.drop_last());
        lemma_function_is_neat(all, some.last());
    }
}

proof fn lemma_methods_neat(
    language: SourceLanguage,
    all: Seq<Seq<FoundModel>>,
    some: Seq<Seq<FoundModel>>,
    body: FoundModel,
)
    ensures
        all_neat(methods_in(language, all, some, body)),
    decreases some.len(),
{
    if some.len() > 0 {
        lemma_methods_neat(language, all, some.drop_last(), body);
        lemma_function_is_neat(all, some.last());
    }
}

proof fn lemma_body_neat(language: SourceLanguage, all: Seq<Seq<FoundModel>>, body: Option<FoundModel>)
    ensures
        all_neat(methods_of_body(language, all, body)),
{
    if body is Some {
        lemma_methods_neat(language, all, all, body->0);
    }
}

proof fn lemma_classes_among_neat(language: SourceLanguage, all: Seq<Seq<FoundModel>>, some: Seq<Seq<FoundModel>>)
    ensures
        classes_neat(classes_among(language, all, some)),
    decreases some.len(),
{
    if some.len() > 0 {
        lemma_classes_among_neat(language, all, some.drop_last());
        let rest = classes_among(language, all, some.drop_last());
        let class = class_of(language, all, some.last());
        lemma_body_neat(language, all, picked(some.last(), "class.body"@));
        lemma_first_index_bounds(class_names(rest), class.name);
    }
}

proof fn lemma_with_traits_neat(classes: Seq<ClassModel>, some: Seq<Seq<FoundModel>>)
    requires
        classes_neat(classes),
    ensures
        classes_neat(with_traits(classes, some)),
    decreases some.len(),
{
    if some.len() > 0 {
        lemma_with_traits_neat(classes, some.drop_last());
        let rest = with_traits(classes, some.drop_last());
        match (picked(some.last(), "trait.name"@), picked(some.last(), "trait.target"@)) {
            (Some(t), Some(target)) => {
                lemma_with_parent_neat(
                    rest,
                    target.text,
                    InheritanceModel { name: t.text, kind: "trait"@ },
                );
            },
            _ => {},
        }
    }
}

proof fn lemma_with_all_neat(classes: Seq<ClassModel>, owner: Seq<char>, methods: Seq<FunctionModel>)
    requires
        classes_neat(classes),
        all_neat(methods),
    ensures
        classes_neat(with_all(classes, owner, methods)),
    decreases methods.len(),
{
    if methods.len() > 0 {
        assert forall|i: int| 0 <= i < methods.drop_last().len() implies is_neat(
            #[trigger] methods.drop_last()[i],
        ) by {
            assert(methods.drop_last()[i] == methods[i]);
        }
        lemma_with_all_neat(classes, owner, methods.drop_last());
        lemma_with_method_neat(with_all(classes, owner, methods.drop_last()), owner, methods.last());
    }
}

proof fn lemma_with_impls_neat(
    language: SourceLanguage,
    classes: Seq<ClassModel>,
    all: Seq<Seq<FoundModel>>,
    some: Seq<Seq<FoundModel>>,
)
    requires
        classes_neat(classes),
    ensures
        classes_neat(with_impls(language, classes, all, some)),
    decreases some.len(),
{
    if some.len() > 0 {
        lemma_with_impls_neat(language, classes, all, some.drop_last());
        let rest = with_impls(language, classes, all, some.drop_last());
        match picked(some.last(), "impl.name"@) {
            Some(n) => {
                lemma_opened_neat(rest, n.text);
                lemma_body_neat(language, all, picked(some.last(), "impl.body"@));
                lemma_with_all_neat(
                    opened(rest, n.text),
                    n.text,
                    methods_of_body(language, all, picked(some.last(), "impl.body"@)),
                );
            },
            None => {},
        }
    }
}

proof fn lemma_with_owned_neat(
    language: SourceLanguage,
    classes: Seq<ClassModel>,
    all: Seq<Seq<FoundModel>>,
    some: Seq<Seq<FoundModel>>,
)
    requires
        classes_neat(classes),
    ensures
        classes_neat(with_owned(language, classes, all, some)),
    decreases some.len(),
{
    if some.len() > 0 {
        lemma_with_owned_neat(language, classes, all, some.drop_last());
        lemma_function_is_neat(all, some.last());
        lemma_with_method_neat(
            with_owned(language, classes, all, some.drop_last()),
            owner_of(language, all, some.last()),
            function_of(all, some.last()),
        );
    }
}

/// Whatever the syntax runtime finds in a file, the summary carries the
/// path as given, the tag of the language and the tables and services that
/// the scans of the text find; and every function and every method of it
/// has no return type, lists each name it calls once, and has its lines
/// counted from one.
pub proof fn law_summaries_are_neat(
    language: SourceLanguage,
    path: Seq<char>,
    content: Seq<char>,
    all: Seq<Seq<FoundModel>>,
)
    ensures
        summary_of(language, path, content, all).path == path,
        summary_of(language, path, content, all).language == language.tag(),
        summary_of(language, path, content, all).data_tables == table_names(content),
        summary_of(language, path, content, all).service_calls == service_calls_in(content),
        all_neat(summary_of(language, path, content, all).functions),
        classes_neat(summary_of(language, path, content, all).classes),
{
    lemma_free_neat(language, all, all);
    lemma_classes_among_neat(language, all, all);
    let declared = classes_among(language, all, all);
    lemma_with_traits_neat(declared, all);
    let with_parents = with_traits(declared, all);
    lemma_with_impls_neat(language, with_parents, all, all);
    lemma_with_owned_neat(language, with_impls(language, with_parents, all, all), all, all);
}

/// Parsing is a function of the language, the path and the text: two
/// parses of one text under one path give the same summary or the same
/// failure, and a summary carries the path as it was given.
pub proof fn law_parsing_is_a_function(
    language: SourceLanguage,
    path: Seq<char>,
    content: Seq<char>,
    first: Result<ParsedFileModel, ParseError>,
    second: Result<ParsedFileModel, ParseError>,
)
    requires
        first == parsed(language, path, content),
        second == parsed(language, path, content),
    ensures
        first == second,
        first matches Ok(file) ==> file.path == path && file.language == language.tag(),
{
}

/// Every function of a file is a named match of a function pattern that
/// stands free. So a method definition of TypeScript or JavaScript is
/// recorded with its class only, and a Go function whose receiver names a
/// class is no function of the file.
pub proof fn law_functions_stand_free(
    language: SourceLanguage,
    all: Seq<Seq<FoundModel>>,
    some: Seq<Seq<FoundModel>>,
    i: int,
)
    requires
        0 <= i < free_among(language, all, some).len(),
    ensures
        exists|j: int|
            0 <= j < some.len() && is_function(#[trigger] some[j]) && is_named(some[j])
                && stands_free(language, all, some[j]) && free_among(language, all, some)[i]
                == function_of(all, some[j]),
    decreases some.len(),
{
    let rest = some.drop_last();
    if i < free_among(language, all, rest).len() {
        law_functions_stand_free(language, all, rest, i);
        let j = choose|j: int|
            0 <= j < rest.len() && is_function(#[trigger] rest[j]) && is_named(rest[j])
                && stands_free(language, all, rest[j]) && free_among(language, all, rest)[i]
                == function_of(all, rest[j]);
        assert(some[j] == rest[j]);
    } else {
        assert(is_function(some[some.len() - 1]));
    }
}

} // verus!
