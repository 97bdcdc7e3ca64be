//! What the language parsers share: the failure of a parse, line numbers,
//! and the two text scans for data tables and service URLs.

use vstd::prelude::*;
use crate::parsers::{ServiceCall, ServiceCallModel};
use crate::patterns::{captures_of, group, group_of, regex_captures};
use crate::text::{distinct, holds, host_of, host_of_url, push_distinct, str_eq};
use crate::views::lemma_deep_view_push;

verus! {

/// Why a file could not be parsed.
#[derive(Debug, Clone, Copy, PartialEq, Eq, Structural)]
pub enum ParseError {
    /// The syntax runtime has nothing to report for the text: it refused
    /// the grammar or the patterns, or gave no tree.
    NoTree,
}

impl ParseError {
    /// The cause in words.
    pub open spec fn text(self) -> Seq<char> {
        "Failed to parse file"@
    }

    /// The cause in words.
    pub fn message(&self) -> (r: String)
        ensures
            r@ == self.text(),
    {
        "Failed to parse file".to_string()
    }
}

/// The one-based line of a zero-based row.
pub open spec fn line_of(row: usize) -> usize {
    if row < usize::MAX {
        (row + 1) as usize
    } else {
        usize::MAX
    }
}

/// The one-based line of a zero-based row.
pub fn line_number(row: usize) -> (line: usize)
    ensures
        line == line_of(row),
{
    if row < usize::MAX {
        row + 1
    } else {
        usize::MAX
    }
}

/// Whether a text is empty.
pub fn is_blank(text: &String) -> (r: bool)
    ensures
        r == (text@.len() == 0),
{
    text.as_str().is_empty()
}

/// `items` with nothing repeated, in order of first occurrence.
pub fn dedup(items: Vec<String>) -> (out: Vec<String>)
    ensures
        out.deep_view() == distinct(items.deep_view()),
{
    let mut out: Vec<String> = Vec::new();
    let ghost all = items.deep_view();
    let mut i: usize = 0;
    assert(out.deep_view() =~= distinct(all.take(0)));
    while i < items.len()
        invariant
            i <= items@.len(),
            all == items.deep_view(),
            out.deep_view() == distinct(all.take(i as int)),
        decreases items@.len() - i,
    {
        assert(all.take(i as int).push(items[i as int]@) =~= all.take(i + 1));
        push_distinct(&mut out, items[i].clone(), Ghost(all.take(i as int)));
        i += 1;
    }
    assert(all.take(i as int) =~= all);
    out
}

/// Nothing is repeated in `distinct(s)`, and it holds what `s` holds.
pub proof fn lemma_distinct_no_duplicates<A>(s: Seq<A>)
    ensures
        distinct(s).no_duplicates(),
        forall|x: A| distinct(s).contains(x) <==> s.contains(x),
    decreases s.len(),
{
    if s.len() > 0 {
        let rest = s.drop_last();
        lemma_distinct_no_duplicates(rest);
        assert(s =~= rest.push(s.last()));
        assert forall|x: A| distinct(s).contains(x) <==> s.contains(x) by {
            crate::graph_laws::lemma_push_contains(rest, s.last(), x);
            if !distinct(rest).contains(s.last()) {
                crate::graph_laws::lemma_push_contains(distinct(rest), s.last(), x);
            }
        }
    } else {
        assert forall|x: A| distinct(s).contains(x) <==> s.contains(x) by {
            if s.contains(x) {
                let i = choose|i: int| 0 <= i < s.len() && s[i] == x;
            }
            if distinct(s).contains(x) {
                let i = choose|i: int| 0 <= i < distinct(s).len() && distinct(s)[i] == x;
            }
        }
    }
}

// ---------------------------------------------------------------------------
// Data tables
// ---------------------------------------------------------------------------

pub const TABLE_AFTER_FROM: &'static str = r"(?i)\bfrom\s+([a-zA-Z0-9_.]+)";

pub const TABLE_AFTER_JOIN: &'static str = r"(?i)\bjoin\s+([a-zA-Z0-9_.]+)";

pub const TABLE_AFTER_INTO: &'static str = r"(?i)\binto\s+([a-zA-Z0-9_.]+)";

pub const TABLE_AFTER_UPDATE: &'static str = r"(?i)\bupdate\s+([a-zA-Z0-9_.]+)";

pub const TABLE_AFTER_DELETE: &'static str = r"(?i)\bdelete\s+from\s+([a-zA-Z0-9_.]+)";

pub const TABLE_CONSTRUCTOR: &'static str = r#"(?i)\btable\(\s*['"]([a-zA-Z0-9_.]+)['"]"#;

pub const SERVICE_URL: &'static str = r#"(?i)\b(https?|grpc)://[^\s'"`]+"#;

/// The texts of group `i` of the matches in which the group took part.
pub open spec fn group_texts(found: Seq<Seq<Option<Seq<char>>>>, i: int) -> Seq<Seq<char>>
    decreases found.len(),
{
    if found.len() == 0 {
        Seq::empty()
    } else {
        match group(found.last(), i) {
            Some(text) => group_texts(found.drop_last(), i).push(text),
            None => group_texts(found.drop_last(), i),
        }
    }
}

/// The texts of group `i` over all matches of `pattern` in `content`;
/// nothing when the pattern does not compile.
pub open spec fn pattern_hits(pattern: Seq<char>, content: Seq<char>, i: int) -> Seq<Seq<char>> {
    match regex_captures(pattern, content) {
        Some(found) => group_texts(found, i),
        None => Seq::empty(),
    }
}

/// The texts of group `i` over all matches of `pattern` in `content`.
pub fn hits(pattern: &str, content: &str, i: usize) -> (out: Vec<String>)
    ensures
        out.deep_view() == pattern_hits(pattern@, content@, i as int),
{
    let mut out: Vec<String> = Vec::new();
    match captures_of(pattern, content) {
        Some(found) => {
            let ghost all = found.deep_view();
            let mut k: usize = 0;
            assert(out.deep_view() =~= group_texts(all.take(0), i as int));
            while k < found.len()
                invariant
                    k <= found@.len(),
                    all == found.deep_view(),
                    out.deep_view() == group_texts(all.take(k as int), i as int),
                decreases found@.len() - k,
            {
                proof {
                    assert(all.take(k + 1).drop_last() =~= all.take(k as int));
                    assert(all.take(k + 1).last() == found[k as int].deep_view());
                }
                match group_of(&found[k], i) {
                    Some(text) => {
                        let item = text.clone();
                        proof {
                            lemma_deep_view_push(out@, out@.push(item), item);
                        }
                        out.push(item);
                    },
                    None => {},
                }
                k += 1;
            }
            assert(all.take(k as int) =~= all);
        },
        None => {
            assert(out.deep_view() =~= Seq::empty());
        },
    }
    out
}

/// Every identifier that follows `FROM`, `JOIN`, `INTO`, `UPDATE` or
/// `DELETE FROM` in the text, or is the argument of a `table('..')`
/// constructor, in that order of scans.
pub open spec fn table_mentions(content: Seq<char>) -> Seq<Seq<char>> {
    pattern_hits(TABLE_AFTER_FROM@, content, 1) + pattern_hits(TABLE_AFTER_JOIN@, content, 1)
        + pattern_hits(TABLE_AFTER_INTO@, content, 1) + pattern_hits(TABLE_AFTER_UPDATE@, content, 1)
        + pattern_hits(TABLE_AFTER_DELETE@, content, 1) + pattern_hits(TABLE_CONSTRUCTOR@, content, 1)
}

/// The data tables a text refers to: each mentioned identifier once.
pub open spec fn table_names(content: Seq<char>) -> Seq<Seq<char>> {
    distinct(table_mentions(content))
}

/// Appends `more` to `list`.
pub fn append_strings(list: &mut Vec<String>, more: Vec<String>)
    ensures
        final(list).deep_view() == old(list).deep_view() + more.deep_view(),
{
    let mut more = more;
    proof {
        crate::views::lemma_deep_view_concat(list@, more@);
    }
    list.append(&mut more);
}

/// The data tables a source text refers to.
pub fn extract_data_tables(content: &str) -> (tables: Vec<String>)
    ensures
        tables.deep_view() == table_names(content@),
{
    let mut mentions = hits(TABLE_AFTER_FROM, content, 1);
    append_strings(&mut mentions, hits(TABLE_AFTER_JOIN, content, 1));
    append_strings(&mut mentions, hits(TABLE_AFTER_INTO, content, 1));
    append_strings(&mut mentions, hits(TABLE_AFTER_UPDATE, content, 1));
    append_strings(&mut mentions, hits(TABLE_AFTER_DELETE, content, 1));
    append_strings(&mut mentions, hits(TABLE_CONSTRUCTOR, content, 1));
    dedup(mentions)
}

// ---------------------------------------------------------------------------
// Service calls
// ---------------------------------------------------------------------------

/// The host a service URL names.
pub fn extract_service_target(url: &str) -> (r: Option<String>)
    ensures
        r.deep_view() == host_of(url@),
{
    host_of_url(url)
}

/// The service a URL match stands for: its host with the scheme it was
/// written with; nothing when the URL names no host.
pub open spec fn service_of(groups: Seq<Option<Seq<char>>>) -> Option<ServiceCallModel> {
    let full = match group(groups, 0) {
        Some(text) => text,
        None => Seq::empty(),
    };
    let protocol = match group(groups, 1) {
        Some(text) => text,
        None => "http"@,
    };
    match host_of(full) {
        Some(target) => Some(ServiceCallModel { target, protocol }),
        None => None,
    }
}

/// The services of a list of URL matches, in order.
pub open spec fn services_of(found: Seq<Seq<Option<Seq<char>>>>) -> Seq<ServiceCallModel>
    decreases found.len(),
{
    if found.len() == 0 {
        Seq::empty()
    } else {
        match service_of(found.last()) {
            Some(service) => services_of(found.drop_last()).push(service),
            None => services_of(found.drop_last()),
        }
    }
}

/// The services a text refers to by URL with scheme `http`, `https` or
/// `grpc`: each pair of host and scheme once, in order of first occurrence.
pub open spec fn service_calls_in(content: Seq<char>) -> Seq<ServiceCallModel> {
    match regex_captures(SERVICE_URL@, content) {
        Some(found) => distinct(services_of(found)),
        None => Seq::empty(),
    }
}

/// Whether `list` holds the service.
fn holds_service(list: &Vec<ServiceCall>, service: &ServiceCall) -> (r: bool)
    ensures
        r == list.deep_view().contains(service@),
{
    let mut i: usize = 0;
    while i < list.len()
        invariant
            i <= list@.len(),
            forall|j: int| 0 <= j < i ==> list.deep_view()[j] != service@,
        decreases list@.len() - i,
    {
        if str_eq(list[i].target.as_str(), service.target.as_str()) && str_eq(
            list[i].protocol.as_str(),
            service.protocol.as_str(),
        ) {
            assert(list.deep_view()[i as int] == service@);
            return true;
        }
        i += 1;
    }
    false
}

/// The services a source text refers to by URL.
pub fn extract_service_calls(content: &str) -> (services: Vec<ServiceCall>)
    ensures
        services.deep_view() == service_calls_in(content@),
{
    let mut out: Vec<ServiceCall> = Vec::new();
    match captures_of(SERVICE_URL, content) {
        Some(found) => {
            let ghost all = found.deep_view();
            let mut k: usize = 0;
            assert(out.deep_view() =~= distinct(services_of(all.take(0))));
            while k < found.len()
                invariant
                    k <= found@.len(),
                    all == found.deep_view(),
                    out.deep_view() == distinct(services_of(all.take(k as int))),
                decreases found@.len() - k,
            {
                proof {
                    assert(all.take(k + 1).drop_last() =~= all.take(k as int));
                    assert(all.take(k + 1).last() == found[k as int].deep_view());
                }
                let full = match group_of(&found[k], 0) {
                    Some(text) => text.clone(),
                    None => String::new(),
                };
                let protocol = match group_of(&found[k], 1) {
                    Some(text) => text.clone(),
                    None => "http".to_string(),
                };
                match extract_service_target(full.as_str()) {
                    Some(target) => {
                        let service = ServiceCall { target, protocol };
                        let ghost before = services_of(all.take(k as int));
                        assert(before.push(service@).drop_last() =~= before);
                        if !holds_service(&out, &service) {
                            proof {
                                lemma_deep_view_push(out@, out@.push(service), service);
                            }
                            out.push(service);
                        }
                    },
                    None => {},
                }
                k += 1;
            }
            assert(all.take(k as int) =~= all);
        },
        None => {
            assert(out.deep_view() =~= Seq::empty());
        },
    }
    out
}

} // verus!
