//! Communication artifacts found by text patterns: HTTP endpoints, RPC
//! services, message queues and compose services.
//!
//! The patterns are approximate by design. What they find is meaningful at
//! the granularity of a repository, not of a statement.

use vstd::prelude::*;
use crate::parsers::common::{hits, pattern_hits};
use crate::patterns::{captures_of, group, group_of, regex_captures};
use crate::text::{
    chars_of, count_leading, has_prefix, host_of, host_of_url, leading_count, lines_of,
    split_lines, starts_with, string_of, to_uppercase, trim, trim_end, trim_start, trimmed,
    uppercase, without_leading, without_surrounding, without_trailing, CharClass,
};
use crate::views::{lemma_deep_view_concat, lemma_deep_view_push};

verus! {

/// A call of an HTTP endpoint written into a source file.
#[derive(Debug)]
pub struct EndpointCall {
    pub file_path: String,
    pub url: String,
    pub method: String,
    pub host: Option<String>,
}

/// Mathematical value of an [`EndpointCall`].
pub struct EndpointModel {
    pub file_path: Seq<char>,
    pub url: Seq<char>,
    pub method: Seq<char>,
    pub host: Option<Seq<char>>,
}

impl View for EndpointCall {
    type V = EndpointModel;

    open spec fn view(&self) -> EndpointModel {
        EndpointModel {
            file_path: self.file_path@,
            url: self.url@,
            method: self.method@,
            host: self.host.deep_view(),
        }
    }
}

impl DeepView for EndpointCall {
    type V = EndpointModel;

    open spec fn deep_view(&self) -> EndpointModel {
        self@
    }
}

impl Clone for EndpointCall {
    fn clone(&self) -> (r: Self)
        ensures
            r@ == self@,
    {
        EndpointCall {
            file_path: self.file_path.clone(),
            url: self.url.clone(),
            method: self.method.clone(),
            host: self.host.clone(),
        }
    }
}

/// A use of an RPC service.
#[derive(Debug)]
pub struct RpcCall {
    pub file_path: String,
    pub service_name: String,
}

/// Mathematical value of an [`RpcCall`].
pub struct RpcModel {
    pub file_path: Seq<char>,
    pub service_name: Seq<char>,
}

impl View for RpcCall {
    type V = RpcModel;

    open spec fn view(&self) -> RpcModel {
        RpcModel { file_path: self.file_path@, service_name: self.service_name@ }
    }
}

impl DeepView for RpcCall {
    type V = RpcModel;

    open spec fn deep_view(&self) -> RpcModel {
        self@
    }
}

impl Clone for RpcCall {
    fn clone(&self) -> (r: Self)
        ensures
            r@ == self@,
    {
        RpcCall { file_path: self.file_path.clone(), service_name: self.service_name.clone() }
    }
}

/// Whether a file publishes to a queue or consumes from it.
#[derive(Debug, Clone, Copy, PartialEq, Eq, Structural)]
pub enum QueueDirection {
    Publish,
    Consume,
}

/// A use of a message queue.
#[derive(Debug)]
pub struct QueueUsage {
    pub file_path: String,
    pub topic: String,
    pub direction: QueueDirection,
}

/// Mathematical value of a [`QueueUsage`].
pub struct QueueModel {
    pub file_path: Seq<char>,
    pub topic: Seq<char>,
    pub direction: QueueDirection,
}

impl View for QueueUsage {
    type V = QueueModel;

    open spec fn view(&self) -> QueueModel {
        QueueModel { file_path: self.file_path@, topic: self.topic@, direction: self.direction }
    }
}

impl DeepView for QueueUsage {
    type V = QueueModel;

    open spec fn deep_view(&self) -> QueueModel {
        self@
    }
}

impl Clone for QueueUsage {
    fn clone(&self) -> (r: Self)
        ensures
            r@ == self@,
    {
        QueueUsage {
            file_path: self.file_path.clone(),
            topic: self.topic.clone(),
            direction: self.direction,
        }
    }
}

/// A service of a compose file with its port mappings.
#[derive(Debug)]
pub struct ComposeService {
    pub name: String,
    pub ports: Vec<String>,
}

/// Mathematical value of a [`ComposeService`].
pub struct ComposeModel {
    pub name: Seq<char>,
    pub ports: Seq<Seq<char>>,
}

impl View for ComposeService {
    type V = ComposeModel;

    open spec fn view(&self) -> ComposeModel {
        ComposeModel { name: self.name@, ports: self.ports.deep_view() }
    }
}

impl DeepView for ComposeService {
    type V = ComposeModel;

    open spec fn deep_view(&self) -> ComposeModel {
        self@
    }
}

impl Clone for ComposeService {
    fn clone(&self) -> (r: Self)
        ensures
            r@ == self@,
    {
        let r = ComposeService { name: self.name.clone(), ports: self.ports.clone() };
        assert(r.ports.deep_view() =~= self.ports.deep_view());
        r
    }
}

/// The communication artifacts of a repository.
#[derive(Debug)]
pub struct CommunicationAnalysis {
    pub endpoints: Vec<EndpointCall>,
    pub rpc_services: Vec<RpcCall>,
    pub queues: Vec<QueueUsage>,
    pub compose_services: Vec<ComposeService>,
}

/// The text of a source file that could be read.
#[derive(Debug)]
pub struct SourceText {
    pub path: String,
    pub content: String,
}

/// Why the communication scan failed.
#[derive(Debug, Clone, Copy, PartialEq, Eq, Structural)]
pub enum CommunicationError {
    /// The pattern for service declarations was rejected.
    ProtoPattern,
}

/// Detector of communication artifacts.
pub struct CommunicationDetector;

// ---------------------------------------------------------------------------
// HTTP endpoints
// ---------------------------------------------------------------------------

pub const FETCH_CALL: &'static str = r#"(?i)fetch\(\s*['\"](https?://[^'\"\s]+)['\"]"#;

pub const FETCH_CALL_WITH_METHOD: &'static str =
    r#"(?i)fetch\(\s*['\"](https?://[^'\"\s]+)['\"]\s*,\s*\{[^}]*method\s*:\s*['\"]([A-Z]+)['\"]"#;

pub const AXIOS_CALL: &'static str =
    r#"(?i)axios\.(get|post|put|delete|patch)\(\s*['\"](https?://[^'\"\s]+)['\"]"#;

pub const REQUESTS_CALL: &'static str =
    r#"(?i)requests\.(get|post|put|delete|patch)\(\s*['\"](https?://[^'\"\s]+)['\"]"#;

pub const HTTP_GET_CALL: &'static str = r#"(?i)http\.Get\(\s*\"(https?://[^\"\s]+)\""#;

/// The text of group `i`, or `fallback` when the group took no part.
pub open spec fn group_or(groups: Seq<Option<Seq<char>>>, i: int, fallback: Seq<char>) -> Seq<char> {
    match group(groups, i) {
        Some(text) => text,
        None => fallback,
    }
}

/// The text of group `i`, or `fallback` when the group took no part.
pub fn group_text(groups: &Vec<Option<String>>, i: usize, fallback: &str) -> (text: String)
    ensures
        text@ == group_or(groups.deep_view(), i as int, fallback@),
{
    match group_of(groups, i) {
        Some(text) => text.clone(),
        None => fallback.to_string(),
    }
}

/// An endpoint call with the host its URL names.
pub open spec fn endpoint(file_path: Seq<char>, url: Seq<char>, method: Seq<char>) -> EndpointModel {
    EndpointModel { file_path, url, method, host: host_of(url) }
}

/// How a pattern for HTTP calls is read: the group that holds the URL, and
/// the method, which is either fixed or held by a group in any case of
/// letters.
pub struct CallShape {
    pub url_group: usize,
    pub verb_group: Option<usize>,
    pub fixed_method: &'static str,
}

/// The method of a match.
pub open spec fn method_of(groups: Seq<Option<Seq<char>>>, shape: CallShape) -> Seq<char> {
    match shape.verb_group {
        Some(g) => uppercase(group_or(groups, g as int, shape.fixed_method@)),
        None => shape.fixed_method@,
    }
}

/// The endpoint calls of a list of matches.
pub open spec fn endpoints_of(
    found: Seq<Seq<Option<Seq<char>>>>,
    file_path: Seq<char>,
    shape: CallShape,
) -> Seq<EndpointModel>
    decreases found.len(),
{
    if found.len() == 0 {
        Seq::empty()
    } else {
        endpoints_of(found.drop_last(), file_path, shape).push(
            endpoint(
                file_path,
                group_or(found.last(), shape.url_group as int, Seq::empty()),
                method_of(found.last(), shape),
            ),
        )
    }
}

/// The endpoint calls one pattern finds in a text; none when the pattern is
/// rejected.
pub open spec fn pattern_endpoints(
    pattern: Seq<char>,
    file_path: Seq<char>,
    content: Seq<char>,
    shape: CallShape,
) -> Seq<EndpointModel> {
    match regex_captures(pattern, content) {
        Some(found) => endpoints_of(found, file_path, shape),
        None => Seq::empty(),
    }
}

/// The method a `fetch` call with options names: the text of the second
/// group as it stands, `GET` when the group took no part.
pub open spec fn fetch_method(groups: Seq<Option<Seq<char>>>) -> Seq<char> {
    group_or(groups, 2, "GET"@)
}

/// The endpoint calls of `fetch` calls that name their method.
pub open spec fn fetch_with_method_endpoints(
    found: Seq<Seq<Option<Seq<char>>>>,
    file_path: Seq<char>,
) -> Seq<EndpointModel>
    decreases found.len(),
{
    if found.len() == 0 {
        Seq::empty()
    } else {
        fetch_with_method_endpoints(found.drop_last(), file_path).push(
            endpoint(file_path, group_or(found.last(), 1, Seq::empty()), fetch_method(found.last())),
        )
    }
}

/// The HTTP calls of a text, pattern by pattern: `fetch` with a method,
/// every `fetch` as a `GET`, `axios.<verb>`, `requests.<verb>`, `http.Get`.
pub open spec fn http_calls(file_path: Seq<char>, content: Seq<char>) -> Seq<EndpointModel> {
    (match regex_captures(FETCH_CALL_WITH_METHOD@, content) {
        Some(found) => fetch_with_method_endpoints(found, file_path),
        None => Seq::empty(),
    }) + pattern_endpoints(
        FETCH_CALL@,
        file_path,
        content,
        CallShape { url_group: 1, verb_group: None, fixed_method: "GET" },
    ) + pattern_endpoints(
        AXIOS_CALL@,
        file_path,
        content,
        CallShape { url_group: 2, verb_group: Some(1), fixed_method: "get" },
    ) + pattern_endpoints(
        REQUESTS_CALL@,
        file_path,
        content,
        CallShape { url_group: 2, verb_group: Some(1), fixed_method: "get" },
    ) + pattern_endpoints(
        HTTP_GET_CALL@,
        file_path,
        content,
        CallShape { url_group: 1, verb_group: None, fixed_method: "GET" },
    )
}

/// The host a URL names.
pub fn extract_host(url: &str) -> (r: Option<String>)
    ensures
        r.deep_view() == host_of(url@),
{
    host_of_url(url)
}

/// An endpoint call with the host its URL names.
pub fn make_endpoint_call(file_path: &str, url: String, method: String) -> (call: EndpointCall)
    ensures
        call@ == endpoint(file_path@, url@, method@),
{
    let host = extract_host(url.as_str());
    EndpointCall { file_path: file_path.to_string(), url, method, host }
}

/// Appends `more` to `list`.
fn append_endpoints(list: &mut Vec<EndpointCall>, more: Vec<EndpointCall>)
    ensures
        final(list).deep_view() == old(list).deep_view() + more.deep_view(),
{
    let mut more = more;
    proof {
        lemma_deep_view_concat(list@, more@);
    }
    list.append(&mut more);
}

/// The endpoint calls one pattern finds in a text.
fn endpoints_by(pattern: &str, file_path: &str, content: &str, shape: CallShape) -> (out: Vec<
    EndpointCall,
>)
    ensures
        out.deep_view() == pattern_endpoints(pattern@, file_path@, content@, shape),
{
    let mut out: Vec<EndpointCall> = Vec::new();
    match captures_of(pattern, content) {
        Some(found) => {
            let ghost all = found.deep_view();
            let mut k: usize = 0;
            assert(out.deep_view() =~= endpoints_of(all.take(0), file_path@, shape));
            while k < found.len()
                invariant
                    k <= found@.len(),
                    all == found.deep_view(),
                    out.deep_view() == endpoints_of(all.take(k as int), file_path@, shape),
                decreases found@.len() - k,
            {
                proof {
                    assert(all.take(k + 1).drop_last() =~= all.take(k as int));
                    assert(all.take(k + 1).last() == found[k as int].deep_view());
                }
                let url = group_text(&found[k], shape.url_group, "");
                let method = match shape.verb_group {
                    Some(g) => {
                        let verb = group_text(&found[k], g, shape.fixed_method);
                        to_uppercase(verb.as_str())
                    },
                    None => shape.fixed_method.to_string(),
                };
                let call = make_endpoint_call(file_path, url, method);
                proof {
                    lemma_deep_view_push(out@, out@.push(call), call);
                    assert(""@ =~= Seq::<char>::empty()) by {
                        reveal_strlit("");
                    }
                }
                out.push(call);
                k += 1;
            }
            assert(all.take(k as int) =~= all);
        },
        None => {
            assert(out.deep_view() =~= Seq::empty());
        },
    }
    out
}

/// The endpoint calls of `fetch` calls that name their method.
fn fetch_calls_with_method(file_path: &str, content: &str) -> (out: Vec<EndpointCall>)
    ensures
        out.deep_view() == (match regex_captures(FETCH_CALL_WITH_METHOD@, content@) {
            Some(found) => fetch_with_method_endpoints(found, file_path@),
            None => Seq::empty(),
        }),
{
    let mut out: Vec<EndpointCall> = Vec::new();
    match captures_of(FETCH_CALL_WITH_METHOD, content) {
        Some(found) => {
            let ghost all = found.deep_view();
            let mut k: usize = 0;
            assert(out.deep_view() =~= fetch_with_method_endpoints(all.take(0), file_path@));
            while k < found.len()
                invariant
                    k <= found@.len(),
                    all == found.deep_view(),
                    out.deep_view() == fetch_with_method_endpoints(all.take(k as int), file_path@),
                decreases found@.len() - k,
            {
                proof {
                    assert(all.take(k + 1).drop_last() =~= all.take(k as int));
                    assert(all.take(k + 1).last() == found[k as int].deep_view());
                }
                let url = group_text(&found[k], 1, "");
                let method = group_text(&found[k], 2, "GET");
                let call = make_endpoint_call(file_path, url, method);
                proof {
                    lemma_deep_view_push(out@, out@.push(call), call);
                    assert(""@ =~= Seq::<char>::empty()) by {
                        reveal_strlit("");
                    }
                }
                out.push(call);
                k += 1;
            }
            assert(all.take(k as int) =~= all);
        },
        None => {
            assert(out.deep_view() =~= Seq::empty());
        },
    }
    out
}

/// The HTTP calls written into a source text.
pub fn extract_http_calls(file_path: &str, content: &str) -> (calls: Vec<EndpointCall>)
    ensures
        calls.deep_view() == http_calls(file_path@, content@),
{
    let mut calls = fetch_calls_with_method(file_path, content);
    append_endpoints(
        &mut calls,
        endpoints_by(
            FETCH_CALL,
            file_path,
            content,
            CallShape { url_group: 1, verb_group: None, fixed_method: "GET" },
        ),
    );
    append_endpoints(
        &mut calls,
        endpoints_by(
            AXIOS_CALL,
            file_path,
            content,
            CallShape { url_group: 2, verb_group: Some(1), fixed_method: "get" },
        ),
    );
    append_endpoints(
        &mut calls,
        endpoints_by(
            REQUESTS_CALL,
            file_path,
            content,
            CallShape { url_group: 2, verb_group: Some(1), fixed_method: "get" },
        ),
    );
    append_endpoints(
        &mut calls,
        endpoints_by(
            HTTP_GET_CALL,
            file_path,
            content,
            CallShape { url_group: 1, verb_group: None, fixed_method: "GET" },
        ),
    );
    calls
}


// ---------------------------------------------------------------------------
// RPC
// ---------------------------------------------------------------------------

pub const GRPC_DIAL: &'static str = r#"(?i)grpc\.Dial\(\s*\"([^\"]+)\""#;

pub const GRPC_JS_IMPORT: &'static str = r#"(?i)@grpc/grpc-js"#;

pub const PROTO_SERVICE: &'static str = r"(?i)\bservice\s+([A-Za-z0-9_]+)";

/// One RPC call per match, named by group 1; a match without the group
/// names the empty service.
pub open spec fn dialed(found: Seq<Seq<Option<Seq<char>>>>, file_path: Seq<char>) -> Seq<RpcModel>
    decreases found.len(),
{
    if found.len() == 0 {
        Seq::empty()
    } else {
        dialed(found.drop_last(), file_path).push(
            RpcModel { file_path, service_name: group_or(found.last(), 1, Seq::empty()) },
        )
    }
}

/// Whether a pattern matches somewhere in a text.
pub open spec fn pattern_matches(pattern: Seq<char>, content: Seq<char>) -> bool {
    match regex_captures(pattern, content) {
        Some(found) => found.len() > 0,
        None => false,
    }
}

/// The RPC uses of a text: one per `grpc.Dial("target")`, then one for
/// `grpc-js` if the text mentions `@grpc/grpc-js`.
pub open spec fn grpc_calls(file_path: Seq<char>, content: Seq<char>) -> Seq<RpcModel> {
    (match regex_captures(GRPC_DIAL@, content) {
        Some(found) => dialed(found, file_path),
        None => Seq::empty(),
    }) + (if pattern_matches(GRPC_JS_IMPORT@, content) {
        seq![RpcModel { file_path, service_name: "grpc-js"@ }]
    } else {
        Seq::empty()
    })
}

/// The RPC uses written into a source text.
pub fn extract_grpc_calls(file_path: &str, content: &str) -> (calls: Vec<RpcCall>)
    ensures
        calls.deep_view() == grpc_calls(file_path@, content@),
{
    let mut calls: Vec<RpcCall> = Vec::new();
    match captures_of(GRPC_DIAL, content) {
        Some(found) => {
            let ghost all = found.deep_view();
            let mut k: usize = 0;
            assert(calls.deep_view() =~= dialed(all.take(0), file_path@));
            while k < found.len()
                invariant
                    k <= found@.len(),
                    all == found.deep_view(),
                    calls.deep_view() == dialed(all.take(k as int), file_path@),
                decreases found@.len() - k,
            {
                proof {
                    assert(all.take(k + 1).drop_last() =~= all.take(k as int));
                    assert(all.take(k + 1).last() == found[k as int].deep_view());
                    assert(""@ =~= Seq::<char>::empty()) by {
                        reveal_strlit("");
                    }
                }
                let call = RpcCall {
                    file_path: file_path.to_string(),
                    service_name: group_text(&found[k], 1, ""),
                };
                proof {
                    lemma_deep_view_push(calls@, calls@.push(call), call);
                }
                calls.push(call);
                k += 1;
            }
            assert(all.take(k as int) =~= all);
        },
        None => {
            assert(calls.deep_view() =~= Seq::empty());
        },
    }
    let ghost dials = calls.deep_view();
    let mentioned = match captures_of(GRPC_JS_IMPORT, content) {
        Some(found) => found.len() > 0,
        None => false,
    };
    if mentioned {
        let call = RpcCall { file_path: file_path.to_string(), service_name: "grpc-js".to_string() };
        proof {
            lemma_deep_view_push(calls@, calls@.push(call), call);
            assert(dials.push(call@) =~= dials + seq![call@]);
        }
        calls.push(call);
    } else {
        assert(dials + Seq::<RpcModel>::empty() =~= dials);
    }
    calls
}

/// Whether the file at a path holds interface definitions, going by its
/// extension in any case of letters.
pub fn is_interface_definition(path: &str) -> (r: bool)
    ensures
        r == (match crate::text::extension_of(path@) {
            Some(ext) => crate::text::lowercase(ext) == "proto"@,
            None => false,
        }),
{
    match crate::text::extension(path) {
        Some(ext) => crate::text::str_eq(crate::text::to_lowercase(ext.as_str()).as_str(), "proto"),
        None => false,
    }
}

/// The service names declared in the given texts, text by text.
pub open spec fn declared_services(texts: Seq<Seq<char>>) -> Seq<Seq<char>>
    decreases texts.len(),
{
    if texts.len() == 0 {
        Seq::empty()
    } else {
        declared_services(texts.drop_last()) + pattern_hits(PROTO_SERVICE@, texts.last(), 1)
    }
}

/// The names of the services that the given interface-definition texts
/// declare with `service <Name>`. Fails when the pattern for declarations
/// is rejected.
pub fn extract_proto_services(proto_texts: &[String]) -> (r: Result<Vec<String>, CommunicationError>)
    ensures
        match r {
            Ok(names) => regex_captures(PROTO_SERVICE@, Seq::empty()) is Some && names.deep_view()
                == declared_services(proto_texts.deep_view()),
            Err(_) => regex_captures(PROTO_SERVICE@, Seq::empty()) is None,
        },
{
    proof {
        assert(""@ =~= Seq::<char>::empty()) by {
            reveal_strlit("");
        }
    }
    if captures_of(PROTO_SERVICE, "").is_none() {
        return Err(CommunicationError::ProtoPattern);
    }
    let mut names: Vec<String> = Vec::new();
    let ghost all = proto_texts.deep_view();
    let mut i: usize = 0;
    assert(names.deep_view() =~= declared_services(all.take(0)));
    while i < proto_texts.len()
        invariant
            i <= proto_texts@.len(),
            all == proto_texts.deep_view(),
            names.deep_view() == declared_services(all.take(i as int)),
        decreases proto_texts@.len() - i,
    {
        proof {
            assert(all.take(i + 1).drop_last() =~= all.take(i as int));
            assert(all.take(i + 1).last() == proto_texts[i as int]@);
        }
        crate::parsers::common::append_strings(
            &mut names,
            hits(PROTO_SERVICE, proto_texts[i].as_str(), 1),
        );
        i += 1;
    }
    assert(all.take(i as int) =~= all);
    Ok(names)
}

// ---------------------------------------------------------------------------
// Queues
// ---------------------------------------------------------------------------

pub const QUEUE_PUBLISH: &'static str =
    r#"(?i)(producer\.send|kafka\.publish|channel\.publish)\([^\)]*['\"]([A-Za-z0-9_.-]+)['\"]"#;

pub const QUEUE_SUBSCRIBE: &'static str =
    r#"(?i)(consumer\.subscribe|kafka\.subscribe)\([^\)]*['\"]([A-Za-z0-9_.-]+)['\"]"#;

/// One queue use per match, with the topic of group 2.
pub open spec fn queue_uses(
    found: Seq<Seq<Option<Seq<char>>>>,
    file_path: Seq<char>,
    direction: QueueDirection,
) -> Seq<QueueModel>
    decreases found.len(),
{
    if found.len() == 0 {
        Seq::empty()
    } else {
        queue_uses(found.drop_last(), file_path, direction).push(
            QueueModel { file_path, topic: group_or(found.last(), 2, Seq::empty()), direction },
        )
    }
}

/// The queue uses one pattern finds in a text.
pub open spec fn pattern_queues(
    pattern: Seq<char>,
    file_path: Seq<char>,
    content: Seq<char>,
    direction: QueueDirection,
) -> Seq<QueueModel> {
    match regex_captures(pattern, content) {
        Some(found) => queue_uses(found, file_path, direction),
        None => Seq::empty(),
    }
}

/// The queue uses of a text: what it publishes, then what it consumes.
pub open spec fn queue_calls(file_path: Seq<char>, content: Seq<char>) -> Seq<QueueModel> {
    pattern_queues(QUEUE_PUBLISH@, file_path, content, QueueDirection::Publish) + pattern_queues(
        QUEUE_SUBSCRIBE@,
        file_path,
        content,
        QueueDirection::Consume,
    )
}

fn queues_by(pattern: &str, file_path: &str, content: &str, direction: QueueDirection) -> (out: Vec<
    QueueUsage,
>)
    ensures
        out.deep_view() == pattern_queues(pattern@, file_path@, content@, direction),
{
    let mut out: Vec<QueueUsage> = Vec::new();
    match captures_of(pattern, content) {
        Some(found) => {
            let ghost all = found.deep_view();
            let mut k: usize = 0;
            assert(out.deep_view() =~= queue_uses(all.take(0), file_path@, direction));
            while k < found.len()
                invariant
                    k <= found@.len(),
                    all == found.deep_view(),
                    out.deep_view() == queue_uses(all.take(k as int), file_path@, direction),
                decreases found@.len() - k,
            {
                proof {
                    assert(all.take(k + 1).drop_last() =~= all.take(k as int));
                    assert(all.take(k + 1).last() == found[k as int].deep_view());
                    assert(""@ =~= Seq::<char>::empty()) by {
                        reveal_strlit("");
                    }
                }
                let usage = QueueUsage {
                    file_path: file_path.to_string(),
                    topic: group_text(&found[k], 2, ""),
                    direction,
                };
                proof {
                    lemma_deep_view_push(out@, out@.push(usage), usage);
                }
                out.push(usage);
                k += 1;
            }
            assert(all.take(k as int) =~= all);
        },
        None => {
            assert(out.deep_view() =~= Seq::empty());
        },
    }
    out
}

/// The queue uses written into a source text.
pub fn extract_queue_calls(file_path: &str, content: &str) -> (queues: Vec<QueueUsage>)
    ensures
        queues.deep_view() == queue_calls(file_path@, content@),
{
    let mut queues = queues_by(QUEUE_PUBLISH, file_path, content, QueueDirection::Publish);
    let mut consumed = queues_by(QUEUE_SUBSCRIBE, file_path, content, QueueDirection::Consume);
    proof {
        lemma_deep_view_concat(queues@, consumed@);
    }
    queues.append(&mut consumed);
    queues
}

// ---------------------------------------------------------------------------
// Compose services
// ---------------------------------------------------------------------------

/// Where a scan of a compose file stands.
pub struct ComposeScan {
    /// A `services:` line has been seen.
    pub in_services: bool,
    /// The scan is below a `ports:` key.
    pub in_ports: bool,
    /// The service being read.
    pub current: Option<ComposeModel>,
    /// The services read.
    pub done: Seq<ComposeModel>,
}

/// Whether a text begins with the character.
pub open spec fn begins_with(text: Seq<char>, c: char) -> bool {
    text.len() > 0 && text[0] == c
}

/// Whether a text ends with the character.
pub open spec fn finishes_with(text: Seq<char>, c: char) -> bool {
    text.len() > 0 && text.last() == c
}

/// The port a list item names: the item without its dashes, surrounding
/// whitespace and double quotes.
pub open spec fn port_of(item: Seq<char>) -> Seq<char> {
    without_surrounding(trimmed(without_leading(item, CharClass::Is('-'))), CharClass::Is('"'))
}

/// The services read so far with the one being read, if any, at the end.
pub open spec fn closed(scan: ComposeScan) -> Seq<ComposeModel> {
    match scan.current {
        Some(service) => scan.done.push(service),
        None => scan.done,
    }
}

/// Reads one line of a compose file.
///
/// A line that starts with `services:` opens the list of services. Within
/// it, a line at indent 2 that ends with `:` and is no list item opens a
/// service of that name; a line at indent 4 or more that starts with
/// `ports:` opens its ports; below that, a list item at indent 6 or more
/// adds a port unless it is empty.
pub open spec fn compose_step(scan: ComposeScan, line: Seq<char>) -> ComposeScan {
    let text = trimmed(line);
    let indent = leading_count(line, CharClass::Is(' '));
    if has_prefix(text, "services:"@) {
        ComposeScan { in_services: true, ..scan }
    } else if !scan.in_services {
        scan
    } else if indent == 2 && finishes_with(text, ':') && !begins_with(text, '-') {
        ComposeScan {
            in_services: true,
            in_ports: false,
            current: Some(
                ComposeModel {
                    name: without_trailing(text, CharClass::Is(':')),
                    ports: Seq::empty(),
                },
            ),
            done: closed(scan),
        }
    } else if indent >= 4 && has_prefix(text, "ports:"@) {
        ComposeScan { in_ports: true, ..scan }
    } else if scan.in_ports && indent >= 6 && begins_with(text, '-') {
        match scan.current {
            Some(service) => if port_of(text).len() > 0 {
                ComposeScan {
                    current: Some(
                        ComposeModel { name: service.name, ports: service.ports.push(port_of(text)) },
                    ),
                    ..scan
                }
            } else {
                scan
            },
            None => scan,
        }
    } else {
        scan
    }
}

/// Where a scan stands after the given lines.
pub open spec fn compose_scan(lines: Seq<Seq<char>>) -> ComposeScan
    decreases lines.len(),
{
    if lines.len() == 0 {
        ComposeScan { in_services: false, in_ports: false, current: None, done: Seq::empty() }
    } else {
        compose_step(compose_scan(lines.drop_last()), lines.last())
    }
}

/// The services a compose file declares, with their ports.
pub open spec fn compose_services(content: Seq<char>) -> Seq<ComposeModel> {
    closed(compose_scan(lines_of(content)))
}

/// The services a compose file declares, with their ports.
pub fn parse_docker_compose(content: &str) -> (services: Vec<ComposeService>)
    ensures
        services.deep_view() == compose_services(content@),
{
    let text = chars_of(content);
    let lines = split_lines(&text);
    let ghost all = lines.deep_view();
    let mut services: Vec<ComposeService> = Vec::new();
    let mut in_services = false;
    let mut in_ports = false;
    let mut current: Option<ComposeService> = None;
    let services_key = chars_of("services:");
    let ports_key = chars_of("ports:");
    let mut i: usize = 0;
    assert(services.deep_view() =~= Seq::empty());
    while i < lines.len()
        invariant
            i <= lines@.len(),
            all == lines.deep_view(),
            services_key@ == "services:"@,
            ports_key@ == "ports:"@,
            compose_scan(all.take(i as int)) == (ComposeScan {
                in_services,
                in_ports,
                current: current.deep_view(),
                done: services.deep_view(),
            }),
        decreases lines@.len() - i,
    {
        proof {
            assert(all.take(i + 1).drop_last() =~= all.take(i as int));
            assert(all.take(i + 1).last() == lines[i as int]@);
            assert(lines[i as int].deep_view() =~= lines[i as int]@);
        }
        let line = &lines[i];
        let trimmed_line = trim(line, CharClass::Space);
        let indent = count_leading(line, CharClass::Is(' '));
        let n = trimmed_line.len();
        if starts_with(&trimmed_line, &services_key) {
            in_services = true;
        } else if !in_services {
        } else if indent == 2 && n > 0 && trimmed_line[n - 1] == ':' && trimmed_line[0] != '-' {
            let name = string_of(trim_end(&trimmed_line, CharClass::Is(':')));
            let opened = ComposeService { name, ports: Vec::new() };
            assert(opened.ports.deep_view() =~= Seq::empty());
            match current {
                Some(service) => {
                    proof {
                        lemma_deep_view_push(services@, services@.push(service), service);
                    }
                    services.push(service);
                },
                None => {},
            }
            current = Some(opened);
            in_ports = false;
        } else if indent >= 4 && starts_with(&trimmed_line, &ports_key) {
            in_ports = true;
        } else if in_ports && indent >= 6 && n > 0 && trimmed_line[0] == '-' {
            match current {
                Some(service) => {
                    let item = trim_start(&trimmed_line, CharClass::Is('-'));
                    let port = trim(&trim(&item, CharClass::Space), CharClass::Is('"'));
                    if port.len() > 0 {
                        let mut service = service;
                        let port = string_of(port);
                        proof {
                            lemma_deep_view_push(service.ports@, service.ports@.push(port), port);
                        }
                        service.ports.push(port);
                        current = Some(service);
                    } else {
                        current = Some(service);
                    }
                },
                None => {
                    current = None;
                },
            }
        }
        i += 1;
    }
    assert(all.take(i as int) =~= all);
    match current {
        Some(service) => {
            proof {
                lemma_deep_view_push(services@, services@.push(service), service);
            }
            services.push(service);
        },
        None => {},
    }
    services
}


// ---------------------------------------------------------------------------
// The whole scan
// ---------------------------------------------------------------------------

/// The HTTP calls of the given sources, source by source.
pub open spec fn all_http_calls(sources: Seq<(Seq<char>, Seq<char>)>) -> Seq<EndpointModel>
    decreases sources.len(),
{
    if sources.len() == 0 {
        Seq::empty()
    } else {
        all_http_calls(sources.drop_last()) + http_calls(sources.last().0, sources.last().1)
    }
}

/// The RPC uses of the given sources, source by source.
pub open spec fn all_grpc_calls(sources: Seq<(Seq<char>, Seq<char>)>) -> Seq<RpcModel>
    decreases sources.len(),
{
    if sources.len() == 0 {
        Seq::empty()
    } else {
        all_grpc_calls(sources.drop_last()) + grpc_calls(sources.last().0, sources.last().1)
    }
}

/// The queue uses of the given sources, source by source.
pub open spec fn all_queue_calls(sources: Seq<(Seq<char>, Seq<char>)>) -> Seq<QueueModel>
    decreases sources.len(),
{
    if sources.len() == 0 {
        Seq::empty()
    } else {
        all_queue_calls(sources.drop_last()) + queue_calls(sources.last().0, sources.last().1)
    }
}

/// The declared services as RPC uses of the pseudo-file `proto`.
pub open spec fn proto_rpcs(names: Seq<Seq<char>>) -> Seq<RpcModel> {
    Seq::new(names.len(), |i: int| RpcModel { file_path: "proto"@, service_name: names[i] })
}

impl View for SourceText {
    type V = (Seq<char>, Seq<char>);

    open spec fn view(&self) -> (Seq<char>, Seq<char>) {
        (self.path@, self.content@)
    }
}

impl DeepView for SourceText {
    type V = (Seq<char>, Seq<char>);

    open spec fn deep_view(&self) -> (Seq<char>, Seq<char>) {
        self@
    }
}

impl CommunicationDetector {
    /// Scans a repository for communication artifacts: the given source
    /// texts for HTTP, RPC and queue uses, the interface-definition texts
    /// for declared services, and the compose file, if there is one, for
    /// services.
    pub fn detect(sources: &[SourceText], proto_texts: &[String], compose: Option<&str>) -> (r: Result<
        CommunicationAnalysis,
        CommunicationError,
    >)
        ensures
            match r {
                Ok(found) => {
                    &&& regex_captures(PROTO_SERVICE@, Seq::empty()) is Some
                    &&& found.endpoints.deep_view() == all_http_calls(sources.deep_view())
                    &&& found.rpc_services.deep_view() == all_grpc_calls(sources.deep_view())
                        + proto_rpcs(declared_services(proto_texts.deep_view()))
                    &&& found.queues.deep_view() == all_queue_calls(sources.deep_view())
                    &&& found.compose_services.deep_view() == match compose {
                        Some(text) => compose_services(text@),
                        None => Seq::empty(),
                    }
                },
                Err(_) => regex_captures(PROTO_SERVICE@, Seq::empty()) is None,
            },
    {
        let mut endpoints: Vec<EndpointCall> = Vec::new();
        let mut rpc_services: Vec<RpcCall> = Vec::new();
        let mut queues: Vec<QueueUsage> = Vec::new();
        let ghost all = sources.deep_view();
        let mut i: usize = 0;
        assert(endpoints.deep_view() =~= all_http_calls(all.take(0)));
        assert(rpc_services.deep_view() =~= all_grpc_calls(all.take(0)));
        assert(queues.deep_view() =~= all_queue_calls(all.take(0)));
        while i < sources.len()
            invariant
                i <= sources@.len(),
                all == sources.deep_view(),
                endpoints.deep_view() == all_http_calls(all.take(i as int)),
                rpc_services.deep_view() == all_grpc_calls(all.take(i as int)),
                queues.deep_view() == all_queue_calls(all.take(i as int)),
            decreases sources@.len() - i,
        {
            proof {
                assert(all.take(i + 1).drop_last() =~= all.take(i as int));
                assert(all.take(i + 1).last() == sources[i as int]@);
            }
            let path = sources[i].path.as_str();
            let content = sources[i].content.as_str();
            append_endpoints(&mut endpoints, extract_http_calls(path, content));
            let mut rpcs = extract_grpc_calls(path, content);
            let mut used = extract_queue_calls(path, content);
            proof {
                lemma_deep_view_concat(rpc_services@, rpcs@);
                lemma_deep_view_concat(queues@, used@);
            }
            rpc_services.append(&mut rpcs);
            queues.append(&mut used);
            i += 1;
        }
        assert(all.take(i as int) =~= all);

        let declared = match extract_proto_services(proto_texts) {
            Ok(names) => names,
            Err(e) => {
                return Err(e);
            },
        };
        let ghost names = declared.deep_view();
        let ghost dialed_rpcs = rpc_services.deep_view();
        let mut k: usize = 0;
        assert(dialed_rpcs + proto_rpcs(names.take(0)) =~= dialed_rpcs);
        while k < declared.len()
            invariant
                k <= declared@.len(),
                names == declared.deep_view(),
                rpc_services.deep_view() == dialed_rpcs + proto_rpcs(names.take(k as int)),
            decreases declared@.len() - k,
        {
            let call = RpcCall { file_path: "proto".to_string(), service_name: declared[k].clone() };
            proof {
                lemma_deep_view_push(rpc_services@, rpc_services@.push(call), call);
                assert((dialed_rpcs + proto_rpcs(names.take(k as int))).push(call@) =~= dialed_rpcs
                    + proto_rpcs(names.take(k + 1)));
            }
            rpc_services.push(call);
            k += 1;
        }
        assert(names.take(k as int) =~= names);

        let compose_services = match compose {
            Some(text) => parse_docker_compose(text),
            None => Vec::new(),
        };
        assert(compose is None ==> compose_services.deep_view() =~= Seq::empty());
        Ok(CommunicationAnalysis { endpoints, rpc_services, queues, compose_services })
    }
}

} // verus!
