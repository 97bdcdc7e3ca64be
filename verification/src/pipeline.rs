//! The pipeline of one analysis job: what to parse, how to read the job's
//! options, the summary it reports, and the order of its stages.

use vstd::prelude::*;
use crate::communication_detector::SourceText;
use crate::git_analyzer::{add_capped, capped_sum};
use crate::graph_builder::{DependencyGraph, Edge, EdgeModel, GraphModel, GraphStats, NodeId, NodeKey};
use crate::json::{json_string_list, string_list};
use crate::parsers::common::{dedup, ParseError};
use crate::parsers::go_parser::GoParser;
use crate::parsers::javascript::JavaScriptParser;
use crate::parsers::python_parser::PythonParser;
use crate::parsers::rust_parser::RustParser;
use crate::parsers::typescript::TypeScriptParser;
use crate::parsers::{ClassModel, FunctionModel, LanguageParser, ParsedFile, ParsedFileModel};
pub use crate::parsers::SourceLanguage;
use crate::parsers::outline::parsed;
use crate::storage_edges::{node_id_text, node_qualified_id};
use crate::text::{chars_of, join2, join3, count_char, distinct, extension, extension_of, lowercase, occurrences, replace_char, split_char, split_on, str_eq, string_of, to_lowercase, with_replaced};
use crate::boundary_detector::{
    all_boundaries, BoundaryDetectionResult, BoundaryDetector, WorkspaceManifests,
};
use crate::communication_detector::{
    all_grpc_calls, all_http_calls, all_queue_calls, compose_services, declared_services,
    proto_rpcs, CommunicationAnalysis, CommunicationDetector, PROTO_SERVICE,
};
use crate::patterns::regex_captures;
use crate::dependency_metadata::{LibraryDependency, LibraryModel};
use crate::git_analyzer::RepoContributions;
use crate::graph_builder::{counts, graph_of, SymbolTable};
use crate::manifests::{
    by_name, collect_library_dependencies, declared_libraries, ManifestFile,
};
use crate::neo4j_storage::{delete_paths, delete_plan, metrics_of_history, store_graph, store_graph_incremental, upsert_plan, Statement, StatementModel};
use crate::views::{lemma_deep_view_concat, lemma_deep_view_push};

verus! {

// ---------------------------------------------------------------------------
// What to parse
// ---------------------------------------------------------------------------

/// The language of an extension in lower case.
pub open spec fn language_for(extension: Seq<char>) -> Option<SourceLanguage> {
    if extension == "js"@ || extension == "jsx"@ || extension == "mjs"@ {
        Some(SourceLanguage::JavaScript)
    } else if extension == "ts"@ || extension == "tsx"@ {
        Some(SourceLanguage::TypeScript)
    } else if extension == "rs"@ {
        Some(SourceLanguage::Rust)
    } else if extension == "go"@ {
        Some(SourceLanguage::Go)
    } else if extension == "py"@ {
        Some(SourceLanguage::Python)
    } else {
        None
    }
}

/// The language of the file at a path, by its extension in any case of
/// letters.
pub open spec fn language_of(path: Seq<char>) -> Option<SourceLanguage> {
    match extension_of(path) {
        Some(ext) => language_for(lowercase(ext)),
        None => None,
    }
}

/// The language of the file at a path, if the worker parses it.
pub fn language_of_path(path: &str) -> (r: Option<SourceLanguage>)
    ensures
        r == language_of(path@),
{
    match extension(path) {
        Some(ext) => {
            let lower = to_lowercase(ext.as_str());
            let e = lower.as_str();
            if str_eq(e, "js") || str_eq(e, "jsx") || str_eq(e, "mjs") {
                Some(SourceLanguage::JavaScript)
            } else if str_eq(e, "ts") || str_eq(e, "tsx") {
                Some(SourceLanguage::TypeScript)
            } else if str_eq(e, "rs") {
                Some(SourceLanguage::Rust)
            } else if str_eq(e, "go") {
                Some(SourceLanguage::Go)
            } else if str_eq(e, "py") {
                Some(SourceLanguage::Python)
            } else {
                None
            }
        },
        None => None,
    }
}

/// A path with forward slashes in place of backslashes.
pub open spec fn with_forward_slashes(path: Seq<char>) -> Seq<char> {
    with_replaced(path, '\\', '/')
}

/// A path with forward slashes in place of backslashes.
pub fn normalize_separators(path: &str) -> (r: String)
    ensures
        r@ == with_forward_slashes(path@),
{
    string_of(replace_char(&chars_of(path), '\\', '/'))
}

/// Parses a text with the parser of the language.
pub fn parse_source(language: SourceLanguage, relative_path: &str, content: &str) -> (r: Result<
    ParsedFile,
    ParseError,
>)
    ensures
        match r {
            Ok(file) => parsed(language, relative_path@, content@) == Ok::<ParsedFileModel, ParseError>(
                file@,
            ),
            Err(e) => parsed(language, relative_path@, content@) == Err::<ParsedFileModel, ParseError>(
                e,
            ),
        },
{
    match language {
        SourceLanguage::JavaScript => JavaScriptParser.parse_file(relative_path, content),
        SourceLanguage::TypeScript => TypeScriptParser.parse_file(relative_path, content),
        SourceLanguage::Rust => RustParser.parse_file(relative_path, content),
        SourceLanguage::Go => GoParser.parse_file(relative_path, content),
        SourceLanguage::Python => PythonParser.parse_file(relative_path, content),
    }
}

/// What became of a source: it is in no language the worker parses, its
/// parser made a summary of it, or its parser failed on it.
#[derive(Debug)]
pub enum Attempt {
    PassedOver,
    Parsed(ParsedFile),
    Failed(ParseError),
}

/// Mathematical value of an [`Attempt`].
pub enum AttemptModel {
    PassedOver,
    Parsed(ParsedFileModel),
    Failed(ParseError),
}

impl View for Attempt {
    type V = AttemptModel;

    open spec fn view(&self) -> AttemptModel {
        match *self {
            Attempt::PassedOver => AttemptModel::PassedOver,
            Attempt::Parsed(file) => AttemptModel::Parsed(file@),
            Attempt::Failed(e) => AttemptModel::Failed(e),
        }
    }
}

/// What becomes of the source at `path` with the text `content`: a source
/// in no language the worker parses is passed over; one in a language is
/// parsed by the parser of that language, or fails as that parser fails.
pub open spec fn attempt_of(path: Seq<char>, content: Seq<char>) -> AttemptModel {
    match language_of(path) {
        None => AttemptModel::PassedOver,
        Some(language) => match parsed(language, path, content) {
            Ok(file) => AttemptModel::Parsed(file),
            Err(e) => AttemptModel::Failed(e),
        },
    }
}

/// What becomes of the sources, one by one.
pub open spec fn attempts_of(sources: Seq<(Seq<char>, Seq<char>)>) -> Seq<AttemptModel> {
    Seq::new(sources.len(), |i: int| attempt_of(sources[i].0, sources[i].1))
}

/// The summaries among the attempts, in order.
pub open spec fn parsed_among(attempts: Seq<AttemptModel>) -> Seq<ParsedFileModel>
    decreases attempts.len(),
{
    if attempts.len() == 0 {
        Seq::empty()
    } else {
        match attempts.last() {
            AttemptModel::Parsed(file) => parsed_among(attempts.drop_last()).push(file),
            _ => parsed_among(attempts.drop_last()),
        }
    }
}

/// Attempts to parse a source with the parser that the extension of its
/// path chooses.
pub fn attempt(source: &SourceText) -> (r: Attempt)
    ensures
        r@ == attempt_of(source.path@, source.content@),
{
    match language_of_path(source.path.as_str()) {
        Some(language) => match parse_source(language, source.path.as_str(), source.content.as_str()) {
            Ok(file) => Attempt::Parsed(file),
            Err(e) => Attempt::Failed(e),
        },
        None => Attempt::PassedOver,
    }
}

/// Appends the summary of an attempt to the files, if it has one, and says
/// whether the attempt failed.
pub fn keep(files: &mut Vec<ParsedFile>, attempt: Attempt) -> (failure: Option<ParseError>)
    ensures
        final(files).deep_view() == match attempt@ {
            AttemptModel::Parsed(file) => old(files).deep_view().push(file),
            _ => old(files).deep_view(),
        },
        failure == match attempt@ {
            AttemptModel::Failed(e) => Some(e),
            _ => None,
        },
{
    match attempt {
        Attempt::Parsed(file) => {
            proof {
                lemma_deep_view_push(files@, files@.push(file), file);
            }
            files.push(file);
            None
        },
        Attempt::Failed(e) => Some(e),
        Attempt::PassedOver => None,
    }
}

/// Parses the sources of a repository: the summaries of the sources that
/// parse, in the order of the sources. A source in a language the worker
/// does not parse is passed over, and so is one its parser fails on.
pub fn parse_repository(sources: &[SourceText]) -> (files: Vec<ParsedFile>)
    ensures
        files.deep_view() == parsed_among(attempts_of(sources.deep_view())),
{
    let mut files: Vec<ParsedFile> = Vec::new();
    let ghost all = attempts_of(sources.deep_view());
    let mut i: usize = 0;
    assert(files.deep_view() =~= parsed_among(all.take(0)));
    while i < sources.len()
        invariant
            i <= sources@.len(),
            all == attempts_of(sources.deep_view()),
            files.deep_view() == parsed_among(all.take(i as int)),
        decreases sources@.len() - i,
    {
        let tried = attempt(&sources[i]);
        proof {
            assert(all.take(i + 1).drop_last() =~= all.take(i as int));
            assert(sources.deep_view()[i as int] == sources@[i as int]@);
            assert(all.take(i + 1).last() == tried@);
        }
        let _ = keep(&mut files, tried);
        i += 1;
    }
    assert(all.take(i as int) =~= all);
    files
}

/// Parses the changed files of a repository, as `parse_repository` parses
/// all of them: a source in a language the worker does not parse is passed
/// over, and so is one its parser fails on; the others are still returned.
pub fn parse_repository_subset(sources: &[SourceText]) -> (files: Vec<ParsedFile>)
    ensures
        files.deep_view() == parsed_among(attempts_of(sources.deep_view())),
{
    parse_repository(sources)
}


// ---------------------------------------------------------------------------
// Job options
// ---------------------------------------------------------------------------

/// The options a job may carry, each as the text the queue holds.
#[derive(Debug)]
pub struct JobOptions {
    pub git_token: Option<String>,
    /// A JSON array of paths.
    pub changed_files: Option<String>,
    /// A JSON array of paths.
    pub removed_files: Option<String>,
    /// `true` or `false`.
    pub incremental: Option<String>,
}

/// The paths an option names: the elements of the JSON array it holds, none
/// when the option is missing or holds something else.
pub open spec fn paths_in(option: Option<Seq<char>>) -> Seq<Seq<char>> {
    match option {
        Some(raw) => match json_string_list(raw) {
            Some(paths) => paths,
            None => Seq::empty(),
        },
        None => Seq::empty(),
    }
}

/// The paths an option names.
fn listed_paths(option: &Option<String>) -> (paths: Vec<String>)
    ensures
        paths.deep_view() == paths_in(option.deep_view()),
{
    let none: Vec<String> = Vec::new();
    assert(none.deep_view() =~= Seq::empty());
    match option {
        Some(raw) => match string_list(raw.as_str()) {
            Some(paths) => paths,
            None => none,
        },
        None => none,
    }
}

/// The changed and the removed files a webhook names in the options of a
/// job.
pub fn extract_webhook_changes(options: &Option<JobOptions>) -> (r: (Vec<String>, Vec<String>))
    ensures
        r.0.deep_view() == (match options {
            Some(o) => paths_in(o.changed_files.deep_view()),
            None => Seq::empty(),
        }),
        r.1.deep_view() == (match options {
            Some(o) => paths_in(o.removed_files.deep_view()),
            None => Seq::empty(),
        }),
{
    match options {
        Some(o) => (listed_paths(&o.changed_files), listed_paths(&o.removed_files)),
        None => {
            let changed: Vec<String> = Vec::new();
            let removed: Vec<String> = Vec::new();
            assert(changed.deep_view() =~= Seq::empty());
            assert(removed.deep_view() =~= Seq::empty());
            (changed, removed)
        },
    }
}

/// Whether a job asks for the incremental mode by its flag.
pub open spec fn flagged_incremental(options: Option<JobOptions>) -> bool {
    match options {
        Some(o) => match o.incremental {
            Some(flag) => flag@ == "true"@,
            None => false,
        },
        None => false,
    }
}

/// Whether a job runs in incremental mode: its flag says so, or it names a
/// changed or a removed file.
pub fn is_incremental(options: &Option<JobOptions>, changed_files: &Vec<String>, removed_files: &Vec<String>) -> (r:
    bool)
    ensures
        r == (flagged_incremental(*options) || changed_files@.len() > 0 || removed_files@.len() > 0),
{
    let flag = match options {
        Some(o) => match &o.incremental {
            Some(value) => str_eq(value.as_str(), "true"),
            None => false,
        },
        None => false,
    };
    flag || changed_files.len() > 0 || removed_files.len() > 0
}

// ---------------------------------------------------------------------------
// Graph patch
// ---------------------------------------------------------------------------

/// A node of a graph patch.
#[derive(Debug)]
pub struct PatchNode {
    pub id: String,
    pub label: String,
    pub node_type: String,
    pub parent_id: Option<String>,
    pub extension: Option<String>,
    pub language: Option<String>,
    pub depth: usize,
    pub file_path: Option<String>,
    pub line_number: Option<usize>,
    pub end_line_number: Option<usize>,
}

/// Mathematical value of a [`PatchNode`].
pub struct PatchNodeModel {
    pub id: Seq<char>,
    pub label: Seq<char>,
    pub node_type: Seq<char>,
    pub parent_id: Option<Seq<char>>,
    pub extension: Option<Seq<char>>,
    pub language: Option<Seq<char>>,
    pub depth: usize,
    pub file_path: Option<Seq<char>>,
    pub line_number: Option<usize>,
    pub end_line_number: Option<usize>,
}

impl View for PatchNode {
    type V = PatchNodeModel;

    open spec fn view(&self) -> PatchNodeModel {
        PatchNodeModel {
            id: self.id@,
            label: self.label@,
            node_type: self.node_type@,
            parent_id: self.parent_id.deep_view(),
            extension: self.extension.deep_view(),
            language: self.language.deep_view(),
            depth: self.depth,
            file_path: self.file_path.deep_view(),
            line_number: self.line_number,
            end_line_number: self.end_line_number,
        }
    }
}

impl DeepView for PatchNode {
    type V = PatchNodeModel;

    open spec fn deep_view(&self) -> PatchNodeModel {
        self@
    }
}

/// An edge of a graph patch.
#[derive(Debug)]
pub struct PatchEdge {
    pub id: String,
    pub source: String,
    pub target: String,
    pub edge_type: String,
}

/// Mathematical value of a [`PatchEdge`].
pub struct PatchEdgeModel {
    pub id: Seq<char>,
    pub source: Seq<char>,
    pub target: Seq<char>,
    pub edge_type: Seq<char>,
}

impl View for PatchEdge {
    type V = PatchEdgeModel;

    open spec fn view(&self) -> PatchEdgeModel {
        PatchEdgeModel {
            id: self.id@,
            source: self.source@,
            target: self.target@,
            edge_type: self.edge_type@,
        }
    }
}

impl DeepView for PatchEdge {
    type V = PatchEdgeModel;

    open spec fn deep_view(&self) -> PatchEdgeModel {
        self@
    }
}

/// What an incremental job touched.
#[derive(Debug)]
pub struct GraphPatch {
    pub changed_files: Vec<String>,
    pub removed_files: Vec<String>,
    pub nodes: Vec<PatchNode>,
    pub edges: Vec<PatchEdge>,
}

/// The patch node of a file: it is labelled by the last piece of its path
/// and lies as deep as its path has slashes.
pub open spec fn file_patch_node(file: ParsedFileModel) -> PatchNodeModel {
    PatchNodeModel {
        id: file.path,
        label: split_on(file.path, '/').last(),
        node_type: "file"@,
        parent_id: None,
        extension: extension_of(file.path),
        language: Some(file.language),
        depth: occurrences(file.path, '/') as usize,
        file_path: Some(file.path),
        line_number: None,
        end_line_number: None,
    }
}

/// The patch node of a class, one level below its file.
pub open spec fn class_patch_node(file: ParsedFileModel, class: ClassModel) -> PatchNodeModel {
    PatchNodeModel {
        id: file.path + "::"@ + class.name,
        label: class.name,
        node_type: "class"@,
        parent_id: Some(file.path),
        extension: None,
        language: Some(file.language),
        depth: capped_sum(occurrences(file.path, '/') as usize, 1),
        file_path: Some(file.path),
        line_number: Some(class.start_line),
        end_line_number: Some(class.end_line),
    }
}

/// The patch node of a top-level function, two levels below its file.
pub open spec fn function_patch_node(file: ParsedFileModel, function: FunctionModel) -> PatchNodeModel {
    PatchNodeModel {
        id: file.path + "::"@ + function.name,
        label: function.name,
        node_type: "function"@,
        parent_id: Some(file.path),
        extension: None,
        language: Some(file.language),
        depth: capped_sum(occurrences(file.path, '/') as usize, 2),
        file_path: Some(file.path),
        line_number: Some(function.start_line),
        end_line_number: Some(function.end_line),
    }
}

/// The patch node of a method, below its class: the node of the function
/// the graph holds for it.
pub open spec fn method_patch_node(file: ParsedFileModel, class: ClassModel, method: FunctionModel) -> PatchNodeModel {
    PatchNodeModel {
        id: file.path + "::"@ + method.name,
        label: method.name,
        node_type: "function"@,
        parent_id: Some(file.path + "::"@ + class.name),
        extension: None,
        language: Some(file.language),
        depth: capped_sum(occurrences(file.path, '/') as usize, 2),
        file_path: Some(file.path),
        line_number: Some(method.start_line),
        end_line_number: Some(method.end_line),
    }
}

/// The patch nodes of the methods of a class, in order.
pub open spec fn method_nodes_of(file: ParsedFileModel, class: ClassModel) -> Seq<PatchNodeModel> {
    Seq::new(class.methods.len(), |k: int| method_patch_node(file, class, class.methods[k]))
}

/// The patch nodes of the methods of the classes, class by class.
pub open spec fn method_nodes(file: ParsedFileModel, classes: Seq<ClassModel>) -> Seq<PatchNodeModel>
    decreases classes.len(),
{
    if classes.len() == 0 {
        Seq::empty()
    } else {
        method_nodes(file, classes.drop_last()) + method_nodes_of(file, classes.last())
    }
}

/// The patch node of a module.
pub open spec fn module_patch_node(name: Seq<char>) -> PatchNodeModel {
    PatchNodeModel {
        id: name,
        label: name,
        node_type: "module"@,
        parent_id: None,
        extension: None,
        language: None,
        depth: 0,
        file_path: None,
        line_number: None,
        end_line_number: None,
    }
}

/// The patch nodes of one file: the file, its classes, its top-level
/// functions.
pub open spec fn patch_nodes_of(file: ParsedFileModel) -> Seq<PatchNodeModel> {
    seq![file_patch_node(file)] + Seq::new(
        file.classes.len(),
        |i: int| class_patch_node(file, file.classes[i]),
    ) + Seq::new(file.functions.len(), |i: int| function_patch_node(file, file.functions[i]))
        + method_nodes(file, file.classes)
}

/// The patch nodes of the files, file by file.
pub open spec fn file_patch_nodes(files: Seq<ParsedFileModel>) -> Seq<PatchNodeModel>
    decreases files.len(),
{
    if files.len() == 0 {
        Seq::empty()
    } else {
        file_patch_nodes(files.drop_last()) + patch_nodes_of(files.last())
    }
}

/// The patch edge of a graph edge.
pub open spec fn patch_edge(e: EdgeModel) -> PatchEdgeModel {
    let source = node_qualified_id(e.from);
    let target = node_qualified_id(e.to);
    let edge_type = lowercase(e.edge_type.label());
    PatchEdgeModel { id: edge_type + ":"@ + source + "->"@ + target, source, target, edge_type }
}

/// The patch edges of the graph edges.
pub open spec fn patch_edges(edges: Seq<EdgeModel>) -> Seq<PatchEdgeModel> {
    Seq::new(edges.len(), |i: int| patch_edge(edges[i]))
}

/// The modules at the ends of an edge, the source first.
pub open spec fn modules_at(e: EdgeModel) -> Seq<Seq<char>> {
    (match e.from {
        NodeKey::Module(name) => seq![name],
        _ => Seq::empty(),
    }) + (match e.to {
        NodeKey::Module(name) => seq![name],
        _ => Seq::empty(),
    })
}

/// The modules at the ends of the edges, edge by edge.
pub open spec fn module_mentions(edges: Seq<EdgeModel>) -> Seq<Seq<char>>
    decreases edges.len(),
{
    if edges.len() == 0 {
        Seq::empty()
    } else {
        module_mentions(edges.drop_last()) + modules_at(edges.last())
    }
}

/// The patch nodes of the given modules.
pub open spec fn module_patch_nodes(names: Seq<Seq<char>>) -> Seq<PatchNodeModel> {
    Seq::new(names.len(), |i: int| module_patch_node(names[i]))
}

/// The nodes of a patch: those of the files, then one for each module at
/// the end of an edge.
pub open spec fn patch_nodes(files: Seq<ParsedFileModel>, graph: GraphModel) -> Seq<PatchNodeModel> {
    file_patch_nodes(files) + module_patch_nodes(distinct(module_mentions(graph.edges)))
}

/// The persistent id of a node as a patch writes it.
pub fn node_id_to_string(node: &NodeId) -> (id: String)
    ensures
        id@ == node_qualified_id(node@),
{
    node_id_text(node)
}

fn patch_nodes_for(file: &ParsedFile) -> (nodes: Vec<PatchNode>)
    ensures
        nodes.deep_view() == patch_nodes_of(file@),
{
    let path = chars_of(file.path.as_str());
    let depth = count_char(&path, '/');
    let pieces = split_char(&path, '/');
    let last = &pieces[pieces.len() - 1];
    assert(pieces.deep_view().last() =~= last@);
    assert(last@.subrange(0, last@.len() as int) =~= last@);
    let label = string_of(crate::text::slice(last, 0, last.len()));
    let mut nodes: Vec<PatchNode> = Vec::new();
    let head = PatchNode {
        id: file.path.clone(),
        label,
        node_type: "file".to_string(),
        parent_id: None,
        extension: extension(file.path.as_str()),
        language: Some(file.language.clone()),
        depth,
        file_path: Some(file.path.clone()),
        line_number: None,
        end_line_number: None,
    };
    proof {
        lemma_deep_view_push(nodes@, nodes@.push(head), head);
    }
    nodes.push(head);
    let ghost classes = Seq::new(
        file@.classes.len(),
        |i: int| class_patch_node(file@, file@.classes[i]),
    );
    let ghost functions = Seq::new(
        file@.functions.len(),
        |i: int| function_patch_node(file@, file@.functions[i]),
    );
    let ghost start = seq![file_patch_node(file@)];
    assert(nodes.deep_view() =~= start + classes.take(0));
    let mut i: usize = 0;
    while i < file.classes.len()
        invariant
            i <= file.classes@.len(),
            depth == occurrences(file.path@, '/'),
            classes == Seq::new(file@.classes.len(), |i: int| class_patch_node(file@, file@.classes[i])),
            nodes.deep_view() == start + classes.take(i as int),
        decreases file.classes@.len() - i,
    {
        let class = &file.classes[i];
        let node = PatchNode {
            id: join3(file.path.as_str(), "::", class.name.as_str()),
            label: class.name.clone(),
            node_type: "class".to_string(),
            parent_id: Some(file.path.clone()),
            extension: None,
            language: Some(file.language.clone()),
            depth: add_capped(depth, 1),
            file_path: Some(file.path.clone()),
            line_number: Some(class.start_line),
            end_line_number: Some(class.end_line),
        };
        proof {
            lemma_deep_view_push(nodes@, nodes@.push(node), node);
            assert((start + classes.take(i as int)).push(classes[i as int]) =~= start + classes.take(
                i + 1,
            ));
        }
        nodes.push(node);
        i += 1;
    }
    assert(classes.take(i as int) =~= classes);
    assert(nodes.deep_view() =~= start + classes + functions.take(0));
    let mut k: usize = 0;
    while k < file.functions.len()
        invariant
            k <= file.functions@.len(),
            depth == occurrences(file.path@, '/'),
            functions == Seq::new(
                file@.functions.len(),
                |i: int| function_patch_node(file@, file@.functions[i]),
            ),
            nodes.deep_view() == start + classes + functions.take(k as int),
        decreases file.functions@.len() - k,
    {
        let function = &file.functions[k];
        let node = PatchNode {
            id: join3(file.path.as_str(), "::", function.name.as_str()),
            label: function.name.clone(),
            node_type: "function".to_string(),
            parent_id: Some(file.path.clone()),
            extension: None,
            language: Some(file.language.clone()),
            depth: add_capped(depth, 2),
            file_path: Some(file.path.clone()),
            line_number: Some(function.start_line),
            end_line_number: Some(function.end_line),
        };
        proof {
            lemma_deep_view_push(nodes@, nodes@.push(node), node);
            assert((start + classes + functions.take(k as int)).push(functions[k as int]) =~= start
                + classes + functions.take(k + 1));
        }
        nodes.push(node);
        k += 1;
    }
    assert(functions.take(k as int) =~= functions);
    let ghost listed = start + classes + functions;
    assert(nodes.deep_view() =~= listed + method_nodes(file@, file@.classes.take(0)));
    let mut c: usize = 0;
    while c < file.classes.len()
        invariant
            c <= file.classes@.len(),
            depth == occurrences(file.path@, '/'),
            nodes.deep_view() == listed + method_nodes(file@, file@.classes.take(c as int)),
        decreases file.classes@.len() - c,
    {
        let class = &file.classes[c];
        let ghost done = method_nodes(file@, file@.classes.take(c as int));
        let ghost more = method_nodes_of(file@, class@);
        proof {
            assert(file@.classes.take(c + 1).drop_last() =~= file@.classes.take(c as int));
            assert(file@.classes.take(c + 1).last() == class@);
            assert(nodes.deep_view() =~= listed + done + more.take(0));
        }
        let mut m: usize = 0;
        while m < class.methods.len()
            invariant
                m <= class.methods@.len(),
                depth == occurrences(file.path@, '/'),
                more == method_nodes_of(file@, class@),
                nodes.deep_view() == listed + done + more.take(m as int),
            decreases class.methods@.len() - m,
        {
            let method = &class.methods[m];
            let node = PatchNode {
                id: join3(file.path.as_str(), "::", method.name.as_str()),
                label: method.name.clone(),
                node_type: "function".to_string(),
                parent_id: Some(join3(file.path.as_str(), "::", class.name.as_str())),
                extension: None,
                language: Some(file.language.clone()),
                depth: add_capped(depth, 2),
                file_path: Some(file.path.clone()),
                line_number: Some(method.start_line),
                end_line_number: Some(method.end_line),
            };
            proof {
                lemma_deep_view_push(nodes@, nodes@.push(node), node);
                assert(node@ == more[m as int]);
                assert((listed + done + more.take(m as int)).push(more[m as int]) =~= listed + done
                    + more.take(m + 1));
            }
            nodes.push(node);
            m += 1;
        }
        proof {
            assert(more.take(m as int) =~= more);
            assert(listed + done + more =~= listed + (done + more));
        }
        c += 1;
    }
    assert(file@.classes.take(c as int) =~= file@.classes);
    nodes
}

/// The modules at the ends of an edge.
fn modules_of(edge: &Edge) -> (names: Vec<String>)
    ensures
        names.deep_view() == modules_at(edge@),
{
    let mut names: Vec<String> = Vec::new();
    assert(names.deep_view() =~= Seq::empty());
    match &edge.from {
        NodeId::Module(name) => {
            let copy = name.clone();
            proof {
                lemma_deep_view_push(names@, names@.push(copy), copy);
            }
            names.push(copy);
        },
        _ => {},
    }
    match &edge.to {
        NodeId::Module(name) => {
            let copy = name.clone();
            proof {
                lemma_deep_view_push(names@, names@.push(copy), copy);
            }
            names.push(copy);
        },
        _ => {},
    }
    assert(names.deep_view() =~= modules_at(edge@));
    names
}

/// The patch of an incremental job: the nodes of the parsed files, the
/// modules at the ends of the edges, and the edges of the graph.
pub fn build_graph_patch(
    parsed_files: &[ParsedFile],
    dep_graph: &DependencyGraph,
    changed_files: &[String],
    removed_files: &[String],
) -> (patch: GraphPatch)
    ensures
        patch.changed_files.deep_view() == changed_files.deep_view(),
        patch.removed_files.deep_view() == removed_files.deep_view(),
        patch.nodes.deep_view() == patch_nodes(parsed_files.deep_view(), dep_graph@),
        patch.edges.deep_view() == patch_edges(dep_graph@.edges),
{
    let mut nodes: Vec<PatchNode> = Vec::new();
    let ghost files = parsed_files.deep_view();
    let mut i: usize = 0;
    assert(nodes.deep_view() =~= file_patch_nodes(files.take(0)));
    while i < parsed_files.len()
        invariant
            i <= parsed_files@.len(),
            files == parsed_files.deep_view(),
            nodes.deep_view() == file_patch_nodes(files.take(i as int)),
        decreases parsed_files@.len() - i,
    {
        proof {
            assert(files.take(i + 1).drop_last() =~= files.take(i as int));
            assert(files.take(i + 1).last() == parsed_files[i as int]@);
        }
        let mut own = patch_nodes_for(&parsed_files[i]);
        proof {
            lemma_deep_view_concat(nodes@, own@);
        }
        nodes.append(&mut own);
        i += 1;
    }
    assert(files.take(i as int) =~= files);

    let mut edges: Vec<PatchEdge> = Vec::new();
    let mut mentions: Vec<String> = Vec::new();
    let ghost all = dep_graph@.edges;
    let mut k: usize = 0;
    assert(edges.deep_view() =~= patch_edges(all.take(0)));
    assert(mentions.deep_view() =~= module_mentions(all.take(0)));
    while k < dep_graph.edges.len()
        invariant
            k <= dep_graph.edges@.len(),
            all == dep_graph.edges.deep_view(),
            edges.deep_view() == patch_edges(all.take(k as int)),
            mentions.deep_view() == module_mentions(all.take(k as int)),
        decreases dep_graph.edges@.len() - k,
    {
        let edge = &dep_graph.edges[k];
        proof {
            assert(all.take(k + 1).drop_last() =~= all.take(k as int));
            assert(all.take(k + 1).last() == edge@);
        }
        let source = node_id_to_string(&edge.from);
        let target = node_id_to_string(&edge.to);
        let edge_type = to_lowercase(edge.edge_type.as_str());
        let head = join3(edge_type.as_str(), ":", source.as_str());
        let id = join3(head.as_str(), "->", target.as_str());
        let patch = PatchEdge { id, source, target, edge_type };
        proof {
            lemma_deep_view_push(edges@, edges@.push(patch), patch);
        }
        edges.push(patch);
        assert(edges.deep_view() =~= patch_edges(all.take(k + 1)));
        crate::parsers::common::append_strings(&mut mentions, modules_of(edge));
        k += 1;
    }
    assert(all.take(k as int) =~= all);

    let modules = dedup(mentions);
    let ghost names = modules.deep_view();
    let ghost file_nodes = nodes.deep_view();
    let mut m: usize = 0;
    assert(nodes.deep_view() =~= file_nodes + module_patch_nodes(names).take(0));
    while m < modules.len()
        invariant
            m <= modules@.len(),
            names == modules.deep_view(),
            nodes.deep_view() == file_nodes + module_patch_nodes(names).take(m as int),
        decreases modules@.len() - m,
    {
        let node = PatchNode {
            id: modules[m].clone(),
            label: modules[m].clone(),
            node_type: "module".to_string(),
            parent_id: None,
            extension: None,
            language: None,
            depth: 0,
            file_path: None,
            line_number: None,
            end_line_number: None,
        };
        proof {
            lemma_deep_view_push(nodes@, nodes@.push(node), node);
            assert((file_nodes + module_patch_nodes(names).take(m as int)).push(
                module_patch_nodes(names)[m as int],
            ) =~= file_nodes + module_patch_nodes(names).take(m + 1));
        }
        nodes.push(node);
        m += 1;
    }
    assert(module_patch_nodes(names).take(m as int) =~= module_patch_nodes(names));

    let changed = clone_paths(changed_files);
    let removed = clone_paths(removed_files);
    GraphPatch { changed_files: changed, removed_files: removed, nodes, edges }
}

/// A copy of the paths.
fn clone_paths(paths: &[String]) -> (copy: Vec<String>)
    ensures
        copy.deep_view() == paths.deep_view(),
{
    let mut copy: Vec<String> = Vec::new();
    let mut i: usize = 0;
    while i < paths.len()
        invariant
            i <= paths@.len(),
            copy.deep_view() == paths.deep_view().take(i as int),
        decreases paths@.len() - i,
    {
        let path = paths[i].clone();
        proof {
            lemma_deep_view_push(copy@, copy@.push(path), path);
            assert(paths.deep_view().take(i as int).push(paths.deep_view()[i as int])
                =~= paths.deep_view().take(i + 1));
        }
        copy.push(path);
        i += 1;
    }
    assert(paths.deep_view().take(i as int) =~= paths.deep_view());
    copy
}


// ---------------------------------------------------------------------------
// The analysis of one job
// ---------------------------------------------------------------------------

/// The library catalog of the manifests; empty when a manifest cannot be
/// read.
pub open spec fn catalog_of(manifests: Seq<(Seq<char>, Seq<char>)>) -> Seq<LibraryModel> {
    match declared_libraries(manifests) {
        Some(declared) => by_name(distinct(declared)),
        None => Seq::empty(),
    }
}

/// Whether the communication scan can run: its pattern for declared
/// services is one the pattern engine takes.
pub open spec fn scan_works() -> bool {
    regex_captures(PROTO_SERVICE@, Seq::empty()) is Some
}

/// What the clone of a repository holds besides its parsed files, read by
/// whoever runs the job.
#[derive(Debug)]
pub struct RepositoryFacts {
    /// The contribution metrics of the history, where there is one.
    pub git_contributions: Option<RepoContributions>,
    /// What the root says about workspaces.
    pub workspaces: WorkspaceManifests,
    /// The package manifests found.
    pub manifests: Vec<ManifestFile>,
    /// The text of every parsed file that could be read.
    pub sources: Vec<SourceText>,
    /// The text of every interface-definition file.
    pub proto_texts: Vec<String>,
    /// The text of the compose file, if there is one.
    pub compose: Option<String>,
}

/// The results of an analysis and the plan that stores them.
#[derive(Debug)]
pub struct Analysis {
    pub symbol_table: SymbolTable,
    pub boundaries: BoundaryDetectionResult,
    pub libraries: Vec<LibraryDependency>,
    pub communication: CommunicationAnalysis,
    pub graph: DependencyGraph,
    pub stats: GraphStats,
    pub plan: Vec<Statement>,
    pub patch: Option<GraphPatch>,
}

/// The history of a repository, borrowed.
pub open spec fn history_of(facts: &RepositoryFacts) -> Option<&RepoContributions> {
    match &facts.git_contributions {
        Some(c) => Some(c),
        None => None,
    }
}

/// The history of a repository, borrowed.
fn history<'a>(facts: &'a RepositoryFacts) -> (r: Option<&'a RepoContributions>)
    ensures
        r == history_of(facts),
{
    match &facts.git_contributions {
        Some(c) => Some(c),
        None => None,
    }
}

/// What the analyzers beside the parsers find: the boundaries, the library
/// catalog and the communication artifacts.
#[derive(Debug)]
pub struct Enrichment {
    pub boundaries: BoundaryDetectionResult,
    pub libraries: Vec<LibraryDependency>,
    pub communication: CommunicationAnalysis,
}

/// Whether an enrichment is that of the parsed files and the facts of a
/// repository. A manifest that cannot be read leaves the library catalog
/// empty, and a communication scan that cannot run leaves the communication
/// artifacts empty.
pub open spec fn enriches(e: &Enrichment, files: Seq<ParsedFileModel>, facts: &RepositoryFacts) -> bool {
        &&& e.boundaries.boundaries.deep_view() == all_boundaries(files, &facts.workspaces)
        &&& e.libraries.deep_view() == catalog_of(facts.manifests.deep_view())
        &&& scan_works() ==> {
            &&& e.communication.endpoints.deep_view() == all_http_calls(facts.sources.deep_view())
            &&& e.communication.rpc_services.deep_view() == all_grpc_calls(facts.sources.deep_view())
                + proto_rpcs(declared_services(facts.proto_texts.deep_view()))
            &&& e.communication.queues.deep_view() == all_queue_calls(facts.sources.deep_view())
            &&& e.communication.compose_services.deep_view() == (match facts.compose {
                Some(text) => compose_services(text@),
                None => Seq::empty(),
            })
        }
        &&& !scan_works() ==> {
            &&& e.communication.endpoints@.len() == 0
            &&& e.communication.rpc_services@.len() == 0
            &&& e.communication.queues@.len() == 0
            &&& e.communication.compose_services@.len() == 0
        }
}

/// Runs the boundary detector, the manifest scanner and the communication
/// detector. None of them fails the job: what one cannot find is left out.
pub fn enrich(parsed_files: &[ParsedFile], facts: &RepositoryFacts) -> (e: Enrichment)
    ensures
        enriches(&e, parsed_files.deep_view(), facts),
{
    let boundaries = BoundaryDetector::detect_boundaries(parsed_files, &facts.workspaces);
    let libraries = match collect_library_dependencies(facts.manifests.as_slice()) {
        Ok(libraries) => libraries,
        Err(_) => {
            let none: Vec<LibraryDependency> = Vec::new();
            assert(none.deep_view() =~= Seq::empty());
            none
        },
    };
    let compose = match &facts.compose {
        Some(text) => Some(text.as_str()),
        None => None,
    };
    let communication = match CommunicationDetector::detect(
        facts.sources.as_slice(),
        facts.proto_texts.as_slice(),
        compose,
    ) {
        Ok(found) => found,
        Err(_) => CommunicationAnalysis {
            endpoints: Vec::new(),
            rpc_services: Vec::new(),
            queues: Vec::new(),
            compose_services: Vec::new(),
        },
    };
    Enrichment { boundaries, libraries, communication }
}

/// Builds the symbol table and the dependency graph of the parsed files and
/// plans the storage of the results with the enrichment, incremental when
/// the job is.
pub fn plan_analysis(
    job_id: &str,
    repo_id: &str,
    parsed_files: &[ParsedFile],
    facts: &RepositoryFacts,
    enrichment: Enrichment,
    changed_files: &[String],
    removed_files: &[String],
    incremental: bool,
) -> (a: Analysis)
    ensures
        ({
            &&& a.symbol_table.indexes(parsed_files.deep_view())
            &&& a.boundaries == enrichment.boundaries
            &&& a.libraries == enrichment.libraries
            &&& a.communication == enrichment.communication
            &&& a.graph@ == graph_of(parsed_files.deep_view(), &a.symbol_table)
            &&& counts(a.stats, a.graph@)
            &&& a.plan.deep_view() == (if incremental {
                delete_plan(
                    repo_id@,
                    delete_paths(changed_files.deep_view(), removed_files.deep_view()),
                )
            } else {
                Seq::empty()
            }) + upsert_plan(
                job_id@,
                repo_id@,
                parsed_files.deep_view(),
                a.graph@,
                metrics_of_history(history_of(facts)),
                a.boundaries.boundaries.deep_view(),
                a.libraries.deep_view(),
                &a.communication,
                DEFAULT_SIZE,
            )
            &&& match a.patch {
                Some(patch) => incremental && patch.changed_files.deep_view()
                    == changed_files.deep_view() && patch.removed_files.deep_view()
                    == removed_files.deep_view() && patch.nodes.deep_view() == patch_nodes(
                    parsed_files.deep_view(),
                    a.graph@,
                ) && patch.edges.deep_view() == patch_edges(a.graph@.edges),
                None => !incremental,
            }
        }),
{
    let symbol_table = SymbolTable::from_parsed_files(parsed_files);
    let boundaries = enrichment.boundaries;
    let libraries = enrichment.libraries;
    let communication = enrichment.communication;
    let graph = DependencyGraph::from_parsed_files(parsed_files, &symbol_table);
    let stats = graph.stats();
    let ghost upserts = upsert_plan(
        job_id@,
        repo_id@,
        parsed_files.deep_view(),
        graph@,
        metrics_of_history(history_of(facts)),
        boundaries.boundaries.deep_view(),
        libraries.deep_view(),
        &communication,
        DEFAULT_SIZE,
    );
    let (plan, patch) = if incremental {
        let plan = store_graph_incremental(
            job_id,
            repo_id,
            parsed_files,
            &graph,
            history(facts),
            &boundaries,
            libraries.as_slice(),
            &communication,
            changed_files,
            removed_files,
            None,
        );
        let patch = build_graph_patch(parsed_files, &graph, changed_files, removed_files);
        (plan, Some(patch))
    } else {
        let plan = store_graph(
            job_id,
            repo_id,
            parsed_files,
            &graph,
            history(facts),
            &boundaries,
            libraries.as_slice(),
            &communication,
            None,
        );
        assert(Seq::<StatementModel>::empty() + upserts =~= upserts);
        (plan, None)
    };
    Analysis { symbol_table, boundaries, libraries, communication, graph, stats, plan, patch }
}


/// Analyzes the parsed files of a job and plans the storage of the results:
/// the enrichment, then the symbol table, the dependency graph and the
/// write plan. Nothing in it fails the job.
pub fn analyze_parsed(
    job_id: &str,
    repo_id: &str,
    parsed_files: &[ParsedFile],
    facts: &RepositoryFacts,
    changed_files: &[String],
    removed_files: &[String],
    incremental: bool,
) -> (a: Analysis)
    ensures
        ({
            &&& a.symbol_table.indexes(parsed_files.deep_view())
            &&& enriches(
                &(Enrichment {
                    boundaries: a.boundaries,
                    libraries: a.libraries,
                    communication: a.communication,
                }),
                parsed_files.deep_view(),
                facts,
            )
            &&& a.graph@ == graph_of(parsed_files.deep_view(), &a.symbol_table)
            &&& counts(a.stats, a.graph@)
            &&& a.plan.deep_view() == (if incremental {
                delete_plan(
                    repo_id@,
                    delete_paths(changed_files.deep_view(), removed_files.deep_view()),
                )
            } else {
                Seq::empty()
            }) + upsert_plan(
                job_id@,
                repo_id@,
                parsed_files.deep_view(),
                a.graph@,
                metrics_of_history(history_of(facts)),
                a.boundaries.boundaries.deep_view(),
                a.libraries.deep_view(),
                &a.communication,
                DEFAULT_SIZE,
            )
            &&& match a.patch {
                Some(patch) => incremental && patch.changed_files.deep_view()
                    == changed_files.deep_view() && patch.removed_files.deep_view()
                    == removed_files.deep_view() && patch.nodes.deep_view() == patch_nodes(
                    parsed_files.deep_view(),
                    a.graph@,
                ) && patch.edges.deep_view() == patch_edges(a.graph@.edges),
                None => !incremental,
            }
        }),
{
    let enrichment = enrich(parsed_files, facts);
    plan_analysis(
        job_id,
        repo_id,
        parsed_files,
        facts,
        enrichment,
        changed_files,
        removed_files,
        incremental,
    )
}

/// The batch size of the plans the pipeline makes.
pub const DEFAULT_SIZE: usize = 500;

/// The numbers a finished job reports.
#[derive(Debug, Clone, Copy, PartialEq, Eq)]
pub struct ResultSummary {
    pub total_files: usize,
    pub total_functions: usize,
    pub total_classes: usize,
    pub dependencies: usize,
}

/// The numbers a finished job reports: the parsed files, the function and
/// class nodes of the graph, and its import edges.
pub fn summarize(parsed_files: &[ParsedFile], stats: &GraphStats) -> (summary: ResultSummary)
    ensures
        summary.total_files == parsed_files@.len(),
        summary.total_functions == stats.functions,
        summary.total_classes == stats.classes,
        summary.dependencies == stats.imports_edges,
{
    ResultSummary {
        total_files: parsed_files.len(),
        total_functions: stats.functions,
        total_classes: stats.classes,
        dependencies: stats.imports_edges,
    }
}

/// The ids of the nodes of a patch.
pub fn changed_node_ids(patch: &GraphPatch) -> (ids: Vec<String>)
    ensures
        ids.deep_view() == Seq::new(patch.nodes@.len(), |i: int| patch.nodes@[i].id@),
{
    let mut ids: Vec<String> = Vec::new();
    let ghost target = Seq::new(patch.nodes@.len(), |i: int| patch.nodes@[i].id@);
    let mut i: usize = 0;
    assert(ids.deep_view() =~= target.take(0));
    while i < patch.nodes.len()
        invariant
            i <= patch.nodes@.len(),
            target == Seq::new(patch.nodes@.len(), |i: int| patch.nodes@[i].id@),
            ids.deep_view() == target.take(i as int),
        decreases patch.nodes@.len() - i,
    {
        let id = patch.nodes[i].id.clone();
        proof {
            lemma_deep_view_push(ids@, ids@.push(id), id);
            assert(target.take(i as int).push(target[i as int]) =~= target.take(i + 1));
        }
        ids.push(id);
        i += 1;
    }
    assert(target.take(i as int) =~= target);
    ids
}

/// The ids of the edges of a patch.
pub fn changed_edge_ids(patch: &GraphPatch) -> (ids: Vec<String>)
    ensures
        ids.deep_view() == Seq::new(patch.edges@.len(), |i: int| patch.edges@[i].id@),
{
    let mut ids: Vec<String> = Vec::new();
    let ghost target = Seq::new(patch.edges@.len(), |i: int| patch.edges@[i].id@);
    let mut i: usize = 0;
    assert(ids.deep_view() =~= target.take(0));
    while i < patch.edges.len()
        invariant
            i <= patch.edges@.len(),
            target == Seq::new(patch.edges@.len(), |i: int| patch.edges@[i].id@),
            ids.deep_view() == target.take(i as int),
        decreases patch.edges@.len() - i,
    {
        let id = patch.edges[i].id.clone();
        proof {
            lemma_deep_view_push(ids@, ids@.push(id), id);
            assert(target.take(i as int).push(target[i as int]) =~= target.take(i + 1));
        }
        ids.push(id);
        i += 1;
    }
    assert(target.take(i as int) =~= target);
    ids
}

// ---------------------------------------------------------------------------
// The stages of a job
// ---------------------------------------------------------------------------

/// How far a job has come.
#[derive(Debug, Clone, Copy, PartialEq, Eq, Structural)]
pub enum Stage {
    /// Taken from the queue.
    Accepted,
    /// Announced as processing.
    Started,
    /// The repository is cloned.
    Cloned,
    /// The sources are parsed.
    Parsed,
    /// History, boundaries and libraries are known.
    Enriched,
    /// The dependency graph is built.
    GraphBuilt,
    /// The results are stored.
    Persisted,
    /// Reported as completed.
    Completed,
    /// Reported as failed.
    Failed,
}

/// What the status collaborator is told.
#[derive(Debug, Clone, Copy, PartialEq, Eq, Structural)]
pub enum Report {
    /// The job is being processed, at progress 0.
    Processing,
    /// The job has come the given part of the way, in percent.
    Progress(i32),
    /// The job is done, at progress 100, with its summary.
    Completed,
    /// The job failed, with the error in words.
    Failed,
}

/// What the work of a stage came to.
#[derive(Debug, Clone, Copy, PartialEq, Eq, Structural)]
pub enum Outcome {
    Done,
    Error,
}

/// The stage that follows and what is reported on entering it. Progress is
/// reported at 0, 25, 50, 60, 75, 90 and 100; an error at any stage fails
/// the job; a finished job stays as it is and reports nothing.
pub open spec fn step(stage: Stage, outcome: Outcome) -> (Stage, Option<Report>) {
    match (stage, outcome) {
        (Stage::Completed, _) => (Stage::Completed, None),
        (Stage::Failed, _) => (Stage::Failed, None),
        (_, Outcome::Error) => (Stage::Failed, Some(Report::Failed)),
        (Stage::Accepted, Outcome::Done) => (Stage::Started, Some(Report::Processing)),
        (Stage::Started, Outcome::Done) => (Stage::Cloned, Some(Report::Progress(25))),
        (Stage::Cloned, Outcome::Done) => (Stage::Parsed, Some(Report::Progress(50))),
        (Stage::Parsed, Outcome::Done) => (Stage::Enriched, Some(Report::Progress(60))),
        (Stage::Enriched, Outcome::Done) => (Stage::GraphBuilt, Some(Report::Progress(75))),
        (Stage::GraphBuilt, Outcome::Done) => (Stage::Persisted, Some(Report::Progress(90))),
        (Stage::Persisted, Outcome::Done) => (Stage::Completed, Some(Report::Completed)),
    }
}

/// The stage that follows and what is reported on entering it.
pub fn advance(stage: Stage, outcome: Outcome) -> (r: (Stage, Option<Report>))
    ensures
        r == step(stage, outcome),
{
    match (stage, outcome) {
        (Stage::Completed, _) => (Stage::Completed, None),
        (Stage::Failed, _) => (Stage::Failed, None),
        (_, Outcome::Error) => (Stage::Failed, Some(Report::Failed)),
        (Stage::Accepted, Outcome::Done) => (Stage::Started, Some(Report::Processing)),
        (Stage::Started, Outcome::Done) => (Stage::Cloned, Some(Report::Progress(25))),
        (Stage::Cloned, Outcome::Done) => (Stage::Parsed, Some(Report::Progress(50))),
        (Stage::Parsed, Outcome::Done) => (Stage::Enriched, Some(Report::Progress(60))),
        (Stage::Enriched, Outcome::Done) => (Stage::GraphBuilt, Some(Report::Progress(75))),
        (Stage::GraphBuilt, Outcome::Done) => (Stage::Persisted, Some(Report::Progress(90))),
        (Stage::Persisted, Outcome::Done) => (Stage::Completed, Some(Report::Completed)),
    }
}

/// The progress a report carries, if any.
pub open spec fn progress_of(report: Report) -> Option<i32> {
    match report {
        Report::Processing => Some(0),
        Report::Progress(p) => Some(p),
        Report::Completed => Some(100),
        Report::Failed => None,
    }
}

/// The status a report carries, if any.
pub open spec fn status_of(report: Report) -> Option<Seq<char>> {
    match report {
        Report::Processing => Some("PROCESSING"@),
        Report::Progress(_) => None,
        Report::Completed => Some("COMPLETED"@),
        Report::Failed => Some("FAILED"@),
    }
}

/// An update of a job for the status collaborator; fields that are `None`
/// are left out of the message.
#[derive(Debug)]
pub struct JobUpdatePayload {
    pub status: Option<String>,
    pub progress: Option<i32>,
    pub result_summary: Option<ResultSummary>,
    pub error: Option<String>,
}

/// The update that carries a report. A completed job carries its summary,
/// a failed one its error.
pub fn payload_for(report: Report, summary: Option<ResultSummary>, error: Option<String>) -> (payload:
    JobUpdatePayload)
    ensures
        payload.status.deep_view() == status_of(report),
        payload.progress == progress_of(report),
        payload.result_summary == (if report == Report::Completed {
            summary
        } else {
            None
        }),
        payload.error.deep_view() == (if report == Report::Failed {
            error.deep_view()
        } else {
            None
        }),
{
    match report {
        Report::Processing => JobUpdatePayload {
            status: Some("PROCESSING".to_string()),
            progress: Some(0),
            result_summary: None,
            error: None,
        },
        Report::Progress(p) => JobUpdatePayload {
            status: None,
            progress: Some(p),
            result_summary: None,
            error: None,
        },
        Report::Completed => JobUpdatePayload {
            status: Some("COMPLETED".to_string()),
            progress: Some(100),
            result_summary: summary,
            error: None,
        },
        Report::Failed => JobUpdatePayload {
            status: Some("FAILED".to_string()),
            progress: None,
            result_summary: None,
            error,
        },
    }
}

/// The address of a job at the status collaborator.
pub fn job_url(base_url: &str, job_id: &str) -> (url: String)
    ensures
        url@ == base_url@ + "/api/v1/jobs/"@ + job_id@,
{
    join3(base_url, "/api/v1/jobs/", job_id)
}

// ---------------------------------------------------------------------------
// Connecting, cloning, cleaning up
// ---------------------------------------------------------------------------

/// Two to the power of `n`.
pub open spec fn power_of_two(n: nat) -> nat
    decreases n,
{
    if n == 0 {
        1
    } else {
        2 * power_of_two((n - 1) as nat)
    }
}

/// What to do after a failed attempt to connect.
#[derive(Debug, Clone, Copy, PartialEq, Eq, Structural)]
pub enum RetryDecision {
    /// Wait so many seconds, then try again.
    Wait(u64),
    /// Give up.
    GiveUp,
}

/// The seconds to wait after the given attempt, the first being attempt 1:
/// one second, then twice as long each time.
pub fn backoff_seconds(attempt: u32) -> (seconds: u64)
    requires
        1 <= attempt <= 64,
    ensures
        seconds == power_of_two((attempt - 1) as nat),
{
    let mut seconds: u64 = 1;
    let mut done: u32 = 1;
    while done < attempt
        invariant
            1 <= done <= attempt <= 64,
            seconds == power_of_two((done - 1) as nat),
        decreases attempt - done,
    {
        proof {
            lemma_power_62();
            lemma_power_monotone((done - 1) as nat, 62);
        }
        seconds = seconds * 2;
        done += 1;
    }
    seconds
}

proof fn lemma_power_monotone(n: nat, m: nat)
    requires
        n <= m,
    ensures
        power_of_two(n) <= power_of_two(m),
    decreases m,
{
    if n < m {
        lemma_power_monotone(n, (m - 1) as nat);
    }
}

proof fn lemma_power_62()
    ensures
        power_of_two(62) == 0x4000_0000_0000_0000,
{
    reveal_with_fuel(power_of_two, 16);
    assert(power_of_two(15) == 0x8000);
    assert(power_of_two(30) == 0x4000_0000);
    assert(power_of_two(45) == 0x2000_0000_0000);
    assert(power_of_two(60) == 0x1000_0000_0000_0000);
}

/// What to do after the given attempt to connect failed: wait and try
/// again while attempts are left, else give up.
pub fn retry_decision(attempt: u32, max_retries: u32) -> (decision: RetryDecision)
    requires
        1 <= attempt <= 64,
    ensures
        decision == if attempt < max_retries {
            RetryDecision::Wait(power_of_two((attempt - 1) as nat) as u64)
        } else {
            RetryDecision::GiveUp
        },
{
    if attempt < max_retries {
        RetryDecision::Wait(backoff_seconds(attempt))
    } else {
        RetryDecision::GiveUp
    }
}

/// The name of the directory a repository is cloned into.
pub fn temp_clone_name(unique: &str) -> (name: String)
    ensures
        name@ == "archmind-repo-"@ + unique@,
{
    join2("archmind-repo-", unique)
}

/// Whether a directory of the system's temporary directory is a leftover
/// clone.
pub fn is_temp_clone_name(name: &str) -> (r: bool)
    ensures
        r == crate::text::has_prefix(name@, "archmind-"@),
{
    crate::text::starts_with(&chars_of(name), &chars_of("archmind-"))
}

/// The revisions to try, in order, when the head of a clone is not the
/// branch asked for.
pub fn branch_candidates(branch: &str) -> (candidates: Vec<String>)
    ensures
        candidates.deep_view() == seq![
            branch@,
            "origin/"@ + branch@,
            "master"@,
            "origin/master"@,
            "main"@,
            "origin/main"@,
        ],
{
    let candidates = vec![
        branch.to_string(),
        join2("origin/", branch),
        "master".to_string(),
        "origin/master".to_string(),
        "main".to_string(),
        "origin/main".to_string(),
    ];
    assert(candidates.deep_view() =~= seq![
        branch@,
        "origin/"@ + branch@,
        "master"@,
        "origin/master"@,
        "main"@,
        "origin/main"@,
    ]);
    candidates
}

/// Whether the clone has to switch branches: its head is not the branch
/// asked for. A head without a name counts as `master`.
pub fn needs_checkout(head: Option<&str>, branch: &str) -> (r: bool)
    ensures
        r == (match head {
            Some(name) => name@ != branch@,
            None => "master"@ != branch@,
        }),
{
    match head {
        Some(name) => !str_eq(name, branch),
        None => !str_eq("master", branch),
    }
}

/// Where the worker finds its collaborators.
#[derive(Debug)]
pub struct Config {
    pub redis_url: String,
    pub neo4j_uri: String,
    pub neo4j_user: String,
    pub neo4j_password: String,
    pub api_gateway_url: String,
}

/// A setting, or its default where the environment has none.
fn setting(value: Option<String>, default: &str) -> (r: String)
    ensures
        r@ == (match value {
            Some(v) => v@,
            None => default@,
        }),
{
    match value {
        Some(v) => v,
        None => default.to_string(),
    }
}

impl Config {
    /// The configuration from what the environment holds, with the
    /// documented default for each setting it does not hold.
    pub fn from_values(
        redis_url: Option<String>,
        neo4j_uri: Option<String>,
        neo4j_user: Option<String>,
        neo4j_password: Option<String>,
        api_gateway_url: Option<String>,
    ) -> (config: Self)
        ensures
            config.redis_url@ == (match redis_url {
                Some(v) => v@,
                None => "redis://localhost:6379"@,
            }),
            config.neo4j_uri@ == (match neo4j_uri {
                Some(v) => v@,
                None => "bolt://localhost:7687"@,
            }),
            config.neo4j_user@ == (match neo4j_user {
                Some(v) => v@,
                None => "neo4j"@,
            }),
            config.neo4j_password@ == (match neo4j_password {
                Some(v) => v@,
                None => "password"@,
            }),
            config.api_gateway_url@ == (match api_gateway_url {
                Some(v) => v@,
                None => "http://localhost:8080"@,
            }),
    {
        Config {
            redis_url: setting(redis_url, "redis://localhost:6379"),
            neo4j_uri: setting(neo4j_uri, "bolt://localhost:7687"),
            neo4j_user: setting(neo4j_user, "neo4j"),
            neo4j_password: setting(neo4j_password, "password"),
            api_gateway_url: setting(api_gateway_url, "http://localhost:8080"),
        }
    }
}

} // verus!
