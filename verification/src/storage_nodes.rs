//! The node statements of the write plan.

use vstd::prelude::*;
use chrono::TimeZone;
use crate::boundary_detector::{Boundary, BoundaryDetectionResult, BoundaryModel};
use crate::communication_detector::{CommunicationAnalysis, ComposeModel, ComposeService, EndpointModel, QueueModel, RpcModel};
use crate::dependency_metadata::{LibraryDependency, LibraryModel};
use crate::git_analyzer::{emails, ContributorInfo, FileContribution, FileContributionModel, RepoContributions};
use crate::graph_builder::{DependencyGraph, NodeId, NodeKey};
use crate::name_map::{Entry, NameMap};
use crate::neo4j_storage::{batch, batched, class_node_to_map, class_row, count_value, function_node_to_map, function_row, int_value, list_value, stored_count, text_value, Parameter, ParameterModel, Row, RowModel, Statement, StatementModel, ValueModel};
use crate::parsers::{ClassModel, FunctionModel, ParsedFile, ParsedFileModel, ServiceCallModel};
use crate::text::{join3, holds};
use crate::views::{first_index, lemma_deep_view_concat, lemma_deep_view_push};

verus! {

/// The time as `chrono` writes it in RFC 3339, UTC; `None` for a time out of
/// the range of `chrono`.
pub uninterp spec fn rfc3339_utc(seconds: i64) -> Option<Seq<char>>;

/// `chrono::TimeZone::timestamp_opt` on `Utc`, then
/// `chrono::DateTime::to_rfc3339`.
#[verifier::external_body]
pub(crate) fn format_rfc3339(seconds: i64) -> (r: Option<String>)
    ensures
        r.deep_view() == rfc3339_utc(seconds),
{
    chrono::Utc.timestamp_opt(seconds, 0).single().map(|t| t.to_rfc3339())
}

/// A row from its properties.
pub fn row_of(entries: Vec<Entry<crate::neo4j_storage::Value>>) -> (row: Row)
    ensures
        row.entries == entries,
{
    NameMap { entries }
}

/// Appends `more` to `rows`.
pub fn extend_rows(rows: &mut Vec<Row>, more: Vec<Row>)
    ensures
        final(rows).deep_view() == old(rows).deep_view() + more.deep_view(),
{
    let mut more = more;
    proof {
        lemma_deep_view_concat(rows@, more@);
    }
    rows.append(&mut more);
}

// ---------------------------------------------------------------------------
// Job
// ---------------------------------------------------------------------------

pub const MERGE_JOB: &'static str = "MERGE (j:Job {id: $id, repo_id: $repo_id})
         SET j.status = 'COMPLETED', j.timestamp = datetime()";

/// The statement that records the job as completed.
pub open spec fn job_statement(job_id: Seq<char>, repo_id: Seq<char>) -> StatementModel {
    StatementModel {
        query: MERGE_JOB@,
        context: "Failed to create job node"@,
        params: seq![("id"@, ParameterModel::Text(job_id)), ("repo_id"@, ParameterModel::Text(repo_id))],
    }
}

/// The statement that records the job as completed.
pub fn create_job_node(job_id: &str, repo_id: &str) -> (statement: Statement)
    ensures
        statement@ == job_statement(job_id@, repo_id@),
{
    let statement = Statement {
        query: MERGE_JOB.to_string(),
        context: "Failed to create job node".to_string(),
        params: NameMap {
            entries: vec![
                Entry { name: "id".to_string(), value: Parameter::Text(job_id.to_string()) },
                Entry { name: "repo_id".to_string(), value: Parameter::Text(repo_id.to_string()) },
            ],
        },
    };
    assert(statement@.params =~= job_statement(job_id@, repo_id@).params);
    statement
}

// ---------------------------------------------------------------------------
// Files
// ---------------------------------------------------------------------------

pub const MERGE_FILES: &'static str = "UNWIND $nodes AS node
             MERGE (f:File {id: node.id, repo_id: node.repo_id})
             SET f.path = node.path,
                 f.language = node.language,
                 f.job_id = node.job_id,
                 f.commit_count = COALESCE(node.commit_count, 0),
                 f.last_commit_date = COALESCE(node.last_commit_date, ''),
                 f.primary_author = COALESCE(node.primary_author, ''),
                 f.lines_changed_total = COALESCE(node.lines_changed_total, 0),
                 f.contributors = COALESCE(node.contributors, [])";

/// The contribution metrics kept for a path, if any.
pub open spec fn metrics_for(
    files: Seq<(Seq<char>, FileContributionModel)>,
    path: Seq<char>,
) -> Option<FileContributionModel> {
    let at = first_index(Seq::new(files.len(), |i: int| files[i].0), path);
    if at < files.len() {
        Some(files[at].1)
    } else {
        None
    }
}

/// The properties that contribution metrics add to a file node.
pub open spec fn metric_fields(metrics: Option<FileContributionModel>) -> RowModel {
    match metrics {
        Some(m) => seq![
            ("commit_count"@, ValueModel::Int(stored_count(m.commit_count))),
            (
                "last_commit_date"@,
                ValueModel::Text(
                    match rfc3339_utc(m.last_modified) {
                        Some(date) => date,
                        None => Seq::empty(),
                    },
                ),
            ),
            ("primary_author"@, ValueModel::Text(m.primary_author)),
            ("lines_changed_total"@, ValueModel::Int(stored_count(m.lines_changed_total))),
            ("contributors"@, ValueModel::List(emails(m.contributors))),
        ],
        None => Seq::empty(),
    }
}

/// The row of a file node: its identity, and its contribution metrics where
/// the history has some.
pub open spec fn file_node_row(
    file: ParsedFileModel,
    job_id: Seq<char>,
    repo_id: Seq<char>,
    metrics: Option<FileContributionModel>,
) -> RowModel {
    seq![
        ("id"@, ValueModel::Text(file.path)),
        ("path"@, ValueModel::Text(file.path)),
        ("language"@, ValueModel::Text(file.language)),
        ("job_id"@, ValueModel::Text(job_id)),
        ("repo_id"@, ValueModel::Text(repo_id)),
    ] + metric_fields(metrics)
}

/// The rows of the file nodes.
pub open spec fn file_node_rows(
    files: Seq<ParsedFileModel>,
    job_id: Seq<char>,
    repo_id: Seq<char>,
    history: Option<Seq<(Seq<char>, FileContributionModel)>>,
) -> Seq<RowModel> {
    Seq::new(
        files.len(),
        |i: int|
            file_node_row(
                files[i],
                job_id,
                repo_id,
                match history {
                    Some(h) => metrics_for(h, files[i].path),
                    None => None,
                },
            ),
    )
}

/// The e-mail addresses of the contributors.
fn contributor_emails(contributors: &Vec<ContributorInfo>) -> (out: Vec<String>)
    ensures
        out.deep_view() == emails(contributors.deep_view()),
{
    let mut out: Vec<String> = Vec::new();
    let mut i: usize = 0;
    while i < contributors.len()
        invariant
            i <= contributors@.len(),
            out.deep_view() == emails(contributors.deep_view().take(i as int)),
        decreases contributors@.len() - i,
    {
        let email = contributors[i].email.clone();
        proof {
            lemma_deep_view_push(out@, out@.push(email), email);
        }
        out.push(email);
        assert(out.deep_view() =~= emails(contributors.deep_view().take(i + 1)));
        i += 1;
    }
    assert(contributors.deep_view().take(i as int) =~= contributors.deep_view());
    out
}

/// The contribution metrics kept for a path, if any.
fn metrics_of<'a>(contributions: &'a RepoContributions, path: &str) -> (r: Option<&'a FileContribution>)
    ensures
        r.deep_view() == metrics_for(contributions.files.deep_view(), path@),
{
    let ghost files = contributions.files.deep_view();
    assert(Seq::new(files.len(), |k: int| files[k].0) =~= contributions.files.names());
    let r = contributions.files.get(path);
    proof {
        let at = contributions.files.slot(path@);
        crate::views::lemma_first_index_bounds(contributions.files.names(), path@);
        match r {
            Some(found) => {
                assert(files[at].1 == contributions.files.entries@[at].value.deep_view());
                assert(found.deep_view() == files[at].1);
            },
            None => {},
        }
    }
    r
}

/// The row of a file node.
fn file_node(file: &ParsedFile, job_id: &str, repo_id: &str, metrics: Option<&FileContribution>) -> (row:
    Row)
    ensures
        row.deep_view() == file_node_row(file@, job_id@, repo_id@, metrics.deep_view()),
{
    let mut entries = vec![
        text_value("id", file.path.as_str()),
        text_value("path", file.path.as_str()),
        text_value("language", file.language.as_str()),
        text_value("job_id", job_id),
        text_value("repo_id", repo_id),
    ];
    match metrics {
        Some(m) => {
            let date = match format_rfc3339(m.last_modified) {
                Some(date) => date,
                None => String::new(),
            };
            let mut more = vec![
                int_value("commit_count", count_value(m.commit_count)),
                text_value("last_commit_date", date.as_str()),
                text_value("primary_author", m.primary_author.as_str()),
                int_value("lines_changed_total", count_value(m.lines_changed_total)),
                list_value("contributors", contributor_emails(&m.contributors)),
            ];
            entries.append(&mut more);
        },
        None => {},
    }
    let row = row_of(entries);
    assert(row.deep_view() =~= file_node_row(file@, job_id@, repo_id@, metrics.deep_view()));
    row
}

/// The statements that store the file nodes.
pub fn batch_insert_file_nodes(
    job_id: &str,
    repo_id: &str,
    parsed_files: &[ParsedFile],
    git_contributions: Option<&RepoContributions>,
    batch_size: usize,
) -> (plan: Vec<Statement>)
    requires
        batch_size > 0,
    ensures
        plan.deep_view() == batched(
            MERGE_FILES@,
            "Failed to batch insert file nodes"@,
            "nodes"@,
            file_node_rows(
                parsed_files.deep_view(),
                job_id@,
                repo_id@,
                match git_contributions {
                    Some(c) => Some(c.files.deep_view()),
                    None => None,
                },
            ),
            batch_size,
        ),
{
    let mut rows: Vec<Row> = Vec::new();
    let ghost all = parsed_files.deep_view();
    let ghost history = match git_contributions {
        Some(c) => Some(c.files.deep_view()),
        None => None,
    };
    let mut i: usize = 0;
    assert(rows.deep_view() =~= file_node_rows(all.take(0), job_id@, repo_id@, history));
    while i < parsed_files.len()
        invariant
            i <= parsed_files@.len(),
            all == parsed_files.deep_view(),
            history == (match git_contributions {
                Some(c) => Some(c.files.deep_view()),
                None => None,
            }),
            rows.deep_view() == file_node_rows(all.take(i as int), job_id@, repo_id@, history),
        decreases parsed_files@.len() - i,
    {
        let file = &parsed_files[i];
        let metrics = match git_contributions {
            Some(c) => metrics_of(c, file.path.as_str()),
            None => None,
        };
        let row = file_node(file, job_id, repo_id, metrics);
        let ghost before = rows.deep_view();
        proof {
            lemma_deep_view_push(rows@, rows@.push(row), row);
        }
        rows.push(row);
        assert(rows.deep_view() =~= file_node_rows(all.take(i + 1), job_id@, repo_id@, history)) by {
            let target = file_node_rows(all.take(i + 1), job_id@, repo_id@, history);
            assert(all.take(i + 1)[i as int] == file@);
            assert forall|k: int| 0 <= k < target.len() implies rows.deep_view()[k] == target[k] by {
                if k < i {
                    assert(before[k] == file_node_rows(all.take(i as int), job_id@, repo_id@, history)[k]);
                    assert(all.take(i as int)[k] == all.take(i + 1)[k]);
                }
            }
        }
        i += 1;
    }
    assert(all.take(i as int) =~= all);
    batch(MERGE_FILES, "Failed to batch insert file nodes", "nodes", rows, batch_size)
}


// ---------------------------------------------------------------------------
// Classes and functions
// ---------------------------------------------------------------------------

pub const MERGE_CLASSES: &'static str = "UNWIND $nodes AS node
             MERGE (c:Class {id: node.id, repo_id: node.repo_id})
             SET c.name = node.name,
                 c.file = node.file,
                 c.start_line = node.start_line,
                 c.end_line = node.end_line,
                 c.job_id = node.job_id";

pub const MERGE_FUNCTIONS: &'static str = "UNWIND $nodes AS node
             MERGE (fn:Function {id: node.id, repo_id: node.repo_id})
             SET fn.name = node.name,
                 fn.file = node.file,
                 fn.start_line = node.start_line,
                 fn.end_line = node.end_line,
                 fn.params = node.params,
                 fn.return_type = node.return_type,
                 fn.job_id = node.job_id";

/// The rows of the classes of one file.
pub open spec fn class_rows_of(file: ParsedFileModel, job_id: Seq<char>, repo_id: Seq<char>) -> Seq<
    RowModel,
> {
    Seq::new(
        file.classes.len(),
        |i: int|
            class_row(
                file.classes[i].name,
                file.path,
                file.classes[i].start_line,
                file.classes[i].end_line,
                job_id,
                repo_id,
            ),
    )
}

/// The rows of the class nodes, file by file.
pub open spec fn class_node_rows(files: Seq<ParsedFileModel>, job_id: Seq<char>, repo_id: Seq<char>) -> Seq<
    RowModel,
>
    decreases files.len(),
{
    if files.len() == 0 {
        Seq::empty()
    } else {
        class_node_rows(files.drop_last(), job_id, repo_id) + class_rows_of(
            files.last(),
            job_id,
            repo_id,
        )
    }
}

/// The rows of a list of functions of one file.
pub open spec fn function_rows_of(
    functions: Seq<FunctionModel>,
    path: Seq<char>,
    job_id: Seq<char>,
    repo_id: Seq<char>,
) -> Seq<RowModel> {
    Seq::new(functions.len(), |i: int| function_row(functions[i], path, job_id, repo_id))
}

/// The rows of the methods of the classes of one file, class by class.
pub open spec fn method_rows_of(
    classes: Seq<ClassModel>,
    path: Seq<char>,
    job_id: Seq<char>,
    repo_id: Seq<char>,
) -> Seq<RowModel>
    decreases classes.len(),
{
    if classes.len() == 0 {
        Seq::empty()
    } else {
        method_rows_of(classes.drop_last(), path, job_id, repo_id) + function_rows_of(
            classes.last().methods,
            path,
            job_id,
            repo_id,
        )
    }
}

/// The rows of the function nodes: per file its top-level functions, then
/// the methods of its classes.
pub open spec fn function_node_rows(
    files: Seq<ParsedFileModel>,
    job_id: Seq<char>,
    repo_id: Seq<char>,
) -> Seq<RowModel>
    decreases files.len(),
{
    if files.len() == 0 {
        Seq::empty()
    } else {
        function_node_rows(files.drop_last(), job_id, repo_id) + function_rows_of(
            files.last().functions,
            files.last().path,
            job_id,
            repo_id,
        ) + method_rows_of(files.last().classes, files.last().path, job_id, repo_id)
    }
}

/// The rows of a list of functions of one file.
fn function_rows(functions: &Vec<crate::parsers::FunctionInfo>, path: &str, job_id: &str, repo_id: &str) -> (rows:
    Vec<Row>)
    ensures
        rows.deep_view() == function_rows_of(functions.deep_view(), path@, job_id@, repo_id@),
{
    let mut rows: Vec<Row> = Vec::new();
    let mut i: usize = 0;
    while i < functions.len()
        invariant
            i <= functions@.len(),
            rows.deep_view() == function_rows_of(
                functions.deep_view().take(i as int),
                path@,
                job_id@,
                repo_id@,
            ),
        decreases functions@.len() - i,
    {
        let row = function_node_to_map(&functions[i], path, job_id, repo_id);
        proof {
            lemma_deep_view_push(rows@, rows@.push(row), row);
        }
        rows.push(row);
        assert(rows.deep_view() =~= function_rows_of(
            functions.deep_view().take(i + 1),
            path@,
            job_id@,
            repo_id@,
        ));
        i += 1;
    }
    assert(functions.deep_view().take(i as int) =~= functions.deep_view());
    rows
}

/// The statements that store the class nodes.
pub fn batch_insert_class_nodes(job_id: &str, repo_id: &str, parsed_files: &[ParsedFile], batch_size: usize) -> (plan:
    Vec<Statement>)
    requires
        batch_size > 0,
    ensures
        plan.deep_view() == batched(
            MERGE_CLASSES@,
            "Failed to batch insert class nodes"@,
            "nodes"@,
            class_node_rows(parsed_files.deep_view(), job_id@, repo_id@),
            batch_size,
        ),
{
    let mut rows: Vec<Row> = Vec::new();
    let ghost all = parsed_files.deep_view();
    let mut i: usize = 0;
    assert(rows.deep_view() =~= class_node_rows(all.take(0), job_id@, repo_id@));
    while i < parsed_files.len()
        invariant
            i <= parsed_files@.len(),
            all == parsed_files.deep_view(),
            rows.deep_view() == class_node_rows(all.take(i as int), job_id@, repo_id@),
        decreases parsed_files@.len() - i,
    {
        let file = &parsed_files[i];
        let ghost before = rows.deep_view();
        proof {
            assert(all.take(i + 1).drop_last() =~= all.take(i as int));
            assert(all.take(i + 1).last() == file@);
            assert(before + class_rows_of(file@, job_id@, repo_id@).take(0) =~= before);
        }
        let mut k: usize = 0;
        while k < file.classes.len()
            invariant
                k <= file.classes@.len(),
                rows.deep_view() == before + class_rows_of(file@, job_id@, repo_id@).take(k as int),
            decreases file.classes@.len() - k,
        {
            let class = &file.classes[k];
            let row = class_node_to_map(
                class.name.as_str(),
                file.path.as_str(),
                class.start_line,
                class.end_line,
                job_id,
                repo_id,
            );
            proof {
                lemma_deep_view_push(rows@, rows@.push(row), row);
                assert((before + class_rows_of(file@, job_id@, repo_id@).take(k as int)).push(
                    row.deep_view(),
                ) =~= before + class_rows_of(file@, job_id@, repo_id@).take(k + 1));
            }
            rows.push(row);
            k += 1;
        }
        assert(class_rows_of(file@, job_id@, repo_id@).take(k as int) =~= class_rows_of(
            file@,
            job_id@,
            repo_id@,
        ));
        i += 1;
    }
    assert(all.take(i as int) =~= all);
    batch(MERGE_CLASSES, "Failed to batch insert class nodes", "nodes", rows, batch_size)
}

/// The statements that store the function nodes.
pub fn batch_insert_function_nodes(
    job_id: &str,
    repo_id: &str,
    parsed_files: &[ParsedFile],
    batch_size: usize,
) -> (plan: Vec<Statement>)
    requires
        batch_size > 0,
    ensures
        plan.deep_view() == batched(
            MERGE_FUNCTIONS@,
            "Failed to batch insert function nodes"@,
            "nodes"@,
            function_node_rows(parsed_files.deep_view(), job_id@, repo_id@),
            batch_size,
        ),
{
    let mut rows: Vec<Row> = Vec::new();
    let ghost all = parsed_files.deep_view();
    let mut i: usize = 0;
    assert(rows.deep_view() =~= function_node_rows(all.take(0), job_id@, repo_id@));
    while i < parsed_files.len()
        invariant
            i <= parsed_files@.len(),
            all == parsed_files.deep_view(),
            rows.deep_view() == function_node_rows(all.take(i as int), job_id@, repo_id@),
        decreases parsed_files@.len() - i,
    {
        let file = &parsed_files[i];
        proof {
            assert(all.take(i + 1).drop_last() =~= all.take(i as int));
            assert(all.take(i + 1).last() == file@);
        }
        extend_rows(&mut rows, function_rows(&file.functions, file.path.as_str(), job_id, repo_id));
        let ghost before = rows.deep_view();
        let ghost classes = file@.classes;
        let mut k: usize = 0;
        assert(before + method_rows_of(classes.take(0), file.path@, job_id@, repo_id@) =~= before);
        while k < file.classes.len()
            invariant
                k <= file.classes@.len(),
                classes == file.classes.deep_view(),
                rows.deep_view() == before + method_rows_of(
                    classes.take(k as int),
                    file.path@,
                    job_id@,
                    repo_id@,
                ),
            decreases file.classes@.len() - k,
        {
            proof {
                assert(classes.take(k + 1).drop_last() =~= classes.take(k as int));
                assert(classes.take(k + 1).last() == file.classes[k as int]@);
            }
            extend_rows(
                &mut rows,
                function_rows(&file.classes[k].methods, file.path.as_str(), job_id, repo_id),
            );
            assert(rows.deep_view() =~= before + method_rows_of(
                classes.take(k + 1),
                file.path@,
                job_id@,
                repo_id@,
            ));
            k += 1;
        }
        assert(classes.take(k as int) =~= classes);
        i += 1;
    }
    assert(all.take(i as int) =~= all);
    batch(MERGE_FUNCTIONS, "Failed to batch insert function nodes", "nodes", rows, batch_size)
}

// ---------------------------------------------------------------------------
// Modules, boundaries, libraries
// ---------------------------------------------------------------------------

pub const MERGE_MODULES: &'static str = "UNWIND $nodes AS node
             MERGE (m:Module {name: node.name, repo_id: node.repo_id})
             SET m.job_id = node.job_id";

pub const MERGE_BOUNDARIES: &'static str = "UNWIND $nodes AS node
             MERGE (b:Boundary {id: node.id, repo_id: node.repo_id})
             SET b.name = node.name,
                 b.type = node.type,
                 b.path = node.path,
                 b.job_id = node.job_id,
                 b.file_count = node.file_count,
                 b.layer = COALESCE(node.layer, '')";

pub const MERGE_LIBRARIES: &'static str = "UNWIND $nodes AS node
             MERGE (l:Library {name: node.name, repo_id: node.repo_id})
             SET l.version = CASE WHEN node.version <> '' THEN node.version ELSE l.version END,
                 l.source_file = node.source_file,
                 l.job_id = node.job_id";

/// The row of a module node.
pub open spec fn module_node_row(name: Seq<char>, job_id: Seq<char>, repo_id: Seq<char>) -> RowModel {
    seq![
        ("name"@, ValueModel::Text(name)),
        ("job_id"@, ValueModel::Text(job_id)),
        ("repo_id"@, ValueModel::Text(repo_id)),
    ]
}

/// The rows of the module nodes: one for each module among the nodes of the
/// graph.
pub open spec fn module_node_rows(nodes: Seq<NodeKey>, job_id: Seq<char>, repo_id: Seq<char>) -> Seq<
    RowModel,
>
    decreases nodes.len(),
{
    if nodes.len() == 0 {
        Seq::empty()
    } else {
        match nodes.last() {
            NodeKey::Module(name) => module_node_rows(nodes.drop_last(), job_id, repo_id).push(
                module_node_row(name, job_id, repo_id),
            ),
            _ => module_node_rows(nodes.drop_last(), job_id, repo_id),
        }
    }
}

/// The statements that store the module nodes.
pub fn batch_insert_module_nodes(job_id: &str, repo_id: &str, dep_graph: &DependencyGraph, batch_size: usize) -> (plan:
    Vec<Statement>)
    requires
        batch_size > 0,
    ensures
        plan.deep_view() == batched(
            MERGE_MODULES@,
            "Failed to batch insert module nodes"@,
            "nodes"@,
            module_node_rows(dep_graph@.nodes, job_id@, repo_id@),
            batch_size,
        ),
{
    let mut rows: Vec<Row> = Vec::new();
    let ghost all = dep_graph@.nodes;
    let mut i: usize = 0;
    assert(rows.deep_view() =~= module_node_rows(all.take(0), job_id@, repo_id@));
    while i < dep_graph.nodes.len()
        invariant
            i <= dep_graph.nodes@.len(),
            all == dep_graph.nodes.deep_view(),
            rows.deep_view() == module_node_rows(all.take(i as int), job_id@, repo_id@),
        decreases dep_graph.nodes@.len() - i,
    {
        proof {
            assert(all.take(i + 1).drop_last() =~= all.take(i as int));
            assert(all.take(i + 1).last() == dep_graph.nodes[i as int]@);
        }
        match &dep_graph.nodes[i] {
            NodeId::Module(name) => {
                let row = row_of(
                    vec![
                        text_value("name", name.as_str()),
                        text_value("job_id", job_id),
                        text_value("repo_id", repo_id),
                    ],
                );
                assert(row.deep_view() =~= module_node_row(name@, job_id@, repo_id@));
                proof {
                    lemma_deep_view_push(rows@, rows@.push(row), row);
                }
                rows.push(row);
            },
            _ => {},
        }
        i += 1;
    }
    assert(all.take(i as int) =~= all);
    batch(MERGE_MODULES, "Failed to batch insert module nodes", "nodes", rows, batch_size)
}

/// The row of a boundary node; the layer is a property only where the
/// boundary has one.
pub open spec fn boundary_row(b: BoundaryModel, job_id: Seq<char>, repo_id: Seq<char>) -> RowModel {
    seq![
        ("id"@, ValueModel::Text(b.id)),
        ("name"@, ValueModel::Text(b.name)),
        ("type"@, ValueModel::Text(b.boundary_type.label())),
        ("path"@, ValueModel::Text(b.path)),
        ("job_id"@, ValueModel::Text(job_id)),
        ("repo_id"@, ValueModel::Text(repo_id)),
        ("file_count"@, ValueModel::Int(stored_count(b.file_count))),
    ] + (match b.layer {
        Some(layer) => seq![("layer"@, ValueModel::Text(layer.label()))],
        None => Seq::empty(),
    })
}

/// The rows of the boundary nodes.
pub open spec fn boundary_rows(boundaries: Seq<BoundaryModel>, job_id: Seq<char>, repo_id: Seq<char>) -> Seq<
    RowModel,
> {
    Seq::new(boundaries.len(), |i: int| boundary_row(boundaries[i], job_id, repo_id))
}

/// The statements that store the boundary nodes.
pub fn batch_insert_boundary_nodes(
    job_id: &str,
    repo_id: &str,
    boundary_result: &BoundaryDetectionResult,
    batch_size: usize,
) -> (plan: Vec<Statement>)
    requires
        batch_size > 0,
    ensures
        plan.deep_view() == batched(
            MERGE_BOUNDARIES@,
            "Failed to batch insert boundary nodes"@,
            "nodes"@,
            boundary_rows(boundary_result.boundaries.deep_view(), job_id@, repo_id@),
            batch_size,
        ),
{
    let mut rows: Vec<Row> = Vec::new();
    let ghost all = boundary_result.boundaries.deep_view();
    let mut i: usize = 0;
    assert(rows.deep_view() =~= boundary_rows(all.take(0), job_id@, repo_id@));
    while i < boundary_result.boundaries.len()
        invariant
            i <= boundary_result.boundaries@.len(),
            all == boundary_result.boundaries.deep_view(),
            rows.deep_view() == boundary_rows(all.take(i as int), job_id@, repo_id@),
        decreases boundary_result.boundaries@.len() - i,
    {
        let b = &boundary_result.boundaries[i];
        let mut entries = vec![
            text_value("id", b.id.as_str()),
            text_value("name", b.name.as_str()),
            text_value("type", b.boundary_type.as_str()),
            text_value("path", b.path.as_str()),
            text_value("job_id", job_id),
            text_value("repo_id", repo_id),
            int_value("file_count", count_value(b.file_count)),
        ];
        match &b.layer {
            Some(layer) => {
                entries.push(text_value("layer", layer.as_str()));
            },
            None => {},
        }
        let row = row_of(entries);
        assert(row.deep_view() =~= boundary_row(b@, job_id@, repo_id@));
        proof {
            lemma_deep_view_push(rows@, rows@.push(row), row);
        }
        rows.push(row);
        assert(rows.deep_view() =~= boundary_rows(all.take(i + 1), job_id@, repo_id@));
        i += 1;
    }
    assert(all.take(i as int) =~= all);
    batch(MERGE_BOUNDARIES, "Failed to batch insert boundary nodes", "nodes", rows, batch_size)
}

/// The row of a library node; a library without version has the empty one.
pub open spec fn library_row(dep: LibraryModel, job_id: Seq<char>, repo_id: Seq<char>) -> RowModel {
    seq![
        ("name"@, ValueModel::Text(dep.name)),
        (
            "version"@,
            ValueModel::Text(
                match dep.version {
                    Some(v) => v,
                    None => Seq::empty(),
                },
            ),
        ),
        ("source_file"@, ValueModel::Text(dep.source_file)),
        ("job_id"@, ValueModel::Text(job_id)),
        ("repo_id"@, ValueModel::Text(repo_id)),
    ]
}

/// The rows of the library nodes.
pub open spec fn library_rows(deps: Seq<LibraryModel>, job_id: Seq<char>, repo_id: Seq<char>) -> Seq<
    RowModel,
> {
    Seq::new(deps.len(), |i: int| library_row(deps[i], job_id, repo_id))
}

/// The version of a library, empty when it has none.
pub fn version_text(dep: &LibraryDependency) -> (v: String)
    ensures
        v@ == (match dep@.version {
            Some(v) => v,
            None => Seq::empty(),
        }),
{
    match &dep.version {
        Some(v) => v.clone(),
        None => String::new(),
    }
}

/// The statements that store the library nodes.
pub fn batch_insert_library_nodes(
    job_id: &str,
    repo_id: &str,
    library_dependencies: &[LibraryDependency],
    batch_size: usize,
) -> (plan: Vec<Statement>)
    requires
        batch_size > 0,
    ensures
        plan.deep_view() == batched(
            MERGE_LIBRARIES@,
            "Failed to batch insert library nodes"@,
            "nodes"@,
            library_rows(library_dependencies.deep_view(), job_id@, repo_id@),
            batch_size,
        ),
{
    let mut rows: Vec<Row> = Vec::new();
    let ghost all = library_dependencies.deep_view();
    let mut i: usize = 0;
    assert(rows.deep_view() =~= library_rows(all.take(0), job_id@, repo_id@));
    while i < library_dependencies.len()
        invariant
            i <= library_dependencies@.len(),
            all == library_dependencies.deep_view(),
            rows.deep_view() == library_rows(all.take(i as int), job_id@, repo_id@),
        decreases library_dependencies@.len() - i,
    {
        let dep = &library_dependencies[i];
        let version = version_text(dep);
        let row = row_of(
            vec![
                text_value("name", dep.name.as_str()),
                text_value("version", version.as_str()),
                text_value("source_file", dep.source_file.as_str()),
                text_value("job_id", job_id),
                text_value("repo_id", repo_id),
            ],
        );
        assert(row.deep_view() =~= library_row(dep@, job_id@, repo_id@));
        proof {
            lemma_deep_view_push(rows@, rows@.push(row), row);
        }
        rows.push(row);
        assert(rows.deep_view() =~= library_rows(all.take(i + 1), job_id@, repo_id@));
        i += 1;
    }
    assert(all.take(i as int) =~= all);
    batch(MERGE_LIBRARIES, "Failed to batch insert library nodes", "nodes", rows, batch_size)
}


// ---------------------------------------------------------------------------
// Nodes that are stored once per key
// ---------------------------------------------------------------------------

/// The keys of keyed rows, in order.
pub open spec fn keys_of(keyed: Seq<(Seq<char>, RowModel)>) -> Seq<Seq<char>> {
    Seq::new(keyed.len(), |i: int| keyed[i].0)
}

/// The rows whose key has not occurred before, in order.
pub open spec fn first_rows(keyed: Seq<(Seq<char>, RowModel)>) -> Seq<RowModel>
    decreases keyed.len(),
{
    if keyed.len() == 0 {
        Seq::empty()
    } else if keys_of(keyed.drop_last()).contains(keyed.last().0) {
        first_rows(keyed.drop_last())
    } else {
        first_rows(keyed.drop_last()).push(keyed.last().1)
    }
}

/// Rows collected once per key.
pub(crate) struct KeyedRows {
    pub seen: Vec<String>,
    pub rows: Vec<Row>,
}

impl KeyedRows {
    /// The collection holds the first rows of `keyed` and has seen its keys.
    pub(crate) open spec fn holds(&self, keyed: Seq<(Seq<char>, RowModel)>) -> bool {
        &&& self.rows.deep_view() == first_rows(keyed)
        &&& forall|key: Seq<char>|
            self.seen.deep_view().contains(key) <==> keys_of(keyed).contains(key)
    }

    /// An empty collection.
    pub(crate) fn new() -> (r: Self)
        ensures
            r.holds(Seq::empty()),
    {
        let r = KeyedRows { seen: Vec::new(), rows: Vec::new() };
        assert(r.rows.deep_view() =~= Seq::empty());
        assert forall|key: Seq<char>|
            r.seen.deep_view().contains(key) <==> keys_of(Seq::empty()).contains(key) by {
            if r.seen.deep_view().contains(key) {
                let i = choose|i: int| 0 <= i < r.seen.deep_view().len() && r.seen.deep_view()[i] == key;
            }
            if keys_of(Seq::empty()).contains(key) {
                let i = choose|i: int|
                    0 <= i < keys_of(Seq::empty()).len() && keys_of(Seq::empty())[i] == key;
            }
        }
        r
    }

    /// Adds the row unless a row with the same key has been offered before.
    pub(crate) fn offer(&mut self, key: String, row: Row, Ghost(keyed): Ghost<Seq<(Seq<char>, RowModel)>>)
        requires
            old(self).holds(keyed),
        ensures
            final(self).holds(keyed.push((key@, row.deep_view()))),
    {
        let ghost grown = keyed.push((key@, row.deep_view()));
        let ghost old_seen = self.seen.deep_view();
        assert(grown.drop_last() =~= keyed);
        assert(keys_of(grown) =~= keys_of(keyed).push(key@));
        if !holds(&self.seen, key.as_str()) {
            proof {
                lemma_deep_view_push(self.seen@, self.seen@.push(key), key);
                lemma_deep_view_push(self.rows@, self.rows@.push(row), row);
            }
            self.seen.push(key);
            self.rows.push(row);
        }
        proof {
            assert forall|k: Seq<char>|
                self.seen.deep_view().contains(k) <==> keys_of(grown).contains(k) by {
                crate::graph_laws::lemma_push_contains(keys_of(keyed), key@, k);
                crate::graph_laws::lemma_push_contains(old_seen, key@, k);
            }
        }
    }
}

pub const MERGE_TABLES: &'static str = "UNWIND $nodes AS node
             MERGE (t:Table {name: node.name, repo_id: node.repo_id})";

pub const MERGE_SERVICES: &'static str = "UNWIND $nodes AS node
             MERGE (s:Service {name: node.name, protocol: node.protocol, repo_id: node.repo_id})";

pub const MERGE_ENDPOINTS: &'static str = "UNWIND $nodes AS node
             MERGE (e:Endpoint {url: node.url, method: node.method, repo_id: node.repo_id})
             SET e.host = node.host";

pub const MERGE_RPC_SERVICES: &'static str = "UNWIND $nodes AS node
             MERGE (r:RpcService {name: node.name, repo_id: node.repo_id})";

pub const MERGE_QUEUES: &'static str = "UNWIND $nodes AS node
             MERGE (q:MessageQueue {topic: node.topic, repo_id: node.repo_id})";

pub const MERGE_COMPOSE_SERVICES: &'static str = "UNWIND $nodes AS node
             MERGE (s:ComposeService {name: node.name, repo_id: node.repo_id})
             SET s.ports = node.ports";

/// A row that names something within a repository.
pub open spec fn named_row(label: Seq<char>, name: Seq<char>, repo_id: Seq<char>) -> RowModel {
    seq![(label, ValueModel::Text(name)), ("repo_id"@, ValueModel::Text(repo_id))]
}

/// A row that names something within a repository.
pub fn named(label: &str, name: &str, repo_id: &str) -> (row: Row)
    ensures
        row.deep_view() == named_row(label@, name@, repo_id@),
{
    let row = row_of(vec![text_value(label, name), text_value("repo_id", repo_id)]);
    assert(row.deep_view() =~= named_row(label@, name@, repo_id@));
    row
}

/// Every data table the files refer to, keyed by its name.
pub open spec fn keyed_tables(files: Seq<ParsedFileModel>, repo_id: Seq<char>) -> Seq<
    (Seq<char>, RowModel),
>
    decreases files.len(),
{
    if files.len() == 0 {
        Seq::empty()
    } else {
        keyed_tables(files.drop_last(), repo_id) + Seq::new(
            files.last().data_tables.len(),
            |i: int|
                (files.last().data_tables[i], named_row("name"@, files.last().data_tables[i], repo_id)),
        )
    }
}

/// The statements that store the table nodes: one node per table name.
pub fn batch_insert_table_nodes(repo_id: &str, parsed_files: &[ParsedFile], batch_size: usize) -> (plan:
    Vec<Statement>)
    requires
        batch_size > 0,
    ensures
        plan.deep_view() == batched(
            MERGE_TABLES@,
            "Failed to batch insert table nodes"@,
            "nodes"@,
            first_rows(keyed_tables(parsed_files.deep_view(), repo_id@)),
            batch_size,
        ),
{
    let mut found = KeyedRows::new();
    let ghost all = parsed_files.deep_view();
    let mut i: usize = 0;
    while i < parsed_files.len()
        invariant
            i <= parsed_files@.len(),
            all == parsed_files.deep_view(),
            found.holds(keyed_tables(all.take(i as int), repo_id@)),
        decreases parsed_files@.len() - i,
    {
        let file = &parsed_files[i];
        let ghost before = keyed_tables(all.take(i as int), repo_id@);
        let ghost own = Seq::new(
            file@.data_tables.len(),
            |k: int| (file@.data_tables[k], named_row("name"@, file@.data_tables[k], repo_id@)),
        );
        proof {
            assert(all.take(i + 1).drop_last() =~= all.take(i as int));
            assert(all.take(i + 1).last() == file@);
            assert(before + own.take(0) =~= before);
        }
        let mut k: usize = 0;
        while k < file.data_tables.len()
            invariant
                k <= file.data_tables@.len(),
                own.len() == file.data_tables@.len(),
                forall|j: int|
                    0 <= j < own.len() ==> own[j] == (
                        file.data_tables.deep_view()[j],
                        named_row("name"@, file.data_tables.deep_view()[j], repo_id@),
                    ),
                found.holds(before + own.take(k as int)),
            decreases file.data_tables@.len() - k,
        {
            let table = &file.data_tables[k];
            assert((before + own.take(k as int)).push(own[k as int]) =~= before + own.take(k + 1));
            found.offer(
                table.clone(),
                named("name", table.as_str(), repo_id),
                Ghost(before + own.take(k as int)),
            );
            k += 1;
        }
        assert(own.take(k as int) =~= own);
        i += 1;
    }
    assert(all.take(i as int) =~= all);
    batch(MERGE_TABLES, "Failed to batch insert table nodes", "nodes", found.rows, batch_size)
}

/// The key of a service: its protocol, `::`, its target.
pub open spec fn service_key(s: ServiceCallModel) -> Seq<char> {
    s.protocol + "::"@ + s.target
}

/// The row of a service node.
pub open spec fn service_row(s: ServiceCallModel, repo_id: Seq<char>) -> RowModel {
    seq![
        ("name"@, ValueModel::Text(s.target)),
        ("protocol"@, ValueModel::Text(s.protocol)),
        ("repo_id"@, ValueModel::Text(repo_id)),
    ]
}

/// Every service the files call, keyed.
pub open spec fn keyed_services(files: Seq<ParsedFileModel>, repo_id: Seq<char>) -> Seq<
    (Seq<char>, RowModel),
>
    decreases files.len(),
{
    if files.len() == 0 {
        Seq::empty()
    } else {
        keyed_services(files.drop_last(), repo_id) + Seq::new(
            files.last().service_calls.len(),
            |i: int|
                (
                    service_key(files.last().service_calls[i]),
                    service_row(files.last().service_calls[i], repo_id),
                ),
        )
    }
}

/// The statements that store the service nodes: one node per protocol and
/// target.
pub fn batch_insert_service_nodes(repo_id: &str, parsed_files: &[ParsedFile], batch_size: usize) -> (plan:
    Vec<Statement>)
    requires
        batch_size > 0,
    ensures
        plan.deep_view() == batched(
            MERGE_SERVICES@,
            "Failed to batch insert service nodes"@,
            "nodes"@,
            first_rows(keyed_services(parsed_files.deep_view(), repo_id@)),
            batch_size,
        ),
{
    let mut found = KeyedRows::new();
    let ghost all = parsed_files.deep_view();
    let mut i: usize = 0;
    while i < parsed_files.len()
        invariant
            i <= parsed_files@.len(),
            all == parsed_files.deep_view(),
            found.holds(keyed_services(all.take(i as int), repo_id@)),
        decreases parsed_files@.len() - i,
    {
        let file = &parsed_files[i];
        let ghost before = keyed_services(all.take(i as int), repo_id@);
        let ghost own = Seq::new(
            file@.service_calls.len(),
            |k: int|
                (service_key(file@.service_calls[k]), service_row(file@.service_calls[k], repo_id@)),
        );
        proof {
            assert(all.take(i + 1).drop_last() =~= all.take(i as int));
            assert(all.take(i + 1).last() == file@);
            assert(before + own.take(0) =~= before);
        }
        let mut k: usize = 0;
        while k < file.service_calls.len()
            invariant
                k <= file.service_calls@.len(),
                own.len() == file.service_calls@.len(),
                forall|j: int|
                    0 <= j < own.len() ==> own[j] == (
                        service_key(file.service_calls.deep_view()[j]),
                        service_row(file.service_calls.deep_view()[j], repo_id@),
                    ),
                found.holds(before + own.take(k as int)),
            decreases file.service_calls@.len() - k,
        {
            let service = &file.service_calls[k];
            let row = row_of(
                vec![
                    text_value("name", service.target.as_str()),
                    text_value("protocol", service.protocol.as_str()),
                    text_value("repo_id", repo_id),
                ],
            );
            assert(row.deep_view() =~= service_row(service@, repo_id@));
            assert((before + own.take(k as int)).push(own[k as int]) =~= before + own.take(k + 1));
            found.offer(
                join3(service.protocol.as_str(), "::", service.target.as_str()),
                row,
                Ghost(before + own.take(k as int)),
            );
            k += 1;
        }
        assert(own.take(k as int) =~= own);
        i += 1;
    }
    assert(all.take(i as int) =~= all);
    batch(MERGE_SERVICES, "Failed to batch insert service nodes", "nodes", found.rows, batch_size)
}

/// The row of an endpoint node; an endpoint without host has the empty one.
pub open spec fn endpoint_row(e: EndpointModel, repo_id: Seq<char>) -> RowModel {
    seq![
        ("url"@, ValueModel::Text(e.url)),
        ("method"@, ValueModel::Text(e.method)),
        (
            "host"@,
            ValueModel::Text(
                match e.host {
                    Some(h) => h,
                    None => Seq::empty(),
                },
            ),
        ),
        ("repo_id"@, ValueModel::Text(repo_id)),
    ]
}

/// The endpoints, keyed by method, `::` and URL.
pub open spec fn keyed_endpoints(endpoints: Seq<EndpointModel>, repo_id: Seq<char>) -> Seq<
    (Seq<char>, RowModel),
> {
    Seq::new(
        endpoints.len(),
        |i: int| (endpoints[i].method + "::"@ + endpoints[i].url, endpoint_row(endpoints[i], repo_id)),
    )
}

/// The statements that store the endpoint nodes: one node per method and
/// URL.
pub fn batch_insert_endpoint_nodes(
    repo_id: &str,
    communication_analysis: &CommunicationAnalysis,
    batch_size: usize,
) -> (plan: Vec<Statement>)
    requires
        batch_size > 0,
    ensures
        plan.deep_view() == batched(
            MERGE_ENDPOINTS@,
            "Failed to batch insert Endpoint nodes"@,
            "nodes"@,
            first_rows(keyed_endpoints(communication_analysis.endpoints.deep_view(), repo_id@)),
            batch_size,
        ),
{
    let mut found = KeyedRows::new();
    let ghost all = keyed_endpoints(communication_analysis.endpoints.deep_view(), repo_id@);
    let mut i: usize = 0;
    assert(all.take(0) =~= Seq::empty());
    while i < communication_analysis.endpoints.len()
        invariant
            i <= communication_analysis.endpoints@.len(),
            all == keyed_endpoints(communication_analysis.endpoints.deep_view(), repo_id@),
            found.holds(all.take(i as int)),
        decreases communication_analysis.endpoints@.len() - i,
    {
        let endpoint = &communication_analysis.endpoints[i];
        let host = match &endpoint.host {
            Some(h) => h.clone(),
            None => String::new(),
        };
        let row = row_of(
            vec![
                text_value("url", endpoint.url.as_str()),
                text_value("method", endpoint.method.as_str()),
                text_value("host", host.as_str()),
                text_value("repo_id", repo_id),
            ],
        );
        assert(row.deep_view() =~= endpoint_row(endpoint@, repo_id@));
        assert(all.take(i as int).push(all[i as int]) =~= all.take(i + 1));
        found.offer(
            join3(endpoint.method.as_str(), "::", endpoint.url.as_str()),
            row,
            Ghost(all.take(i as int)),
        );
        i += 1;
    }
    assert(all.take(i as int) =~= all);
    batch(MERGE_ENDPOINTS, "Failed to batch insert Endpoint nodes", "nodes", found.rows, batch_size)
}

/// The RPC services, keyed by name.
pub open spec fn keyed_rpcs(rpcs: Seq<RpcModel>, repo_id: Seq<char>) -> Seq<(Seq<char>, RowModel)> {
    Seq::new(
        rpcs.len(),
        |i: int| (rpcs[i].service_name, named_row("name"@, rpcs[i].service_name, repo_id)),
    )
}

/// The statements that store the RPC service nodes: one node per name.
pub fn batch_insert_rpc_nodes(
    repo_id: &str,
    communication_analysis: &CommunicationAnalysis,
    batch_size: usize,
) -> (plan: Vec<Statement>)
    requires
        batch_size > 0,
    ensures
        plan.deep_view() == batched(
            MERGE_RPC_SERVICES@,
            "Failed to batch insert RpcService nodes"@,
            "nodes"@,
            first_rows(keyed_rpcs(communication_analysis.rpc_services.deep_view(), repo_id@)),
            batch_size,
        ),
{
    let mut found = KeyedRows::new();
    let ghost all = keyed_rpcs(communication_analysis.rpc_services.deep_view(), repo_id@);
    let mut i: usize = 0;
    assert(all.take(0) =~= Seq::empty());
    while i < communication_analysis.rpc_services.len()
        invariant
            i <= communication_analysis.rpc_services@.len(),
            all == keyed_rpcs(communication_analysis.rpc_services.deep_view(), repo_id@),
            found.holds(all.take(i as int)),
        decreases communication_analysis.rpc_services@.len() - i,
    {
        let rpc = &communication_analysis.rpc_services[i];
        assert(all.take(i as int).push(all[i as int]) =~= all.take(i + 1));
        found.offer(
            rpc.service_name.clone(),
            named("name", rpc.service_name.as_str(), repo_id),
            Ghost(all.take(i as int)),
        );
        i += 1;
    }
    assert(all.take(i as int) =~= all);
    batch(MERGE_RPC_SERVICES, "Failed to batch insert RpcService nodes", "nodes", found.rows, batch_size)
}

/// The queues, keyed by topic.
pub open spec fn keyed_queues(queues: Seq<QueueModel>, repo_id: Seq<char>) -> Seq<(Seq<char>, RowModel)> {
    Seq::new(queues.len(), |i: int| (queues[i].topic, named_row("topic"@, queues[i].topic, repo_id)))
}

/// The statements that store the queue nodes: one node per topic.
pub fn batch_insert_queue_nodes(
    repo_id: &str,
    communication_analysis: &CommunicationAnalysis,
    batch_size: usize,
) -> (plan: Vec<Statement>)
    requires
        batch_size > 0,
    ensures
        plan.deep_view() == batched(
            MERGE_QUEUES@,
            "Failed to batch insert MessageQueue nodes"@,
            "nodes"@,
            first_rows(keyed_queues(communication_analysis.queues.deep_view(), repo_id@)),
            batch_size,
        ),
{
    let mut found = KeyedRows::new();
    let ghost all = keyed_queues(communication_analysis.queues.deep_view(), repo_id@);
    let mut i: usize = 0;
    assert(all.take(0) =~= Seq::empty());
    while i < communication_analysis.queues.len()
        invariant
            i <= communication_analysis.queues@.len(),
            all == keyed_queues(communication_analysis.queues.deep_view(), repo_id@),
            found.holds(all.take(i as int)),
        decreases communication_analysis.queues@.len() - i,
    {
        let queue = &communication_analysis.queues[i];
        assert(all.take(i as int).push(all[i as int]) =~= all.take(i + 1));
        found.offer(
            queue.topic.clone(),
            named("topic", queue.topic.as_str(), repo_id),
            Ghost(all.take(i as int)),
        );
        i += 1;
    }
    assert(all.take(i as int) =~= all);
    batch(MERGE_QUEUES, "Failed to batch insert MessageQueue nodes", "nodes", found.rows, batch_size)
}

/// The row of a compose service node.
pub open spec fn compose_row(s: ComposeModel, repo_id: Seq<char>) -> RowModel {
    seq![
        ("name"@, ValueModel::Text(s.name)),
        ("ports"@, ValueModel::List(s.ports)),
        ("repo_id"@, ValueModel::Text(repo_id)),
    ]
}

/// The rows of the compose service nodes.
pub open spec fn compose_rows(services: Seq<ComposeModel>, repo_id: Seq<char>) -> Seq<RowModel> {
    Seq::new(services.len(), |i: int| compose_row(services[i], repo_id))
}

/// The statements that store the compose service nodes.
pub fn batch_insert_compose_service_nodes(
    repo_id: &str,
    communication_analysis: &CommunicationAnalysis,
    batch_size: usize,
) -> (plan: Vec<Statement>)
    requires
        batch_size > 0,
    ensures
        plan.deep_view() == batched(
            MERGE_COMPOSE_SERVICES@,
            "Failed to batch insert ComposeService nodes"@,
            "nodes"@,
            compose_rows(communication_analysis.compose_services.deep_view(), repo_id@),
            batch_size,
        ),
{
    let mut rows: Vec<Row> = Vec::new();
    let ghost all = communication_analysis.compose_services.deep_view();
    let mut i: usize = 0;
    assert(rows.deep_view() =~= compose_rows(all.take(0), repo_id@));
    while i < communication_analysis.compose_services.len()
        invariant
            i <= communication_analysis.compose_services@.len(),
            all == communication_analysis.compose_services.deep_view(),
            rows.deep_view() == compose_rows(all.take(i as int), repo_id@),
        decreases communication_analysis.compose_services@.len() - i,
    {
        let service = &communication_analysis.compose_services[i];
        let ports = service.ports.clone();
        assert(ports.deep_view() =~= service.ports.deep_view());
        let row = row_of(
            vec![
                text_value("name", service.name.as_str()),
                list_value("ports", ports),
                text_value("repo_id", repo_id),
            ],
        );
        assert(row.deep_view() =~= compose_row(service@, repo_id@));
        proof {
            lemma_deep_view_push(rows@, rows@.push(row), row);
        }
        rows.push(row);
        assert(rows.deep_view() =~= compose_rows(all.take(i + 1), repo_id@));
        i += 1;
    }
    assert(all.take(i as int) =~= all);
    batch(
        MERGE_COMPOSE_SERVICES,
        "Failed to batch insert ComposeService nodes",
        "nodes",
        rows,
        batch_size,
    )
}

} // verus!
