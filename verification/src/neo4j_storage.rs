//! The write plan for the graph store.
//!
//! Nothing here talks to a database. The functions of this module turn the
//! results of an analysis into the ordered list of statements that store
//! them: one parameterised `UNWIND .. MERGE` statement per batch of rows.
//! Whoever runs the plan runs it inside one transaction as the module
//! `transaction` says: in order, with one commit after the last statement,
//! or one rollback after the first failure.

use vstd::prelude::*;
use crate::name_map::{Entry, NameMap};
use crate::parsers::{FunctionInfo, FunctionModel};
use crate::text::join3;
use crate::boundary_detector::{BoundaryDetectionResult, BoundaryModel};
use crate::communication_detector::CommunicationAnalysis;
use crate::dependency_metadata::{LibraryDependency, LibraryModel};
use crate::git_analyzer::{FileContributionModel, RepoContributions};
use crate::graph_builder::{DependencyGraph, GraphModel};
use crate::parsers::{ParsedFile, ParsedFileModel};
use crate::storage_edges::{
    batch_insert_belongs_to_edges, batch_insert_calls_edges, batch_insert_contains_edges,
    batch_insert_defines_edges, batch_insert_endpoint_edges, batch_insert_endpoint_service_edges,
    batch_insert_file_dependencies, batch_insert_imports_edges, batch_insert_inherits_edges,
    batch_insert_library_edges, batch_insert_queue_edges, batch_insert_rpc_edges,
    batch_insert_service_edges, batch_insert_table_edges, belongs_to_rows, compose_names,
    defines_statements, dependency_rows, edge_rows, endpoint_edge_rows, exposure_rows,
    inherits_statements, library_edge_rows, queue_statements, rpc_edge_rows, service_edge_rows,
    table_edge_rows, EdgeShape, MERGE_BELONGS_TO, MERGE_CALLS, MERGE_CALLS_ENDPOINT,
    MERGE_CALLS_RPC, MERGE_CALLS_SERVICE, MERGE_CONTAINS, MERGE_DEPENDS_ON_FILE,
    MERGE_DEPENDS_ON_LIBRARY, MERGE_EXPOSED_BY, MERGE_IMPORTS, MERGE_USES_TABLE,
};
use crate::storage_nodes::{
    batch_insert_boundary_nodes, batch_insert_class_nodes, batch_insert_compose_service_nodes,
    batch_insert_endpoint_nodes, batch_insert_file_nodes, batch_insert_function_nodes,
    batch_insert_library_nodes, batch_insert_module_nodes, batch_insert_queue_nodes,
    batch_insert_rpc_nodes, batch_insert_service_nodes, batch_insert_table_nodes, boundary_rows,
    class_node_rows, compose_rows, create_job_node, file_node_rows, first_rows,
    function_node_rows, job_statement, keyed_endpoints, keyed_queues, keyed_rpcs, keyed_services,
    keyed_tables, library_rows, module_node_rows, MERGE_BOUNDARIES, MERGE_CLASSES,
    MERGE_COMPOSE_SERVICES, MERGE_ENDPOINTS, MERGE_FILES, MERGE_FUNCTIONS, MERGE_LIBRARIES,
    MERGE_MODULES, MERGE_QUEUES, MERGE_RPC_SERVICES, MERGE_SERVICES, MERGE_TABLES,
};
use crate::text::distinct;
use crate::views::{lemma_deep_view_concat, lemma_deep_view_push};

verus! {

/// Number of rows a statement carries unless the caller says otherwise.
pub const DEFAULT_BATCH_SIZE: usize = 500;

/// How the plan is cut into statements.
#[derive(Debug, Clone, Copy, PartialEq, Eq)]
pub struct BatchConfig {
    pub batch_size: usize,
}

impl Default for BatchConfig {
    fn default() -> (config: Self)
        ensures
            config.batch_size == DEFAULT_BATCH_SIZE,
    {
        BatchConfig { batch_size: DEFAULT_BATCH_SIZE }
    }
}

/// A property value of a row.
#[derive(Debug)]
pub enum Value {
    Text(String),
    Int(i64),
    List(Vec<String>),
}

/// Mathematical value of a [`Value`].
pub enum ValueModel {
    Text(Seq<char>),
    Int(i64),
    List(Seq<Seq<char>>),
}

impl View for Value {
    type V = ValueModel;

    open spec fn view(&self) -> ValueModel {
        match self {
            Value::Text(t) => ValueModel::Text(t@),
            Value::Int(n) => ValueModel::Int(*n),
            Value::List(l) => ValueModel::List(l.deep_view()),
        }
    }
}

impl DeepView for Value {
    type V = ValueModel;

    open spec fn deep_view(&self) -> ValueModel {
        self@
    }
}

impl Clone for Value {
    fn clone(&self) -> (r: Self)
        ensures
            r@ == self@,
    {
        match self {
            Value::Text(t) => Value::Text(t.clone()),
            Value::Int(n) => Value::Int(*n),
            Value::List(l) => {
                let copy = l.clone();
                assert(copy.deep_view() =~= l.deep_view());
                Value::List(copy)
            },
        }
    }
}

/// A row of a statement: property names with their values, in order.
pub type Row = NameMap<Value>;

/// Mathematical value of a [`Row`].
pub type RowModel = Seq<(Seq<char>, ValueModel)>;

/// A text property.
pub fn text(key: &str, value: &str) -> (e: Entry<String>)
    ensures
        e.name@ == key@,
        e.value@ == value@,
{
    Entry { name: key.to_string(), value: value.to_string() }
}

/// The persistent id of a class or function: the path of its file, `::`,
/// its name.
pub open spec fn qualified_id(file_path: Seq<char>, name: Seq<char>) -> Seq<char> {
    file_path + "::"@ + name
}

/// The persistent id of a class or function.
pub fn get_qualified_id(file_path: &str, name: &str) -> (id: String)
    ensures
        id@ == qualified_id(file_path@, name@),
{
    join3(file_path, "::", name)
}

/// The properties of a file node.
pub open spec fn file_row(
    path: Seq<char>,
    language: Seq<char>,
    job_id: Seq<char>,
    repo_id: Seq<char>,
) -> Seq<(Seq<char>, Seq<char>)> {
    seq![
        ("id"@, path),
        ("path"@, path),
        ("language"@, language),
        ("job_id"@, job_id),
        ("repo_id"@, repo_id),
    ]
}

/// The properties of a file node: its id is its path.
pub fn file_node_to_map(path: &str, language: &str, job_id: &str, repo_id: &str) -> (row: NameMap<
    String,
>)
    ensures
        row.deep_view() == file_row(path@, language@, job_id@, repo_id@),
{
    let row = NameMap {
        entries: vec![
            text("id", path),
            text("path", path),
            text("language", language),
            text("job_id", job_id),
            text("repo_id", repo_id),
        ],
    };
    assert(row.deep_view() =~= file_row(path@, language@, job_id@, repo_id@));
    row
}

/// The properties of a module node.
pub open spec fn module_row(name: Seq<char>, job_id: Seq<char>, repo_id: Seq<char>) -> Seq<
    (Seq<char>, Seq<char>),
> {
    seq![("name"@, name), ("job_id"@, job_id), ("repo_id"@, repo_id)]
}

/// The properties of a module node.
pub fn module_node_to_map(name: &str, job_id: &str, repo_id: &str) -> (row: NameMap<String>)
    ensures
        row.deep_view() == module_row(name@, job_id@, repo_id@),
{
    let row = NameMap {
        entries: vec![text("name", name), text("job_id", job_id), text("repo_id", repo_id)],
    };
    assert(row.deep_view() =~= module_row(name@, job_id@, repo_id@));
    row
}

/// A count as the store keeps it; counts beyond the store's range are kept
/// as its largest number.
pub open spec fn stored_count(n: usize) -> i64 {
    if n <= i64::MAX {
        n as i64
    } else {
        i64::MAX
    }
}

/// A count as the store keeps it.
pub fn count_value(n: usize) -> (v: i64)
    ensures
        v == stored_count(n),
{
    let wide = n as u64;
    if wide <= 0x7fff_ffff_ffff_ffff {
        wide as i64
    } else {
        0x7fff_ffff_ffff_ffff
    }
}

/// A text property of a row of values.
pub fn text_value(key: &str, value: &str) -> (e: Entry<Value>)
    ensures
        e.name@ == key@,
        e.value@ == ValueModel::Text(value@),
{
    Entry { name: key.to_string(), value: Value::Text(value.to_string()) }
}

/// A number property of a row of values.
pub fn int_value(key: &str, value: i64) -> (e: Entry<Value>)
    ensures
        e.name@ == key@,
        e.value@ == ValueModel::Int(value),
{
    Entry { name: key.to_string(), value: Value::Int(value) }
}

/// A list property of a row of values.
pub fn list_value(key: &str, value: Vec<String>) -> (e: Entry<Value>)
    ensures
        e.name@ == key@,
        e.value@ == ValueModel::List(value.deep_view()),
{
    Entry { name: key.to_string(), value: Value::List(value) }
}

/// The properties of a class node.
pub open spec fn class_row(
    name: Seq<char>,
    file: Seq<char>,
    start_line: usize,
    end_line: usize,
    job_id: Seq<char>,
    repo_id: Seq<char>,
) -> Seq<(Seq<char>, ValueModel)> {
    seq![
        ("id"@, ValueModel::Text(qualified_id(file, name))),
        ("name"@, ValueModel::Text(name)),
        ("file"@, ValueModel::Text(file)),
        ("start_line"@, ValueModel::Int(stored_count(start_line))),
        ("end_line"@, ValueModel::Int(stored_count(end_line))),
        ("job_id"@, ValueModel::Text(job_id)),
        ("repo_id"@, ValueModel::Text(repo_id)),
    ]
}

/// The properties of a class node.
pub fn class_node_to_map(
    name: &str,
    file: &str,
    start_line: usize,
    end_line: usize,
    job_id: &str,
    repo_id: &str,
) -> (row: NameMap<Value>)
    ensures
        row.deep_view() == class_row(name@, file@, start_line, end_line, job_id@, repo_id@),
{
    let id = get_qualified_id(file, name);
    let row = NameMap {
        entries: vec![
            text_value("id", id.as_str()),
            text_value("name", name),
            text_value("file", file),
            int_value("start_line", count_value(start_line)),
            int_value("end_line", count_value(end_line)),
            text_value("job_id", job_id),
            text_value("repo_id", repo_id),
        ],
    };
    assert(row.deep_view() =~= class_row(name@, file@, start_line, end_line, job_id@, repo_id@));
    row
}

/// The properties of a function node. A function without a return type has
/// the empty one.
pub open spec fn function_row(
    func: FunctionModel,
    file: Seq<char>,
    job_id: Seq<char>,
    repo_id: Seq<char>,
) -> Seq<(Seq<char>, ValueModel)> {
    seq![
        ("id"@, ValueModel::Text(qualified_id(file, func.name))),
        ("name"@, ValueModel::Text(func.name)),
        ("file"@, ValueModel::Text(file)),
        ("start_line"@, ValueModel::Int(stored_count(func.start_line))),
        ("end_line"@, ValueModel::Int(stored_count(func.end_line))),
        ("params"@, ValueModel::List(func.params)),
        (
            "return_type"@,
            ValueModel::Text(
                match func.return_type {
                    Some(t) => t,
                    None => Seq::empty(),
                },
            ),
        ),
        ("job_id"@, ValueModel::Text(job_id)),
        ("repo_id"@, ValueModel::Text(repo_id)),
    ]
}

/// The properties of a function node.
pub fn function_node_to_map(func: &FunctionInfo, file: &str, job_id: &str, repo_id: &str) -> (row:
    NameMap<Value>)
    ensures
        row.deep_view() == function_row(func@, file@, job_id@, repo_id@),
{
    let id = get_qualified_id(file, func.name.as_str());
    let return_type = match &func.return_type {
        Some(t) => t.clone(),
        None => String::new(),
    };
    let params = func.params.clone();
    assert(params.deep_view() =~= func.params.deep_view());
    let row = NameMap {
        entries: vec![
            text_value("id", id.as_str()),
            text_value("name", func.name.as_str()),
            text_value("file", file),
            int_value("start_line", count_value(func.start_line)),
            int_value("end_line", count_value(func.end_line)),
            list_value("params", params),
            text_value("return_type", return_type.as_str()),
            text_value("job_id", job_id),
            text_value("repo_id", repo_id),
        ],
    };
    assert(row.deep_view() =~= function_row(func@, file@, job_id@, repo_id@));
    row
}


// ---------------------------------------------------------------------------
// Statements
// ---------------------------------------------------------------------------

/// A parameter of a statement.
#[derive(Debug)]
pub enum Parameter {
    Text(String),
    Texts(Vec<String>),
    Rows(Vec<Row>),
}

/// Mathematical value of a [`Parameter`].
pub enum ParameterModel {
    Text(Seq<char>),
    Texts(Seq<Seq<char>>),
    Rows(Seq<RowModel>),
}

impl View for Parameter {
    type V = ParameterModel;

    open spec fn view(&self) -> ParameterModel {
        match self {
            Parameter::Text(t) => ParameterModel::Text(t@),
            Parameter::Texts(l) => ParameterModel::Texts(l.deep_view()),
            Parameter::Rows(r) => ParameterModel::Rows(r.deep_view()),
        }
    }
}

impl DeepView for Parameter {
    type V = ParameterModel;

    open spec fn deep_view(&self) -> ParameterModel {
        self@
    }
}

/// A statement for the graph store: the query text, its parameters, and
/// what to report when it fails.
#[derive(Debug)]
pub struct Statement {
    pub query: String,
    pub context: String,
    pub params: NameMap<Parameter>,
}

/// Mathematical value of a [`Statement`].
pub struct StatementModel {
    pub query: Seq<char>,
    pub context: Seq<char>,
    pub params: Seq<(Seq<char>, ParameterModel)>,
}

impl View for Statement {
    type V = StatementModel;

    open spec fn view(&self) -> StatementModel {
        StatementModel {
            query: self.query@,
            context: self.context@,
            params: self.params.deep_view(),
        }
    }
}

impl DeepView for Statement {
    type V = StatementModel;

    open spec fn deep_view(&self) -> StatementModel {
        self@
    }
}

/// The statement that unwinds one batch of rows.
pub open spec fn rows_statement(
    query: Seq<char>,
    context: Seq<char>,
    list: Seq<char>,
    rows: Seq<RowModel>,
) -> StatementModel {
    StatementModel { query, context, params: seq![(list, ParameterModel::Rows(rows))] }
}

/// The statements that unwind `rows` in batches of `size`: every batch but
/// the last carries `size` rows, the last carries the rest, and no rows
/// mean no statement.
pub open spec fn batched(
    query: Seq<char>,
    context: Seq<char>,
    list: Seq<char>,
    rows: Seq<RowModel>,
    size: usize,
) -> Seq<StatementModel>
    decreases rows.len(),
{
    if size == 0 || rows.len() == 0 {
        Seq::empty()
    } else if rows.len() <= size {
        seq![rows_statement(query, context, list, rows)]
    } else {
        seq![rows_statement(query, context, list, rows.take(size as int))] + batched(
            query,
            context,
            list,
            rows.skip(size as int),
            size,
        )
    }
}

/// The statement that unwinds one batch of rows.
fn unwind(query: &str, context: &str, list: &str, rows: Vec<Row>) -> (statement: Statement)
    ensures
        statement@ == rows_statement(query@, context@, list@, rows.deep_view()),
{
    let statement = Statement {
        query: query.to_string(),
        context: context.to_string(),
        params: NameMap {
            entries: vec![Entry { name: list.to_string(), value: Parameter::Rows(rows) }],
        },
    };
    assert(statement@.params =~= seq![(list@, ParameterModel::Rows(rows.deep_view()))]);
    statement
}

/// The statements that unwind `rows` in batches of `batch_size`.
pub fn batch(query: &str, context: &str, list: &str, rows: Vec<Row>, batch_size: usize) -> (out: Vec<
    Statement,
>)
    requires
        batch_size > 0,
    ensures
        out.deep_view() == batched(query@, context@, list@, rows.deep_view(), batch_size),
{
    let mut out: Vec<Statement> = Vec::new();
    let mut current: Vec<Row> = Vec::new();
    let ghost all = rows.deep_view();
    let ghost mut start: int = 0;
    assert(all.skip(0) =~= all);
    assert(out.deep_view() + batched(query@, context@, list@, all, batch_size) =~= batched(
        query@,
        context@,
        list@,
        all,
        batch_size,
    ));
    assert(current.deep_view() =~= all.subrange(0, 0));
    for row in it: rows
        invariant
            batch_size > 0,
            it.seq() == rows@,
            all == rows.deep_view(),
            0 <= start <= it.index(),
            current@.len() == it.index() - start,
            current@.len() <= batch_size,
            current.deep_view() == all.subrange(start, it.index() as int),
            batched(query@, context@, list@, all, batch_size) == out.deep_view() + batched(
                query@,
                context@,
                list@,
                all.skip(start),
                batch_size,
            ),
    {
        let ghost at = it.index() as int;
        if current.len() == batch_size {
            let ghost rest = all.skip(start);
            let ghost before = out.deep_view();
            proof {
                assert(rest.take(batch_size as int) =~= all.subrange(start, at));
                assert(rest.skip(batch_size as int) =~= all.skip(at));
                assert(rest.len() > batch_size);
            }
            let full = unwind(query, context, list, current);
            proof {
                lemma_deep_view_push(out@, out@.push(full), full);
                assert(before + (seq![full@] + batched(
                    query@,
                    context@,
                    list@,
                    all.skip(at),
                    batch_size,
                )) =~= before.push(full@) + batched(
                    query@,
                    context@,
                    list@,
                    all.skip(at),
                    batch_size,
                ));
                start = at;
            }
            out.push(full);
            current = Vec::new();
            assert(current.deep_view() =~= all.subrange(at, at));
        }
        proof {
            lemma_deep_view_push(current@, current@.push(row), row);
            assert(all.subrange(start, at).push(all[at]) =~= all.subrange(start, at + 1));
        }
        current.push(row);
    }
    if current.len() > 0 {
        let ghost rest = all.skip(start);
        let ghost before = out.deep_view();
        proof {
            assert(rest =~= all.subrange(start, all.len() as int));
        }
        let last = unwind(query, context, list, current);
        proof {
            lemma_deep_view_push(out@, out@.push(last), last);
            assert(before + seq![last@] =~= before.push(last@));
        }
        out.push(last);
    } else {
        assert(all.skip(start).len() == 0);
        assert(out.deep_view() + Seq::<StatementModel>::empty() =~= out.deep_view());
    }
    out
}

/// Appends `more` to `plan`.
pub fn extend_plan(plan: &mut Vec<Statement>, more: Vec<Statement>)
    ensures
        final(plan).deep_view() == old(plan).deep_view() + more.deep_view(),
{
    let mut more = more;
    proof {
        lemma_deep_view_concat(plan@, more@);
    }
    plan.append(&mut more);
}


// ---------------------------------------------------------------------------
// The plan
// ---------------------------------------------------------------------------

/// The node statements of a plan, in the order they run: files, classes,
/// functions, modules, boundaries, libraries, tables, services, endpoints,
/// RPC services, queues, compose services.
pub open spec fn node_statements(
    job_id: Seq<char>,
    repo_id: Seq<char>,
    files: Seq<ParsedFileModel>,
    graph: GraphModel,
    history: Option<Seq<(Seq<char>, FileContributionModel)>>,
    boundaries: Seq<BoundaryModel>,
    libraries: Seq<LibraryModel>,
    found: &CommunicationAnalysis,
    size: usize,
) -> Seq<StatementModel> {
    batched(
        MERGE_FILES@,
        "Failed to batch insert file nodes"@,
        "nodes"@,
        file_node_rows(files, job_id, repo_id, history),
        size,
    ) + batched(
        MERGE_CLASSES@,
        "Failed to batch insert class nodes"@,
        "nodes"@,
        class_node_rows(files, job_id, repo_id),
        size,
    ) + batched(
        MERGE_FUNCTIONS@,
        "Failed to batch insert function nodes"@,
        "nodes"@,
        function_node_rows(files, job_id, repo_id),
        size,
    ) + batched(
        MERGE_MODULES@,
        "Failed to batch insert module nodes"@,
        "nodes"@,
        module_node_rows(graph.nodes, job_id, repo_id),
        size,
    ) + batched(
        MERGE_BOUNDARIES@,
        "Failed to batch insert boundary nodes"@,
        "nodes"@,
        boundary_rows(boundaries, job_id, repo_id),
        size,
    ) + batched(
        MERGE_LIBRARIES@,
        "Failed to batch insert library nodes"@,
        "nodes"@,
        library_rows(libraries, job_id, repo_id),
        size,
    ) + batched(
        MERGE_TABLES@,
        "Failed to batch insert table nodes"@,
        "nodes"@,
        first_rows(keyed_tables(files, repo_id)),
        size,
    ) + batched(
        MERGE_SERVICES@,
        "Failed to batch insert service nodes"@,
        "nodes"@,
        first_rows(keyed_services(files, repo_id)),
        size,
    ) + batched(
        MERGE_ENDPOINTS@,
        "Failed to batch insert Endpoint nodes"@,
        "nodes"@,
        first_rows(keyed_endpoints(found.endpoints.deep_view(), repo_id)),
        size,
    ) + batched(
        MERGE_RPC_SERVICES@,
        "Failed to batch insert RpcService nodes"@,
        "nodes"@,
        first_rows(keyed_rpcs(found.rpc_services.deep_view(), repo_id)),
        size,
    ) + batched(
        MERGE_QUEUES@,
        "Failed to batch insert MessageQueue nodes"@,
        "nodes"@,
        first_rows(keyed_queues(found.queues.deep_view(), repo_id)),
        size,
    ) + batched(
        MERGE_COMPOSE_SERVICES@,
        "Failed to batch insert ComposeService nodes"@,
        "nodes"@,
        compose_rows(found.compose_services.deep_view(), repo_id),
        size,
    )
}

/// The statements for the edges of the dependency graph, for the
/// membership of files in boundaries and for their dependence on
/// libraries: `Defines`, `Contains`, `Calls`, `Imports`, `Inherits`,
/// `BelongsTo`, `DependsOn`.
pub open spec fn graph_edge_statements(
    repo_id: Seq<char>,
    files: Seq<ParsedFileModel>,
    graph: GraphModel,
    boundaries: Seq<BoundaryModel>,
    libraries: Seq<LibraryModel>,
    size: usize,
) -> Seq<StatementModel> {
    let edges = graph.edges;
    defines_statements(edges, repo_id, size) + batched(
        MERGE_CONTAINS@,
        "Failed to batch insert CONTAINS edges"@,
        "edges"@,
        edge_rows(EdgeShape::ClassContainsFunction, edges, repo_id),
        size,
    ) + batched(
        MERGE_CALLS@,
        "Failed to batch insert CALLS edges"@,
        "edges"@,
        edge_rows(EdgeShape::FunctionCallsFunction, edges, repo_id),
        size,
    ) + batched(
        MERGE_IMPORTS@,
        "Failed to batch insert IMPORTS edges"@,
        "edges"@,
        edge_rows(EdgeShape::FileImportsModule, edges, repo_id),
        size,
    ) + inherits_statements(edges, repo_id, size) + batched(
        MERGE_BELONGS_TO@,
        "Failed to batch insert BELONGS_TO edges"@,
        "edges"@,
        belongs_to_rows(boundaries, repo_id),
        size,
    ) + batched(
        MERGE_DEPENDS_ON_LIBRARY@,
        "Failed to batch insert library edges"@,
        "edges"@,
        library_edge_rows(files, libraries, repo_id),
        size,
    )
}

/// The statements for the edges from files to what they use and call, and
/// from endpoints to the services that expose them: `UsesTable`,
/// `CallsService`, `CallsEndpoint`, `CallsRpc`, `PublishesTo`,
/// `ConsumesFrom`, `ExposedBy`.
pub open spec fn use_edge_statements(
    repo_id: Seq<char>,
    files: Seq<ParsedFileModel>,
    found: &CommunicationAnalysis,
    size: usize,
) -> Seq<StatementModel> {
    batched(
        MERGE_USES_TABLE@,
        "Failed to batch insert table edges"@,
        "edges"@,
        table_edge_rows(files, repo_id),
        size,
    ) + batched(
        MERGE_CALLS_SERVICE@,
        "Failed to batch insert service edges"@,
        "edges"@,
        service_edge_rows(files, repo_id),
        size,
    ) + batched(
        MERGE_CALLS_ENDPOINT@,
        "Failed to batch insert CALLS_ENDPOINT edges"@,
        "edges"@,
        endpoint_edge_rows(found.endpoints.deep_view(), repo_id),
        size,
    ) + batched(
        MERGE_CALLS_RPC@,
        "Failed to batch insert CALLS_RPC edges"@,
        "edges"@,
        rpc_edge_rows(found.rpc_services.deep_view(), repo_id),
        size,
    ) + queue_statements(found.queues.deep_view(), repo_id, size) + batched(
        MERGE_EXPOSED_BY@,
        "Failed to batch insert EXPOSED_BY edges"@,
        "edges"@,
        exposure_rows(
            found.endpoints.deep_view(),
            distinct(compose_names(found.compose_services.deep_view())),
            repo_id,
        ),
        size,
    )
}

/// The edge statements of a plan, in the order they run: the edges of the
/// dependency graph, membership in boundaries, dependence on libraries,
/// the edges to tables, services and communication artifacts, and last the
/// dependencies between files.
pub open spec fn edge_statements(
    repo_id: Seq<char>,
    files: Seq<ParsedFileModel>,
    graph: GraphModel,
    boundaries: Seq<BoundaryModel>,
    libraries: Seq<LibraryModel>,
    found: &CommunicationAnalysis,
    size: usize,
) -> Seq<StatementModel> {
    graph_edge_statements(repo_id, files, graph, boundaries, libraries, size) + use_edge_statements(
        repo_id,
        files,
        found,
        size,
    ) + batched(
        MERGE_DEPENDS_ON_FILE@,
        "Failed to batch insert DEPENDS_ON edges"@,
        "edges"@,
        dependency_rows(files, files, repo_id),
        size,
    )
}

/// The statements that store the results of an analysis, in the order they
/// run: the job, every node, then every edge.
pub open spec fn upsert_plan(
    job_id: Seq<char>,
    repo_id: Seq<char>,
    files: Seq<ParsedFileModel>,
    graph: GraphModel,
    history: Option<Seq<(Seq<char>, FileContributionModel)>>,
    boundaries: Seq<BoundaryModel>,
    libraries: Seq<LibraryModel>,
    communication_analysis: &CommunicationAnalysis,
    size: usize,
) -> Seq<StatementModel> {
    seq![job_statement(job_id, repo_id)] + node_statements(
        job_id,
        repo_id,
        files,
        graph,
        history,
        boundaries,
        libraries,
        communication_analysis,
        size,
    ) + edge_statements(
        repo_id,
        files,
        graph,
        boundaries,
        libraries,
        communication_analysis,
        size,
    )
}

/// The contribution metrics per file, where there is a history.
pub open spec fn metrics_of_history(git_contributions: Option<&RepoContributions>) -> Option<
    Seq<(Seq<char>, FileContributionModel)>,
> {
    match git_contributions {
        Some(c) => Some(c.files.deep_view()),
        None => None,
    }
}

/// The node statements of a plan.
fn plan_nodes(
    job_id: &str,
    repo_id: &str,
    parsed_files: &[ParsedFile],
    dep_graph: &DependencyGraph,
    git_contributions: Option<&RepoContributions>,
    boundary_result: &BoundaryDetectionResult,
    library_dependencies: &[LibraryDependency],
    communication_analysis: &CommunicationAnalysis,
    size: usize,
) -> (plan: Vec<Statement>)
    requires
        size > 0,
    ensures
        plan.deep_view() == node_statements(
            job_id@,
            repo_id@,
            parsed_files.deep_view(),
            dep_graph@,
            metrics_of_history(git_contributions),
            boundary_result.boundaries.deep_view(),
            library_dependencies.deep_view(),
            communication_analysis,
            size,
        ),
{
    let mut plan = batch_insert_file_nodes(job_id, repo_id, parsed_files, git_contributions, size);
    extend_plan(&mut plan, batch_insert_class_nodes(job_id, repo_id, parsed_files, size));
    extend_plan(&mut plan, batch_insert_function_nodes(job_id, repo_id, parsed_files, size));
    extend_plan(&mut plan, batch_insert_module_nodes(job_id, repo_id, dep_graph, size));
    extend_plan(&mut plan, batch_insert_boundary_nodes(job_id, repo_id, boundary_result, size));
    extend_plan(&mut plan, batch_insert_library_nodes(job_id, repo_id, library_dependencies, size));
    extend_plan(&mut plan, batch_insert_table_nodes(repo_id, parsed_files, size));
    extend_plan(&mut plan, batch_insert_service_nodes(repo_id, parsed_files, size));
    extend_plan(&mut plan, batch_insert_endpoint_nodes(repo_id, communication_analysis, size));
    extend_plan(&mut plan, batch_insert_rpc_nodes(repo_id, communication_analysis, size));
    extend_plan(&mut plan, batch_insert_queue_nodes(repo_id, communication_analysis, size));
    extend_plan(&mut plan, batch_insert_compose_service_nodes(repo_id, communication_analysis, size));
    plan
}

/// The statements for the edges of the dependency graph, for membership in
/// boundaries and for dependence on libraries.
fn plan_graph_edges(
    repo_id: &str,
    parsed_files: &[ParsedFile],
    dep_graph: &DependencyGraph,
    boundary_result: &BoundaryDetectionResult,
    library_dependencies: &[LibraryDependency],
    size: usize,
) -> (plan: Vec<Statement>)
    requires
        size > 0,
    ensures
        plan.deep_view() == graph_edge_statements(
            repo_id@,
            parsed_files.deep_view(),
            dep_graph@,
            boundary_result.boundaries.deep_view(),
            library_dependencies.deep_view(),
            size,
        ),
{
    let mut plan = batch_insert_defines_edges(repo_id, dep_graph, size);
    extend_plan(&mut plan, batch_insert_contains_edges(repo_id, dep_graph, size));
    extend_plan(&mut plan, batch_insert_calls_edges(repo_id, dep_graph, size));
    extend_plan(&mut plan, batch_insert_imports_edges(repo_id, dep_graph, size));
    extend_plan(&mut plan, batch_insert_inherits_edges(repo_id, dep_graph, size));
    extend_plan(&mut plan, batch_insert_belongs_to_edges(repo_id, boundary_result, size));
    extend_plan(
        &mut plan,
        batch_insert_library_edges(repo_id, parsed_files, library_dependencies, size),
    );
    plan
}

/// The statements for the edges from files to what they use and call.
fn plan_use_edges(
    repo_id: &str,
    parsed_files: &[ParsedFile],
    communication_analysis: &CommunicationAnalysis,
    size: usize,
) -> (plan: Vec<Statement>)
    requires
        size > 0,
    ensures
        plan.deep_view() == use_edge_statements(
            repo_id@,
            parsed_files.deep_view(),
            communication_analysis,
            size,
        ),
{
    let mut plan = batch_insert_table_edges(repo_id, parsed_files, size);
    extend_plan(&mut plan, batch_insert_service_edges(repo_id, parsed_files, size));
    extend_plan(&mut plan, batch_insert_endpoint_edges(repo_id, communication_analysis, size));
    extend_plan(&mut plan, batch_insert_rpc_edges(repo_id, communication_analysis, size));
    extend_plan(&mut plan, batch_insert_queue_edges(repo_id, communication_analysis, size));
    extend_plan(
        &mut plan,
        batch_insert_endpoint_service_edges(repo_id, communication_analysis, size),
    );
    plan
}

/// The edge statements of a plan.
fn plan_edges(
    repo_id: &str,
    parsed_files: &[ParsedFile],
    dep_graph: &DependencyGraph,
    boundary_result: &BoundaryDetectionResult,
    library_dependencies: &[LibraryDependency],
    communication_analysis: &CommunicationAnalysis,
    size: usize,
) -> (plan: Vec<Statement>)
    requires
        size > 0,
    ensures
        plan.deep_view() == edge_statements(
            repo_id@,
            parsed_files.deep_view(),
            dep_graph@,
            boundary_result.boundaries.deep_view(),
            library_dependencies.deep_view(),
            communication_analysis,
            size,
        ),
{
    let mut plan = plan_graph_edges(
        repo_id,
        parsed_files,
        dep_graph,
        boundary_result,
        library_dependencies,
        size,
    );
    extend_plan(&mut plan, plan_use_edges(repo_id, parsed_files, communication_analysis, size));
    extend_plan(&mut plan, batch_insert_file_dependencies(repo_id, parsed_files, size));
    plan
}

/// The statements that store the results of an analysis.
pub fn execute_batch_operations(
    job_id: &str,
    repo_id: &str,
    parsed_files: &[ParsedFile],
    dep_graph: &DependencyGraph,
    git_contributions: Option<&RepoContributions>,
    boundary_result: &BoundaryDetectionResult,
    library_dependencies: &[LibraryDependency],
    communication_analysis: &CommunicationAnalysis,
    config: &BatchConfig,
) -> (plan: Vec<Statement>)
    requires
        config.batch_size > 0,
    ensures
        plan.deep_view() == upsert_plan(
            job_id@,
            repo_id@,
            parsed_files.deep_view(),
            dep_graph@,
            metrics_of_history(git_contributions),
            boundary_result.boundaries.deep_view(),
            library_dependencies.deep_view(),
            communication_analysis,
            config.batch_size,
        ),
{
    let size = config.batch_size;
    let mut plan: Vec<Statement> = Vec::new();
    let job = create_job_node(job_id, repo_id);
    proof {
        lemma_deep_view_push(plan@, plan@.push(job), job);
    }
    plan.push(job);
    assert(plan.deep_view() =~= seq![job_statement(job_id@, repo_id@)]);
    extend_plan(
        &mut plan,
        plan_nodes(
            job_id,
            repo_id,
            parsed_files,
            dep_graph,
            git_contributions,
            boundary_result,
            library_dependencies,
            communication_analysis,
            size,
        ),
    );
    extend_plan(
        &mut plan,
        plan_edges(
            repo_id,
            parsed_files,
            dep_graph,
            boundary_result,
            library_dependencies,
            communication_analysis,
            size,
        ),
    );
    plan
}

// ---------------------------------------------------------------------------
// Full and incremental storage
// ---------------------------------------------------------------------------

pub const DELETE_FILES: &'static str = "UNWIND $paths AS path
         MATCH (f:File {path: path, repo_id: $repo_id})
         DETACH DELETE f";

pub const DELETE_CLASSES: &'static str = "UNWIND $paths AS path
         MATCH (c:Class {file: path, repo_id: $repo_id})
         DETACH DELETE c";

pub const DELETE_FUNCTIONS: &'static str = "UNWIND $paths AS path
         MATCH (fn:Function {file: path, repo_id: $repo_id})
         DETACH DELETE fn";

/// A statement that deletes what belongs to the given paths.
pub open spec fn delete_statement(
    query: Seq<char>,
    context: Seq<char>,
    repo_id: Seq<char>,
    paths: Seq<Seq<char>>,
) -> StatementModel {
    StatementModel {
        query,
        context,
        params: seq![
            ("paths"@, ParameterModel::Texts(paths)),
            ("repo_id"@, ParameterModel::Text(repo_id)),
        ],
    }
}
/// The paths whose nodes an incremental store deletes: the changed and the
/// removed files, each once, in order.
pub open spec fn delete_paths(changed: Seq<Seq<char>>, removed: Seq<Seq<char>>) -> Seq<Seq<char>> {
    crate::text::in_order(distinct(changed + removed))
}

/// The statements that delete the files at the given paths with their
/// classes and functions; none when there are no paths.
pub open spec fn delete_plan(repo_id: Seq<char>, paths: Seq<Seq<char>>) -> Seq<StatementModel> {
    if paths.len() == 0 {
        Seq::empty()
    } else {
        seq![
            delete_statement(DELETE_FILES@, "Failed to delete file nodes"@, repo_id, paths),
            delete_statement(DELETE_CLASSES@, "Failed to delete class nodes"@, repo_id, paths),
            delete_statement(DELETE_FUNCTIONS@, "Failed to delete function nodes"@, repo_id, paths),
        ]
    }
}

/// A statement that deletes what belongs to the given paths.
fn delete_by(query: &str, context: &str, repo_id: &str, files: &[String]) -> (statement: Statement)
    ensures
        statement@ == delete_statement(query@, context@, repo_id@, files.deep_view()),
{
    let mut paths: Vec<String> = Vec::new();
    let mut i: usize = 0;
    while i < files.len()
        invariant
            i <= files@.len(),
            paths.deep_view() == files.deep_view().take(i as int),
        decreases files@.len() - i,
    {
        let path = files[i].clone();
        proof {
            lemma_deep_view_push(paths@, paths@.push(path), path);
            assert(files.deep_view().take(i as int).push(files.deep_view()[i as int])
                =~= files.deep_view().take(i + 1));
        }
        paths.push(path);
        i += 1;
    }
    assert(files.deep_view().take(i as int) =~= files.deep_view());
    let statement = Statement {
        query: query.to_string(),
        context: context.to_string(),
        params: NameMap {
            entries: vec![
                Entry { name: "paths".to_string(), value: Parameter::Texts(paths) },
                Entry { name: "repo_id".to_string(), value: Parameter::Text(repo_id.to_string()) },
            ],
        },
    };
    assert(statement@.params =~= delete_statement(
        query@,
        context@,
        repo_id@,
        files.deep_view(),
    ).params);
    statement
}

/// The statements that delete the files at the given paths with their
/// classes and functions.
pub fn delete_file_nodes(repo_id: &str, files: &[String]) -> (plan: Vec<Statement>)
    ensures
        plan.deep_view() == delete_plan(repo_id@, files.deep_view()),
{
    let mut plan: Vec<Statement> = Vec::new();
    if files.len() == 0 {
        assert(plan.deep_view() =~= Seq::empty());
        return plan;
    }
    let first = delete_by(DELETE_FILES, "Failed to delete file nodes", repo_id, files);
    let second = delete_by(DELETE_CLASSES, "Failed to delete class nodes", repo_id, files);
    let third = delete_by(DELETE_FUNCTIONS, "Failed to delete function nodes", repo_id, files);
    proof {
        lemma_deep_view_push(plan@, plan@.push(first), first);
        lemma_deep_view_push(plan@.push(first), plan@.push(first).push(second), second);
        lemma_deep_view_push(
            plan@.push(first).push(second),
            plan@.push(first).push(second).push(third),
            third,
        );
    }
    plan.push(first);
    plan.push(second);
    plan.push(third);
    assert(plan.deep_view() =~= delete_plan(repo_id@, files.deep_view()));
    plan
}

/// The batch size a configuration asks for, the default when there is no
/// configuration.
pub open spec fn batch_size_of(config: Option<BatchConfig>) -> usize {
    match config {
        Some(c) => c.batch_size,
        None => DEFAULT_BATCH_SIZE,
    }
}

/// The plan that stores the results of an analysis in full. It is to run
/// inside one transaction, in order.
pub fn store_graph(
    job_id: &str,
    repo_id: &str,
    parsed_files: &[ParsedFile],
    dep_graph: &DependencyGraph,
    git_contributions: Option<&RepoContributions>,
    boundary_result: &BoundaryDetectionResult,
    library_dependencies: &[LibraryDependency],
    communication_analysis: &CommunicationAnalysis,
    config: Option<BatchConfig>,
) -> (plan: Vec<Statement>)
    requires
        batch_size_of(config) > 0,
    ensures
        plan.deep_view() == upsert_plan(
            job_id@,
            repo_id@,
            parsed_files.deep_view(),
            dep_graph@,
            metrics_of_history(git_contributions),
            boundary_result.boundaries.deep_view(),
            library_dependencies.deep_view(),
            communication_analysis,
            batch_size_of(config),
        ),
{
    let config = match config {
        Some(c) => c,
        None => BatchConfig::default(),
    };
    execute_batch_operations(
        job_id,
        repo_id,
        parsed_files,
        dep_graph,
        git_contributions,
        boundary_result,
        library_dependencies,
        communication_analysis,
        &config,
    )
}

/// The plan that replaces the part of the stored graph that belongs to the
/// changed and removed files: first it deletes every file named in either
/// list, each once, with its classes and functions; then it stores the
/// analysis of the files given. It is to run inside one transaction, in
/// order.
pub fn store_graph_incremental(
    job_id: &str,
    repo_id: &str,
    parsed_files: &[ParsedFile],
    dep_graph: &DependencyGraph,
    git_contributions: Option<&RepoContributions>,
    boundary_result: &BoundaryDetectionResult,
    library_dependencies: &[LibraryDependency],
    communication_analysis: &CommunicationAnalysis,
    changed_files: &[String],
    removed_files: &[String],
    config: Option<BatchConfig>,
) -> (plan: Vec<Statement>)
    requires
        batch_size_of(config) > 0,
    ensures
        plan.deep_view() == delete_plan(
            repo_id@,
            delete_paths(changed_files.deep_view(), removed_files.deep_view()),
        ) + upsert_plan(
            job_id@,
            repo_id@,
            parsed_files.deep_view(),
            dep_graph@,
            metrics_of_history(git_contributions),
            boundary_result.boundaries.deep_view(),
            library_dependencies.deep_view(),
            communication_analysis,
            batch_size_of(config),
        ),
{
    let config = match config {
        Some(c) => c,
        None => BatchConfig::default(),
    };
    let ghost changed = changed_files.deep_view();
    let ghost removed = removed_files.deep_view();
    let mut files_to_remove: Vec<String> = Vec::new();
    let mut i: usize = 0;
    assert(files_to_remove.deep_view() =~= distinct(changed.take(0)));
    while i < changed_files.len()
        invariant
            i <= changed_files@.len(),
            changed == changed_files.deep_view(),
            files_to_remove.deep_view() == distinct(changed.take(i as int)),
        decreases changed_files@.len() - i,
    {
        assert(changed.take(i as int).push(changed[i as int]) =~= changed.take(i + 1));
        crate::text::push_distinct(
            &mut files_to_remove,
            changed_files[i].clone(),
            Ghost(changed.take(i as int)),
        );
        i += 1;
    }
    assert(changed.take(i as int) =~= changed);
    assert(changed + removed.take(0) =~= changed);
    let mut k: usize = 0;
    while k < removed_files.len()
        invariant
            k <= removed_files@.len(),
            removed == removed_files.deep_view(),
            files_to_remove.deep_view() == distinct(changed + removed.take(k as int)),
        decreases removed_files@.len() - k,
    {
        assert((changed + removed.take(k as int)).push(removed[k as int]) =~= changed
            + removed.take(k + 1));
        crate::text::push_distinct(
            &mut files_to_remove,
            removed_files[k].clone(),
            Ghost(changed + removed.take(k as int)),
        );
        k += 1;
    }
    assert(removed.take(k as int) =~= removed);

    let files_to_remove = crate::text::sort_texts(files_to_remove);
    let mut plan = delete_file_nodes(repo_id, files_to_remove.as_slice());
    extend_plan(
        &mut plan,
        execute_batch_operations(
            job_id,
            repo_id,
            parsed_files,
            dep_graph,
            git_contributions,
            boundary_result,
            library_dependencies,
            communication_analysis,
            &config,
        ),
    );
    plan
}

} // verus!
