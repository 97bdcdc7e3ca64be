//! What holds of every write plan.

use vstd::prelude::*;
use crate::boundary_detector::BoundaryModel;
use crate::communication_detector::CommunicationAnalysis;
use crate::dependency_metadata::LibraryModel;
use crate::git_analyzer::FileContributionModel;
use crate::graph_builder::GraphModel;
use crate::neo4j_storage::{
    delete_paths,
    batched, delete_plan, edge_statements, graph_edge_statements, node_statements,
    rows_statement, upsert_plan, use_edge_statements, RowModel, StatementModel,
};
use crate::parsers::ParsedFileModel;
use crate::storage_edges::{
    belongs_to_rows, compose_names, defines_statements, dependency_rows, edge_rows,
    endpoint_edge_rows, exposure_rows, inherits_statements, library_edge_rows, queue_edge_rows,
    queue_statements, rpc_edge_rows, service_edge_rows, table_edge_rows, EdgeShape,
    MERGE_BELONGS_TO, MERGE_CALLS, MERGE_CALLS_ENDPOINT, MERGE_CALLS_RPC, MERGE_CALLS_SERVICE,
    MERGE_CONSUMES_FROM, MERGE_CONTAINS, MERGE_DEPENDS_ON_FILE, MERGE_DEPENDS_ON_LIBRARY,
    MERGE_EXPOSED_BY, MERGE_FILE_DEFINES_CLASS, MERGE_FILE_DEFINES_FUNCTION, MERGE_IMPORTS,
    MERGE_INHERITS_CLASS, MERGE_INHERITS_MODULE, MERGE_PUBLISHES_TO, MERGE_USES_TABLE,
};
use crate::communication_detector::QueueDirection;
use crate::storage_nodes::{
    boundary_rows, class_node_rows, compose_rows, file_node_rows, first_rows,
    function_node_rows, job_statement, keyed_endpoints, keyed_queues, keyed_rpcs, keyed_services,
    keyed_tables, library_rows, module_node_rows, MERGE_BOUNDARIES, MERGE_CLASSES,
    MERGE_COMPOSE_SERVICES, MERGE_ENDPOINTS, MERGE_FILES, MERGE_FUNCTIONS, MERGE_LIBRARIES,
    MERGE_MODULES, MERGE_QUEUES, MERGE_RPC_SERVICES, MERGE_SERVICES, MERGE_TABLES,
};
use crate::text::distinct;

verus! {

/// Whether a statement unwinds the list of the given name and has no other
/// parameter.
pub open spec fn unwinds(statement: StatementModel, list: Seq<char>) -> bool {
    statement.params.len() == 1 && statement.params[0].0 == list
}

/// Whether every statement unwinds the list of the given name.
pub open spec fn all_unwind(plan: Seq<StatementModel>, list: Seq<char>) -> bool {
    forall|k: int| 0 <= k < plan.len() ==> unwinds(#[trigger] plan[k], list)
}

proof fn lemma_batched_unwinds(
    query: Seq<char>,
    context: Seq<char>,
    list: Seq<char>,
    rows: Seq<RowModel>,
    size: usize,
)
    ensures
        all_unwind(batched(query, context, list, rows, size), list),
    decreases rows.len(),
{
    if size == 0 || rows.len() == 0 {
    } else if rows.len() <= size {
    } else {
        lemma_batched_unwinds(query, context, list, rows.skip(size as int), size);
        let head = seq![rows_statement(query, context, list, rows.take(size as int))];
        lemma_join_unwinds(head, batched(query, context, list, rows.skip(size as int), size), list);
    }
}

proof fn lemma_join_unwinds(a: Seq<StatementModel>, b: Seq<StatementModel>, list: Seq<char>)
    requires
        all_unwind(a, list),
        all_unwind(b, list),
    ensures
        all_unwind(a + b, list),
{
    assert forall|k: int| 0 <= k < (a + b).len() implies unwinds(#[trigger] (a + b)[k], list) by {
        if k < a.len() {
            assert((a + b)[k] == a[k]);
        } else {
            assert((a + b)[k] == b[k - a.len()]);
        }
    }
}

/// The statement list of one kind joins a plan of the same kind.
proof fn lemma_grow(
    plan: Seq<StatementModel>,
    query: Seq<char>,
    context: Seq<char>,
    list: Seq<char>,
    rows: Seq<RowModel>,
    size: usize,
)
    requires
        all_unwind(plan, list),
    ensures
        all_unwind(plan + batched(query, context, list, rows, size), list),
{
    lemma_batched_unwinds(query, context, list, rows, size);
    lemma_join_unwinds(plan, batched(query, context, list, rows, size), list);
}

proof fn lemma_nodes_unwind(
    job_id: Seq<char>,
    repo_id: Seq<char>,
    files: Seq<ParsedFileModel>,
    graph: GraphModel,
    history: Option<Seq<(Seq<char>, FileContributionModel)>>,
    boundaries: Seq<BoundaryModel>,
    libraries: Seq<LibraryModel>,
    found: &CommunicationAnalysis,
    size: usize,
)
    ensures
        all_unwind(
            node_statements(
                job_id,
                repo_id,
                files,
                graph,
                history,
                boundaries,
                libraries,
                found,
                size,
            ),
            "nodes"@,
        ),
{
    let list = "nodes"@;
    let plan_1 = batched(
        MERGE_FILES@,
        "Failed to batch insert file nodes"@,
        list,
        file_node_rows(files, job_id, repo_id, history),
        size,
    );
    lemma_batched_unwinds(
        MERGE_FILES@,
        "Failed to batch insert file nodes"@,
        list,
        file_node_rows(files, job_id, repo_id, history),
        size,
    );
    lemma_grow(
        plan_1,
        MERGE_CLASSES@,
        "Failed to batch insert class nodes"@,
        list,
        class_node_rows(files, job_id, repo_id),
        size,
    );
    let plan_2 = plan_1 + batched(
        MERGE_CLASSES@,
        "Failed to batch insert class nodes"@,
        list,
        class_node_rows(files, job_id, repo_id),
        size,
    );
    lemma_grow(
        plan_2,
        MERGE_FUNCTIONS@,
        "Failed to batch insert function nodes"@,
        list,
        function_node_rows(files, job_id, repo_id),
        size,
    );
    let plan_3 = plan_2 + batched(
        MERGE_FUNCTIONS@,
        "Failed to batch insert function nodes"@,
        list,
        function_node_rows(files, job_id, repo_id),
        size,
    );
    lemma_grow(
        plan_3,
        MERGE_MODULES@,
        "Failed to batch insert module nodes"@,
        list,
        module_node_rows(graph.nodes, job_id, repo_id),
        size,
    );
    let plan_4 = plan_3 + batched(
        MERGE_MODULES@,
        "Failed to batch insert module nodes"@,
        list,
        module_node_rows(graph.nodes, job_id, repo_id),
        size,
    );
    lemma_grow(
        plan_4,
        MERGE_BOUNDARIES@,
        "Failed to batch insert boundary nodes"@,
        list,
        boundary_rows(boundaries, job_id, repo_id),
        size,
    );
    let plan_5 = plan_4 + batched(
        MERGE_BOUNDARIES@,
        "Failed to batch insert boundary nodes"@,
        list,
        boundary_rows(boundaries, job_id, repo_id),
        size,
    );
    lemma_grow(
        plan_5,
        MERGE_LIBRARIES@,
        "Failed to batch insert library nodes"@,
        list,
        library_rows(libraries, job_id, repo_id),
        size,
    );
    let plan_6 = plan_5 + batched(
        MERGE_LIBRARIES@,
        "Failed to batch insert library nodes"@,
        list,
        library_rows(libraries, job_id, repo_id),
        size,
    );
    lemma_grow(
        plan_6,
        MERGE_TABLES@,
        "Failed to batch insert table nodes"@,
        list,
        first_rows(keyed_tables(files, repo_id)),
        size,
    );
    let plan_7 = plan_6 + batched(
        MERGE_TABLES@,
        "Failed to batch insert table nodes"@,
        list,
        first_rows(keyed_tables(files, repo_id)),
        size,
    );
    lemma_grow(
        plan_7,
        MERGE_SERVICES@,
        "Failed to batch insert service nodes"@,
        list,
        first_rows(keyed_services(files, repo_id)),
        size,
    );
    let plan_8 = plan_7 + batched(
        MERGE_SERVICES@,
        "Failed to batch insert service nodes"@,
        list,
        first_rows(keyed_services(files, repo_id)),
        size,
    );
    lemma_grow(
        plan_8,
        MERGE_ENDPOINTS@,
        "Failed to batch insert Endpoint nodes"@,
        list,
        first_rows(keyed_endpoints(found.endpoints.deep_view(), repo_id)),
        size,
    );
    let plan_9 = plan_8 + batched(
        MERGE_ENDPOINTS@,
        "Failed to batch insert Endpoint nodes"@,
        list,
        first_rows(keyed_endpoints(found.endpoints.deep_view(), repo_id)),
        size,
    );
    lemma_grow(
        plan_9,
        MERGE_RPC_SERVICES@,
        "Failed to batch insert RpcService nodes"@,
        list,
        first_rows(keyed_rpcs(found.rpc_services.deep_view(), repo_id)),
        size,
    );
    let plan_10 = plan_9 + batched(
        MERGE_RPC_SERVICES@,
        "Failed to batch insert RpcService nodes"@,
        list,
        first_rows(keyed_rpcs(found.rpc_services.deep_view(), repo_id)),
        size,
    );
    lemma_grow(
        plan_10,
        MERGE_QUEUES@,
        "Failed to batch insert MessageQueue nodes"@,
        list,
        first_rows(keyed_queues(found.queues.deep_view(), repo_id)),
        size,
    );
    let plan_11 = plan_10 + batched(
        MERGE_QUEUES@,
        "Failed to batch insert MessageQueue nodes"@,
        list,
        first_rows(keyed_queues(found.queues.deep_view(), repo_id)),
        size,
    );
    lemma_grow(
        plan_11,
        MERGE_COMPOSE_SERVICES@,
        "Failed to batch insert ComposeService nodes"@,
        list,
        compose_rows(found.compose_services.deep_view(), repo_id),
        size,
    );
}


proof fn lemma_edges_unwind(
    repo_id: Seq<char>,
    files: Seq<ParsedFileModel>,
    graph: GraphModel,
    boundaries: Seq<BoundaryModel>,
    libraries: Seq<LibraryModel>,
    found: &CommunicationAnalysis,
    size: usize,
)
    ensures
        all_unwind(
            edge_statements(repo_id, files, graph, boundaries, libraries, found, size),
            "edges"@,
        ),
{
    let list = "edges"@;
    let edges = graph.edges;
    // the edges of the graph
    let d1 = batched(
        MERGE_FILE_DEFINES_CLASS@,
        "Failed to batch insert File->Class DEFINES"@,
        list,
        edge_rows(EdgeShape::FileDefinesClass, edges, repo_id),
        size,
    );
    lemma_batched_unwinds(
        MERGE_FILE_DEFINES_CLASS@,
        "Failed to batch insert File->Class DEFINES"@,
        list,
        edge_rows(EdgeShape::FileDefinesClass, edges, repo_id),
        size,
    );
    lemma_grow(
        d1,
        MERGE_FILE_DEFINES_FUNCTION@,
        "Failed to batch insert File->Function DEFINES"@,
        list,
        edge_rows(EdgeShape::FileDefinesFunction, edges, repo_id),
        size,
    );
    let g1 = defines_statements(edges, repo_id, size);
    lemma_grow(
        g1,
        MERGE_CONTAINS@,
        "Failed to batch insert CONTAINS edges"@,
        list,
        edge_rows(EdgeShape::ClassContainsFunction, edges, repo_id),
        size,
    );
    let g2 = g1 + batched(
        MERGE_CONTAINS@,
        "Failed to batch insert CONTAINS edges"@,
        list,
        edge_rows(EdgeShape::ClassContainsFunction, edges, repo_id),
        size,
    );
    lemma_grow(
        g2,
        MERGE_CALLS@,
        "Failed to batch insert CALLS edges"@,
        list,
        edge_rows(EdgeShape::FunctionCallsFunction, edges, repo_id),
        size,
    );
    let g3 = g2 + batched(
        MERGE_CALLS@,
        "Failed to batch insert CALLS edges"@,
        list,
        edge_rows(EdgeShape::FunctionCallsFunction, edges, repo_id),
        size,
    );
    lemma_grow(
        g3,
        MERGE_IMPORTS@,
        "Failed to batch insert IMPORTS edges"@,
        list,
        edge_rows(EdgeShape::FileImportsModule, edges, repo_id),
        size,
    );
    let g4 = g3 + batched(
        MERGE_IMPORTS@,
        "Failed to batch insert IMPORTS edges"@,
        list,
        edge_rows(EdgeShape::FileImportsModule, edges, repo_id),
        size,
    );
    let i1 = batched(
        MERGE_INHERITS_CLASS@,
        "Failed to batch insert Class->Class INHERITS"@,
        list,
        edge_rows(EdgeShape::ClassInheritsClass, edges, repo_id),
        size,
    );
    lemma_batched_unwinds(
        MERGE_INHERITS_CLASS@,
        "Failed to batch insert Class->Class INHERITS"@,
        list,
        edge_rows(EdgeShape::ClassInheritsClass, edges, repo_id),
        size,
    );
    lemma_grow(
        i1,
        MERGE_INHERITS_MODULE@,
        "Failed to batch insert Class->Module INHERITS"@,
        list,
        edge_rows(EdgeShape::ClassInheritsModule, edges, repo_id),
        size,
    );
    lemma_join_unwinds(g4, inherits_statements(edges, repo_id, size), list);
    let g5 = g4 + inherits_statements(edges, repo_id, size);
    lemma_grow(
        g5,
        MERGE_BELONGS_TO@,
        "Failed to batch insert BELONGS_TO edges"@,
        list,
        belongs_to_rows(boundaries, repo_id),
        size,
    );
    let g6 = g5 + batched(
        MERGE_BELONGS_TO@,
        "Failed to batch insert BELONGS_TO edges"@,
        list,
        belongs_to_rows(boundaries, repo_id),
        size,
    );
    lemma_grow(
        g6,
        MERGE_DEPENDS_ON_LIBRARY@,
        "Failed to batch insert library edges"@,
        list,
        library_edge_rows(files, libraries, repo_id),
        size,
    );
    let graph_part = graph_edge_statements(repo_id, files, graph, boundaries, libraries, size);
    assert(all_unwind(graph_part, list));

    // the edges to what files use and call
    let u1 = batched(
        MERGE_USES_TABLE@,
        "Failed to batch insert table edges"@,
        list,
        table_edge_rows(files, repo_id),
        size,
    );
    lemma_batched_unwinds(
        MERGE_USES_TABLE@,
        "Failed to batch insert table edges"@,
        list,
        table_edge_rows(files, repo_id),
        size,
    );
    lemma_grow(
        u1,
        MERGE_CALLS_SERVICE@,
        "Failed to batch insert service edges"@,
        list,
        service_edge_rows(files, repo_id),
        size,
    );
    let u2 = u1 + batched(
        MERGE_CALLS_SERVICE@,
        "Failed to batch insert service edges"@,
        list,
        service_edge_rows(files, repo_id),
        size,
    );
    lemma_grow(
        u2,
        MERGE_CALLS_ENDPOINT@,
        "Failed to batch insert CALLS_ENDPOINT edges"@,
        list,
        endpoint_edge_rows(found.endpoints.deep_view(), repo_id),
        size,
    );
    let u3 = u2 + batched(
        MERGE_CALLS_ENDPOINT@,
        "Failed to batch insert CALLS_ENDPOINT edges"@,
        list,
        endpoint_edge_rows(found.endpoints.deep_view(), repo_id),
        size,
    );
    lemma_grow(
        u3,
        MERGE_CALLS_RPC@,
        "Failed to batch insert CALLS_RPC edges"@,
        list,
        rpc_edge_rows(found.rpc_services.deep_view(), repo_id),
        size,
    );
    let u4 = u3 + batched(
        MERGE_CALLS_RPC@,
        "Failed to batch insert CALLS_RPC edges"@,
        list,
        rpc_edge_rows(found.rpc_services.deep_view(), repo_id),
        size,
    );
    let queues = found.queues.deep_view();
    let q1 = batched(
        MERGE_PUBLISHES_TO@,
        "Failed to batch insert PUBLISHES_TO edges"@,
        list,
        queue_edge_rows(queues, QueueDirection::Publish, repo_id),
        size,
    );
    lemma_batched_unwinds(
        MERGE_PUBLISHES_TO@,
        "Failed to batch insert PUBLISHES_TO edges"@,
        list,
        queue_edge_rows(queues, QueueDirection::Publish, repo_id),
        size,
    );
    lemma_grow(
        q1,
        MERGE_CONSUMES_FROM@,
        "Failed to batch insert CONSUMES_FROM edges"@,
        list,
        queue_edge_rows(queues, QueueDirection::Consume, repo_id),
        size,
    );
    lemma_join_unwinds(u4, queue_statements(queues, repo_id, size), list);
    let u5 = u4 + queue_statements(queues, repo_id, size);
    lemma_grow(
        u5,
        MERGE_EXPOSED_BY@,
        "Failed to batch insert EXPOSED_BY edges"@,
        list,
        exposure_rows(
            found.endpoints.deep_view(),
            distinct(compose_names(found.compose_services.deep_view())),
            repo_id,
        ),
        size,
    );
    let use_part = use_edge_statements(repo_id, files, found, size);
    assert(all_unwind(use_part, list));
    lemma_join_unwinds(graph_part, use_part, list);
    lemma_grow(
        graph_part + use_part,
        MERGE_DEPENDS_ON_FILE@,
        "Failed to batch insert DEPENDS_ON edges"@,
        list,
        dependency_rows(files, files, repo_id),
        size,
    );
}

/// Nodes are written before edges: a plan is the statement for the job,
/// then statements that each unwind a list of nodes, then statements that
/// each unwind a list of edges; and the two lists differ by name.
pub proof fn law_nodes_are_written_before_edges(
    job_id: Seq<char>,
    repo_id: Seq<char>,
    files: Seq<ParsedFileModel>,
    graph: GraphModel,
    history: Option<Seq<(Seq<char>, FileContributionModel)>>,
    boundaries: Seq<BoundaryModel>,
    libraries: Seq<LibraryModel>,
    found: &CommunicationAnalysis,
    size: usize,
)
    ensures
        ({
            let nodes = node_statements(
                job_id,
                repo_id,
                files,
                graph,
                history,
                boundaries,
                libraries,
                found,
                size,
            );
            let edges = edge_statements(repo_id, files, graph, boundaries, libraries, found, size);
            let plan = upsert_plan(
                job_id,
                repo_id,
                files,
                graph,
                history,
                boundaries,
                libraries,
                found,
                size,
            );
            &&& plan == seq![job_statement(job_id, repo_id)] + nodes + edges
            &&& all_unwind(nodes, "nodes"@)
            &&& all_unwind(edges, "edges"@)
            &&& "nodes"@ != "edges"@
            &&& forall|i: int, j: int|
                0 <= i < plan.len() && 0 <= j < plan.len() && unwinds(plan[i], "nodes"@) && unwinds(
                    plan[j],
                    "edges"@,
                ) ==> i < j
        }),
{
    lemma_nodes_unwind(job_id, repo_id, files, graph, history, boundaries, libraries, found, size);
    lemma_edges_unwind(repo_id, files, graph, boundaries, libraries, found, size);
    reveal_strlit("nodes");
    reveal_strlit("edges");
    assert("nodes"@[0] == 'n');
    assert("edges"@[0] == 'e');
    let nodes = node_statements(
        job_id,
        repo_id,
        files,
        graph,
        history,
        boundaries,
        libraries,
        found,
        size,
    );
    let edges = edge_statements(repo_id, files, graph, boundaries, libraries, found, size);
    let head = seq![job_statement(job_id, repo_id)];
    let plan = head + nodes + edges;
    assert forall|i: int, j: int|
        0 <= i < plan.len() && 0 <= j < plan.len() && unwinds(plan[i], "nodes"@) && unwinds(
            plan[j],
            "edges"@,
        ) implies i < j by {
        assert(job_statement(job_id, repo_id).params.len() == 2);
        if i == 0 {
            assert(plan[0] == job_statement(job_id, repo_id));
        } else if i <= nodes.len() {
            assert(plan[i] == nodes[i - 1]);
        } else {
            assert(plan[i] == edges[i - 1 - nodes.len()]);
        }
        if j == 0 {
            assert(plan[0] == job_statement(job_id, repo_id));
        } else if j <= nodes.len() {
            assert(plan[j] == nodes[j - 1]);
        } else {
            assert(plan[j] == edges[j - 1 - nodes.len()]);
        }
    }
}

/// An incremental plan deletes before it stores: it is the delete
/// statements for the files named as changed or removed, each named once,
/// in order, followed by the plan of a full run on the files given.
pub proof fn law_incremental_plan_deletes_first(
    repo_id: Seq<char>,
    changed: Seq<Seq<char>>,
    removed: Seq<Seq<char>>,
    upserts: Seq<StatementModel>,
    k: int,
)
    requires
        0 <= k < (delete_plan(repo_id, delete_paths(changed, removed)) + upserts).len(),
    ensures
        ({
            let paths = delete_paths(changed, removed);
            let deletes = delete_plan(repo_id, paths);
            let plan = deletes + upserts;
            &&& deletes.len() == if paths.len() == 0 {
                0int
            } else {
                3int
            }
            &&& k < deletes.len() ==> plan[k] == deletes[k] && plan[k].params[0] == (
                "paths"@,
                crate::neo4j_storage::ParameterModel::Texts(paths),
            )
            &&& k >= deletes.len() ==> plan[k] == upserts[k - deletes.len()]
            &&& paths.no_duplicates()
            &&& forall|path: Seq<char>|
                paths.contains(path) <==> changed.contains(path) || removed.contains(path)
        }),
{
    crate::parsers::common::lemma_distinct_no_duplicates(changed + removed);
    crate::text::lemma_in_order_repeats_nothing(distinct(changed + removed));
    assert forall|path: Seq<char>|
        delete_paths(changed, removed).contains(path) <==> changed.contains(path)
            || removed.contains(path) by {
        crate::graph_laws::lemma_concat_contains(changed, removed, path);
        crate::text::lemma_in_order_holds_the_same(distinct(changed + removed), path);
    }
}

} // verus!
