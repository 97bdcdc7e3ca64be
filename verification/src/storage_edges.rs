//! The edge statements of the write plan.

use vstd::prelude::*;
use crate::boundary_detector::{BoundaryDetectionResult, BoundaryModel};
use crate::communication_detector::{
    CommunicationAnalysis, ComposeModel, EndpointModel, QueueDirection, QueueModel, RpcModel,
};
use crate::dependency_metadata::{LibraryDependency, LibraryModel};
use crate::graph_builder::{DependencyGraph, Edge, EdgeModel, EdgeType, NodeId, NodeKey};
use crate::neo4j_storage::{
    batch, batched, extend_plan, get_qualified_id, qualified_id, text_value, Row, RowModel,
    Statement, StatementModel, ValueModel,
};
use crate::parsers::{ParsedFile, ParsedFileModel};
use crate::storage_nodes::row_of;
use crate::text::{chars_of, contains, distinct, file_stem, file_stem_of, has_prefix, has_substring, holds, parent_name, parent_name_of, push_distinct, split_char, split_on, starts_with, str_eq, string_of, strip_prefixes, trim, trimmed, without_prefixes, without_surrounding, CharClass};
use crate::text::{join3, slice};
use crate::views::lemma_deep_view_push;

verus! {

// ---------------------------------------------------------------------------
// Edges of the dependency graph
// ---------------------------------------------------------------------------

pub const MERGE_FILE_DEFINES_CLASS: &'static str = "UNWIND $edges AS edge
             MATCH (f:File {path: edge.file_path, repo_id: edge.repo_id})
             MATCH (c:Class {id: edge.class_id, repo_id: edge.repo_id})
             MERGE (f)-[:DEFINES]->(c)";

pub const MERGE_FILE_DEFINES_FUNCTION: &'static str = "UNWIND $edges AS edge
             MATCH (f:File {path: edge.file_path, repo_id: edge.repo_id})
             MATCH (fn:Function {id: edge.func_id, repo_id: edge.repo_id})
             MERGE (f)-[:DEFINES]->(fn)";

pub const MERGE_CONTAINS: &'static str = "UNWIND $edges AS edge
             MATCH (c:Class {id: edge.class_id, repo_id: edge.repo_id})
             MATCH (fn:Function {id: edge.func_id, repo_id: edge.repo_id})
             MERGE (c)-[:CONTAINS]->(fn)";

pub const MERGE_CALLS: &'static str = "UNWIND $edges AS edge
             MATCH (from:Function {id: edge.from_id, repo_id: edge.repo_id})
             MATCH (to:Function {id: edge.to_id, repo_id: edge.repo_id})
             MERGE (from)-[:CALLS]->(to)";

pub const MERGE_IMPORTS: &'static str = "UNWIND $edges AS edge
             MATCH (f:File {path: edge.file_path, repo_id: edge.repo_id})
             MATCH (m:Module {name: edge.module_name, repo_id: edge.repo_id})
             MERGE (f)-[:IMPORTS]->(m)";

pub const MERGE_INHERITS_CLASS: &'static str = "UNWIND $edges AS edge
             MATCH (child:Class {id: edge.from_id, repo_id: edge.repo_id})
             MATCH (parent:Class {id: edge.to_id, repo_id: edge.repo_id})
               MERGE (child)-[r:INHERITS]->(parent)
               SET r.type = edge.inheritance_type";

pub const MERGE_INHERITS_MODULE: &'static str = "UNWIND $edges AS edge
             MATCH (child:Class {id: edge.class_id, repo_id: edge.repo_id})
             MATCH (parent:Module {name: edge.module_name, repo_id: edge.repo_id})
               MERGE (child)-[r:INHERITS]->(parent)
               SET r.type = edge.inheritance_type";

/// The shapes of graph edge that are stored, each with its own statement.
#[derive(Debug, Clone, Copy, PartialEq, Eq, Structural)]
pub enum EdgeShape {
    FileDefinesClass,
    FileDefinesFunction,
    ClassContainsFunction,
    FunctionCallsFunction,
    FileImportsModule,
    ClassInheritsClass,
    ClassInheritsModule,
}

/// A row of texts.
pub open spec fn texts(pairs: Seq<(Seq<char>, Seq<char>)>) -> RowModel {
    Seq::new(pairs.len(), |i: int| (pairs[i].0, ValueModel::Text(pairs[i].1)))
}

/// The value of the first property with the given key.
pub open spec fn property_of(properties: Seq<(Seq<char>, Seq<char>)>, key: Seq<char>) -> Option<
    Seq<char>,
>
    decreases properties.len(),
{
    if properties.len() == 0 {
        None
    } else if properties[0].0 == key {
        Some(properties[0].1)
    } else {
        property_of(properties.drop_first(), key)
    }
}

/// The kind of inheritance an edge records, `class` when it records none.
pub open spec fn inheritance_type(e: EdgeModel) -> Seq<char> {
    match property_of(e.properties, "kind"@) {
        Some(kind) => kind,
        None => "class"@,
    }
}

/// The persistent id of a class or function node.
pub open spec fn node_qualified_id(node: NodeKey) -> Seq<char> {
    match node {
        NodeKey::Class(file, name) => qualified_id(file, name),
        NodeKey::Function(file, name) => qualified_id(file, name),
        NodeKey::File(path) => path,
        NodeKey::Module(name) => name,
    }
}

/// The row an edge gives in a statement of the given shape; `None` when the
/// edge is not of that shape.
pub open spec fn edge_row(shape: EdgeShape, e: EdgeModel, repo_id: Seq<char>) -> Option<RowModel> {
    match (shape, e.edge_type, e.from, e.to) {
        (EdgeShape::FileDefinesClass, EdgeType::Defines, NodeKey::File(path), NodeKey::Class(_, _)) => Some(
            texts(
                seq![
                    ("file_path"@, path),
                    ("class_id"@, node_qualified_id(e.to)),
                    ("repo_id"@, repo_id),
                ],
            ),
        ),
        (
            EdgeShape::FileDefinesFunction,
            EdgeType::Defines,
            NodeKey::File(path),
            NodeKey::Function(_, _),
        ) => Some(
            texts(
                seq![
                    ("file_path"@, path),
                    ("func_id"@, node_qualified_id(e.to)),
                    ("repo_id"@, repo_id),
                ],
            ),
        ),
        (
            EdgeShape::ClassContainsFunction,
            EdgeType::Contains,
            NodeKey::Class(_, _),
            NodeKey::Function(_, _),
        ) => Some(
            texts(
                seq![
                    ("class_id"@, node_qualified_id(e.from)),
                    ("func_id"@, node_qualified_id(e.to)),
                    ("repo_id"@, repo_id),
                ],
            ),
        ),
        (
            EdgeShape::FunctionCallsFunction,
            EdgeType::Calls,
            NodeKey::Function(_, _),
            NodeKey::Function(_, _),
        ) => Some(
            texts(
                seq![
                    ("from_id"@, node_qualified_id(e.from)),
                    ("to_id"@, node_qualified_id(e.to)),
                    ("repo_id"@, repo_id),
                ],
            ),
        ),
        (EdgeShape::FileImportsModule, EdgeType::Imports, NodeKey::File(path), NodeKey::Module(name)) => Some(
            texts(seq![("file_path"@, path), ("module_name"@, name), ("repo_id"@, repo_id)]),
        ),
        (EdgeShape::ClassInheritsClass, EdgeType::Inherits, NodeKey::Class(_, _), NodeKey::Class(_, _)) => Some(
            texts(
                seq![
                    ("from_id"@, node_qualified_id(e.from)),
                    ("to_id"@, node_qualified_id(e.to)),
                    ("repo_id"@, repo_id),
                    ("inheritance_type"@, inheritance_type(e)),
                ],
            ),
        ),
        (
            EdgeShape::ClassInheritsModule,
            EdgeType::Inherits,
            NodeKey::Class(_, _),
            NodeKey::Module(name),
        ) => Some(
            texts(
                seq![
                    ("class_id"@, node_qualified_id(e.from)),
                    ("module_name"@, name),
                    ("repo_id"@, repo_id),
                    ("inheritance_type"@, inheritance_type(e)),
                ],
            ),
        ),
        _ => None,
    }
}

/// The rows of the edges of the given shape, in order.
pub open spec fn edge_rows(shape: EdgeShape, edges: Seq<EdgeModel>, repo_id: Seq<char>) -> Seq<RowModel>
    decreases edges.len(),
{
    if edges.len() == 0 {
        Seq::empty()
    } else {
        match edge_row(shape, edges.last(), repo_id) {
            Some(row) => edge_rows(shape, edges.drop_last(), repo_id).push(row),
            None => edge_rows(shape, edges.drop_last(), repo_id),
        }
    }
}

/// A row of three texts.
pub fn row3(a: &str, x: &str, b: &str, y: &str, c: &str, z: &str) -> (row: Row)
    ensures
        row.deep_view() == texts(seq![(a@, x@), (b@, y@), (c@, z@)]),
{
    let row = row_of(vec![text_value(a, x), text_value(b, y), text_value(c, z)]);
    assert(row.deep_view() =~= texts(seq![(a@, x@), (b@, y@), (c@, z@)]));
    row
}

/// A row of four texts.
pub fn row4(a: &str, x: &str, b: &str, y: &str, c: &str, z: &str, d: &str, w: &str) -> (row: Row)
    ensures
        row.deep_view() == texts(seq![(a@, x@), (b@, y@), (c@, z@), (d@, w@)]),
{
    let row = row_of(vec![text_value(a, x), text_value(b, y), text_value(c, z), text_value(d, w)]);
    assert(row.deep_view() =~= texts(seq![(a@, x@), (b@, y@), (c@, z@), (d@, w@)]));
    row
}

/// The persistent id of a node.
pub fn node_id_text(node: &NodeId) -> (id: String)
    ensures
        id@ == node_qualified_id(node@),
{
    match node {
        NodeId::File(path) => path.clone(),
        NodeId::Class(file, name) => get_qualified_id(file.as_str(), name.as_str()),
        NodeId::Function(file, name) => get_qualified_id(file.as_str(), name.as_str()),
        NodeId::Module(name) => name.clone(),
    }
}

/// The kind of inheritance an edge records.
fn inheritance_kind(edge: &Edge) -> (kind: String)
    ensures
        kind@ == inheritance_type(edge@),
{
    let ghost all = edge.properties.deep_view();
    let mut i: usize = 0;
    assert(all.skip(0) =~= all);
    while i < edge.properties.len()
        invariant
            i <= edge.properties@.len(),
            all == edge.properties.deep_view(),
            property_of(all, "kind"@) == property_of(all.skip(i as int), "kind"@),
        decreases edge.properties@.len() - i,
    {
        assert(all.skip(i as int)[0] == edge.properties[i as int]@);
        assert(all.skip(i as int).drop_first() =~= all.skip(i + 1));
        if str_eq(edge.properties[i].key.as_str(), "kind") {
            return edge.properties[i].value.clone();
        }
        i += 1;
    }
    "class".to_string()
}

/// The row an edge gives in a statement of the given shape.
fn row_of_edge(shape: EdgeShape, edge: &Edge, repo_id: &str) -> (row: Option<Row>)
    ensures
        row.deep_view() == edge_row(shape, edge@, repo_id@),
{
    match (shape, edge.edge_type, &edge.from, &edge.to) {
        (EdgeShape::FileDefinesClass, EdgeType::Defines, NodeId::File(path), NodeId::Class(_, _)) => {
            let id = node_id_text(&edge.to);
            Some(row3("file_path", path.as_str(), "class_id", id.as_str(), "repo_id", repo_id))
        },
        (EdgeShape::FileDefinesFunction, EdgeType::Defines, NodeId::File(path), NodeId::Function(_, _)) => {
            let id = node_id_text(&edge.to);
            Some(row3("file_path", path.as_str(), "func_id", id.as_str(), "repo_id", repo_id))
        },
        (
            EdgeShape::ClassContainsFunction,
            EdgeType::Contains,
            NodeId::Class(_, _),
            NodeId::Function(_, _),
        ) => {
            let from = node_id_text(&edge.from);
            let to = node_id_text(&edge.to);
            Some(row3("class_id", from.as_str(), "func_id", to.as_str(), "repo_id", repo_id))
        },
        (
            EdgeShape::FunctionCallsFunction,
            EdgeType::Calls,
            NodeId::Function(_, _),
            NodeId::Function(_, _),
        ) => {
            let from = node_id_text(&edge.from);
            let to = node_id_text(&edge.to);
            Some(row3("from_id", from.as_str(), "to_id", to.as_str(), "repo_id", repo_id))
        },
        (EdgeShape::FileImportsModule, EdgeType::Imports, NodeId::File(path), NodeId::Module(name)) => {
            Some(row3("file_path", path.as_str(), "module_name", name.as_str(), "repo_id", repo_id))
        },
        (EdgeShape::ClassInheritsClass, EdgeType::Inherits, NodeId::Class(_, _), NodeId::Class(_, _)) => {
            let from = node_id_text(&edge.from);
            let to = node_id_text(&edge.to);
            let kind = inheritance_kind(edge);
            Some(
                row4(
                    "from_id",
                    from.as_str(),
                    "to_id",
                    to.as_str(),
                    "repo_id",
                    repo_id,
                    "inheritance_type",
                    kind.as_str(),
                ),
            )
        },
        (EdgeShape::ClassInheritsModule, EdgeType::Inherits, NodeId::Class(_, _), NodeId::Module(name)) => {
            let from = node_id_text(&edge.from);
            let kind = inheritance_kind(edge);
            Some(
                row4(
                    "class_id",
                    from.as_str(),
                    "module_name",
                    name.as_str(),
                    "repo_id",
                    repo_id,
                    "inheritance_type",
                    kind.as_str(),
                ),
            )
        },
        _ => None,
    }
}

/// The rows of the edges of the given shape.
pub fn rows_of_edges(shape: EdgeShape, dep_graph: &DependencyGraph, repo_id: &str) -> (rows: Vec<Row>)
    ensures
        rows.deep_view() == edge_rows(shape, dep_graph@.edges, repo_id@),
{
    let mut rows: Vec<Row> = Vec::new();
    let ghost all = dep_graph@.edges;
    let mut i: usize = 0;
    assert(rows.deep_view() =~= edge_rows(shape, all.take(0), repo_id@));
    while i < dep_graph.edges.len()
        invariant
            i <= dep_graph.edges@.len(),
            all == dep_graph.edges.deep_view(),
            rows.deep_view() == edge_rows(shape, all.take(i as int), repo_id@),
        decreases dep_graph.edges@.len() - i,
    {
        proof {
            assert(all.take(i + 1).drop_last() =~= all.take(i as int));
            assert(all.take(i + 1).last() == dep_graph.edges[i as int]@);
        }
        match row_of_edge(shape, &dep_graph.edges[i], repo_id) {
            Some(row) => {
                proof {
                    lemma_deep_view_push(rows@, rows@.push(row), row);
                }
                rows.push(row);
            },
            None => {},
        }
        i += 1;
    }
    assert(all.take(i as int) =~= all);
    rows
}

/// The statements that store the `Defines` edges: those to classes, then
/// those to functions.
pub open spec fn defines_statements(edges: Seq<EdgeModel>, repo_id: Seq<char>, size: usize) -> Seq<
    StatementModel,
> {
    batched(
        MERGE_FILE_DEFINES_CLASS@,
        "Failed to batch insert File->Class DEFINES"@,
        "edges"@,
        edge_rows(EdgeShape::FileDefinesClass, edges, repo_id),
        size,
    ) + batched(
        MERGE_FILE_DEFINES_FUNCTION@,
        "Failed to batch insert File->Function DEFINES"@,
        "edges"@,
        edge_rows(EdgeShape::FileDefinesFunction, edges, repo_id),
        size,
    )
}

/// The statements that store the `Inherits` edges: those to classes, then
/// those to modules.
pub open spec fn inherits_statements(edges: Seq<EdgeModel>, repo_id: Seq<char>, size: usize) -> Seq<
    StatementModel,
> {
    batched(
        MERGE_INHERITS_CLASS@,
        "Failed to batch insert Class->Class INHERITS"@,
        "edges"@,
        edge_rows(EdgeShape::ClassInheritsClass, edges, repo_id),
        size,
    ) + batched(
        MERGE_INHERITS_MODULE@,
        "Failed to batch insert Class->Module INHERITS"@,
        "edges"@,
        edge_rows(EdgeShape::ClassInheritsModule, edges, repo_id),
        size,
    )
}

/// The statements that store the `Defines` edges.
pub fn batch_insert_defines_edges(repo_id: &str, dep_graph: &DependencyGraph, batch_size: usize) -> (plan:
    Vec<Statement>)
    requires
        batch_size > 0,
    ensures
        plan.deep_view() == defines_statements(dep_graph@.edges, repo_id@, batch_size),
{
    let mut plan = batch(
        MERGE_FILE_DEFINES_CLASS,
        "Failed to batch insert File->Class DEFINES",
        "edges",
        rows_of_edges(EdgeShape::FileDefinesClass, dep_graph, repo_id),
        batch_size,
    );
    extend_plan(
        &mut plan,
        batch(
            MERGE_FILE_DEFINES_FUNCTION,
            "Failed to batch insert File->Function DEFINES",
            "edges",
            rows_of_edges(EdgeShape::FileDefinesFunction, dep_graph, repo_id),
            batch_size,
        ),
    );
    plan
}

/// The statements that store the `Contains` edges.
pub fn batch_insert_contains_edges(repo_id: &str, dep_graph: &DependencyGraph, batch_size: usize) -> (plan:
    Vec<Statement>)
    requires
        batch_size > 0,
    ensures
        plan.deep_view() == batched(
            MERGE_CONTAINS@,
            "Failed to batch insert CONTAINS edges"@,
            "edges"@,
            edge_rows(EdgeShape::ClassContainsFunction, dep_graph@.edges, repo_id@),
            batch_size,
        ),
{
    batch(
        MERGE_CONTAINS,
        "Failed to batch insert CONTAINS edges",
        "edges",
        rows_of_edges(EdgeShape::ClassContainsFunction, dep_graph, repo_id),
        batch_size,
    )
}

/// The statements that store the `Calls` edges.
pub fn batch_insert_calls_edges(repo_id: &str, dep_graph: &DependencyGraph, batch_size: usize) -> (plan:
    Vec<Statement>)
    requires
        batch_size > 0,
    ensures
        plan.deep_view() == batched(
            MERGE_CALLS@,
            "Failed to batch insert CALLS edges"@,
            "edges"@,
            edge_rows(EdgeShape::FunctionCallsFunction, dep_graph@.edges, repo_id@),
            batch_size,
        ),
{
    batch(
        MERGE_CALLS,
        "Failed to batch insert CALLS edges",
        "edges",
        rows_of_edges(EdgeShape::FunctionCallsFunction, dep_graph, repo_id),
        batch_size,
    )
}

/// The statements that store the `Imports` edges.
pub fn batch_insert_imports_edges(repo_id: &str, dep_graph: &DependencyGraph, batch_size: usize) -> (plan:
    Vec<Statement>)
    requires
        batch_size > 0,
    ensures
        plan.deep_view() == batched(
            MERGE_IMPORTS@,
            "Failed to batch insert IMPORTS edges"@,
            "edges"@,
            edge_rows(EdgeShape::FileImportsModule, dep_graph@.edges, repo_id@),
            batch_size,
        ),
{
    batch(
        MERGE_IMPORTS,
        "Failed to batch insert IMPORTS edges",
        "edges",
        rows_of_edges(EdgeShape::FileImportsModule, dep_graph, repo_id),
        batch_size,
    )
}

/// The statements that store the `Inherits` edges, each with its kind.
pub fn batch_insert_inherits_edges(repo_id: &str, dep_graph: &DependencyGraph, batch_size: usize) -> (plan:
    Vec<Statement>)
    requires
        batch_size > 0,
    ensures
        plan.deep_view() == inherits_statements(dep_graph@.edges, repo_id@, batch_size),
{
    let mut plan = batch(
        MERGE_INHERITS_CLASS,
        "Failed to batch insert Class->Class INHERITS",
        "edges",
        rows_of_edges(EdgeShape::ClassInheritsClass, dep_graph, repo_id),
        batch_size,
    );
    extend_plan(
        &mut plan,
        batch(
            MERGE_INHERITS_MODULE,
            "Failed to batch insert Class->Module INHERITS",
            "edges",
            rows_of_edges(EdgeShape::ClassInheritsModule, dep_graph, repo_id),
            batch_size,
        ),
    );
    plan
}


// ---------------------------------------------------------------------------
// Edges from files to what they belong to, use and call
// ---------------------------------------------------------------------------

pub const MERGE_BELONGS_TO: &'static str = "UNWIND $edges AS edge
             MATCH (f:File {id: edge.file_id, repo_id: edge.repo_id})
             MATCH (b:Boundary {id: edge.boundary_id, repo_id: edge.repo_id})
             MERGE (f)-[:BELONGS_TO]->(b)";

pub const MERGE_USES_TABLE: &'static str = "UNWIND $edges AS edge
             MATCH (f:File {path: edge.file_path, repo_id: edge.repo_id})
             MATCH (t:Table {name: edge.table_name, repo_id: edge.repo_id})
             MERGE (f)-[:USES_TABLE]->(t)";

pub const MERGE_CALLS_SERVICE: &'static str = "UNWIND $edges AS edge
             MATCH (f:File {path: edge.file_path, repo_id: edge.repo_id})
             MATCH (s:Service {name: edge.service_name, protocol: edge.service_protocol, repo_id: edge.repo_id})
             MERGE (f)-[:CALLS_SERVICE]->(s)";

pub const MERGE_CALLS_ENDPOINT: &'static str = "UNWIND $edges AS edge
             MATCH (f:File {path: edge.file_path, repo_id: edge.repo_id})
             MATCH (e:Endpoint {url: edge.url, method: edge.method, repo_id: edge.repo_id})
             MERGE (f)-[:CALLS_ENDPOINT]->(e)";

pub const MERGE_CALLS_RPC: &'static str = "UNWIND $edges AS edge
             MATCH (f:File {path: edge.file_path, repo_id: edge.repo_id})
             MATCH (r:RpcService {name: edge.service_name, repo_id: edge.repo_id})
             MERGE (f)-[:CALLS_RPC]->(r)";

pub const MERGE_PUBLISHES_TO: &'static str = "UNWIND $edges AS edge
             MATCH (f:File {path: edge.file_path, repo_id: edge.repo_id})
             MATCH (q:MessageQueue {topic: edge.topic, repo_id: edge.repo_id})
             MERGE (f)-[:PUBLISHES_TO]->(q)";

pub const MERGE_CONSUMES_FROM: &'static str = "UNWIND $edges AS edge
             MATCH (f:File {path: edge.file_path, repo_id: edge.repo_id})
             MATCH (q:MessageQueue {topic: edge.topic, repo_id: edge.repo_id})
             MERGE (f)-[:CONSUMES_FROM]->(q)";

pub const MERGE_EXPOSED_BY: &'static str = "UNWIND $edges AS edge
             MATCH (e:Endpoint {url: edge.url, method: edge.method, repo_id: edge.repo_id})
             MATCH (s:ComposeService {name: edge.service_name, repo_id: edge.repo_id})
             MERGE (e)-[:EXPOSED_BY]->(s)";

/// The rows that tie the files of one boundary to it.
pub open spec fn membership_rows(b: BoundaryModel, repo_id: Seq<char>) -> Seq<RowModel> {
    Seq::new(
        b.files.len(),
        |i: int| texts(seq![("file_id"@, b.files[i]), ("boundary_id"@, b.id), ("repo_id"@, repo_id)]),
    )
}

/// The rows of the `BelongsTo` edges, boundary by boundary.
pub open spec fn belongs_to_rows(boundaries: Seq<BoundaryModel>, repo_id: Seq<char>) -> Seq<RowModel>
    decreases boundaries.len(),
{
    if boundaries.len() == 0 {
        Seq::empty()
    } else {
        belongs_to_rows(boundaries.drop_last(), repo_id) + membership_rows(boundaries.last(), repo_id)
    }
}

/// The statements that store the `BelongsTo` edges.
pub fn batch_insert_belongs_to_edges(
    repo_id: &str,
    boundary_result: &BoundaryDetectionResult,
    batch_size: usize,
) -> (plan: Vec<Statement>)
    requires
        batch_size > 0,
    ensures
        plan.deep_view() == batched(
            MERGE_BELONGS_TO@,
            "Failed to batch insert BELONGS_TO edges"@,
            "edges"@,
            belongs_to_rows(boundary_result.boundaries.deep_view(), repo_id@),
            batch_size,
        ),
{
    let mut rows: Vec<Row> = Vec::new();
    let ghost all = boundary_result.boundaries.deep_view();
    let mut i: usize = 0;
    assert(rows.deep_view() =~= belongs_to_rows(all.take(0), repo_id@));
    while i < boundary_result.boundaries.len()
        invariant
            i <= boundary_result.boundaries@.len(),
            all == boundary_result.boundaries.deep_view(),
            rows.deep_view() == belongs_to_rows(all.take(i as int), repo_id@),
        decreases boundary_result.boundaries@.len() - i,
    {
        let boundary = &boundary_result.boundaries[i];
        let ghost before = rows.deep_view();
        let ghost own = membership_rows(boundary@, repo_id@);
        proof {
            assert(all.take(i + 1).drop_last() =~= all.take(i as int));
            assert(all.take(i + 1).last() == boundary@);
            assert(before + own.take(0) =~= before);
        }
        let mut k: usize = 0;
        while k < boundary.files.len()
            invariant
                k <= boundary.files@.len(),
                own == membership_rows(boundary@, repo_id@),
                rows.deep_view() == before + own.take(k as int),
            decreases boundary.files@.len() - k,
        {
            let row = row3(
                "file_id",
                boundary.files[k].as_str(),
                "boundary_id",
                boundary.id.as_str(),
                "repo_id",
                repo_id,
            );
            proof {
                lemma_deep_view_push(rows@, rows@.push(row), row);
                assert((before + own.take(k as int)).push(own[k as int]) =~= before + own.take(k + 1));
            }
            rows.push(row);
            k += 1;
        }
        assert(own.take(k as int) =~= own);
        i += 1;
    }
    assert(all.take(i as int) =~= all);
    batch(MERGE_BELONGS_TO, "Failed to batch insert BELONGS_TO edges", "edges", rows, batch_size)
}

/// The rows that tie one file to the tables it refers to.
pub open spec fn table_rows_of(file: ParsedFileModel, repo_id: Seq<char>) -> Seq<RowModel> {
    Seq::new(
        file.data_tables.len(),
        |i: int|
            texts(
                seq![
                    ("file_path"@, file.path),
                    ("table_name"@, file.data_tables[i]),
                    ("repo_id"@, repo_id),
                ],
            ),
    )
}

/// The rows of the `UsesTable` edges, file by file.
pub open spec fn table_edge_rows(files: Seq<ParsedFileModel>, repo_id: Seq<char>) -> Seq<RowModel>
    decreases files.len(),
{
    if files.len() == 0 {
        Seq::empty()
    } else {
        table_edge_rows(files.drop_last(), repo_id) + table_rows_of(files.last(), repo_id)
    }
}

/// The statements that store the `UsesTable` edges.
pub fn batch_insert_table_edges(repo_id: &str, parsed_files: &[ParsedFile], batch_size: usize) -> (plan:
    Vec<Statement>)
    requires
        batch_size > 0,
    ensures
        plan.deep_view() == batched(
            MERGE_USES_TABLE@,
            "Failed to batch insert table edges"@,
            "edges"@,
            table_edge_rows(parsed_files.deep_view(), repo_id@),
            batch_size,
        ),
{
    let mut rows: Vec<Row> = Vec::new();
    let ghost all = parsed_files.deep_view();
    let mut i: usize = 0;
    assert(rows.deep_view() =~= table_edge_rows(all.take(0), repo_id@));
    while i < parsed_files.len()
        invariant
            i <= parsed_files@.len(),
            all == parsed_files.deep_view(),
            rows.deep_view() == table_edge_rows(all.take(i as int), repo_id@),
        decreases parsed_files@.len() - i,
    {
        let file = &parsed_files[i];
        let ghost before = rows.deep_view();
        let ghost own = table_rows_of(file@, repo_id@);
        proof {
            assert(all.take(i + 1).drop_last() =~= all.take(i as int));
            assert(all.take(i + 1).last() == file@);
            assert(before + own.take(0) =~= before);
        }
        let mut k: usize = 0;
        while k < file.data_tables.len()
            invariant
                k <= file.data_tables@.len(),
                own == table_rows_of(file@, repo_id@),
                rows.deep_view() == before + own.take(k as int),
            decreases file.data_tables@.len() - k,
        {
            let row = row3(
                "file_path",
                file.path.as_str(),
                "table_name",
                file.data_tables[k].as_str(),
                "repo_id",
                repo_id,
            );
            proof {
                lemma_deep_view_push(rows@, rows@.push(row), row);
                assert((before + own.take(k as int)).push(own[k as int]) =~= before + own.take(k + 1));
            }
            rows.push(row);
            k += 1;
        }
        assert(own.take(k as int) =~= own);
        i += 1;
    }
    assert(all.take(i as int) =~= all);
    batch(MERGE_USES_TABLE, "Failed to batch insert table edges", "edges", rows, batch_size)
}

/// The rows that tie one file to the services it calls.
pub open spec fn service_rows_of(file: ParsedFileModel, repo_id: Seq<char>) -> Seq<RowModel> {
    Seq::new(
        file.service_calls.len(),
        |i: int|
            texts(
                seq![
                    ("file_path"@, file.path),
                    ("service_name"@, file.service_calls[i].target),
                    ("service_protocol"@, file.service_calls[i].protocol),
                    ("repo_id"@, repo_id),
                ],
            ),
    )
}

/// The rows of the `CallsService` edges, file by file.
pub open spec fn service_edge_rows(files: Seq<ParsedFileModel>, repo_id: Seq<char>) -> Seq<RowModel>
    decreases files.len(),
{
    if files.len() == 0 {
        Seq::empty()
    } else {
        service_edge_rows(files.drop_last(), repo_id) + service_rows_of(files.last(), repo_id)
    }
}

/// The statements that store the `CallsService` edges.
pub fn batch_insert_service_edges(repo_id: &str, parsed_files: &[ParsedFile], batch_size: usize) -> (plan:
    Vec<Statement>)
    requires
        batch_size > 0,
    ensures
        plan.deep_view() == batched(
            MERGE_CALLS_SERVICE@,
            "Failed to batch insert service edges"@,
            "edges"@,
            service_edge_rows(parsed_files.deep_view(), repo_id@),
            batch_size,
        ),
{
    let mut rows: Vec<Row> = Vec::new();
    let ghost all = parsed_files.deep_view();
    let mut i: usize = 0;
    assert(rows.deep_view() =~= service_edge_rows(all.take(0), repo_id@));
    while i < parsed_files.len()
        invariant
            i <= parsed_files@.len(),
            all == parsed_files.deep_view(),
            rows.deep_view() == service_edge_rows(all.take(i as int), repo_id@),
        decreases parsed_files@.len() - i,
    {
        let file = &parsed_files[i];
        let ghost before = rows.deep_view();
        let ghost own = service_rows_of(file@, repo_id@);
        proof {
            assert(all.take(i + 1).drop_last() =~= all.take(i as int));
            assert(all.take(i + 1).last() == file@);
            assert(before + own.take(0) =~= before);
        }
        let mut k: usize = 0;
        while k < file.service_calls.len()
            invariant
                k <= file.service_calls@.len(),
                own == service_rows_of(file@, repo_id@),
                rows.deep_view() == before + own.take(k as int),
            decreases file.service_calls@.len() - k,
        {
            let row = row4(
                "file_path",
                file.path.as_str(),
                "service_name",
                file.service_calls[k].target.as_str(),
                "service_protocol",
                file.service_calls[k].protocol.as_str(),
                "repo_id",
                repo_id,
            );
            proof {
                lemma_deep_view_push(rows@, rows@.push(row), row);
                assert((before + own.take(k as int)).push(own[k as int]) =~= before + own.take(k + 1));
            }
            rows.push(row);
            k += 1;
        }
        assert(own.take(k as int) =~= own);
        i += 1;
    }
    assert(all.take(i as int) =~= all);
    batch(MERGE_CALLS_SERVICE, "Failed to batch insert service edges", "edges", rows, batch_size)
}

/// The rows of the `CallsEndpoint` edges.
pub open spec fn endpoint_edge_rows(endpoints: Seq<EndpointModel>, repo_id: Seq<char>) -> Seq<RowModel> {
    Seq::new(
        endpoints.len(),
        |i: int|
            texts(
                seq![
                    ("file_path"@, endpoints[i].file_path),
                    ("url"@, endpoints[i].url),
                    ("method"@, endpoints[i].method),
                    ("repo_id"@, repo_id),
                ],
            ),
    )
}

/// The statements that store the `CallsEndpoint` edges.
pub fn batch_insert_endpoint_edges(
    repo_id: &str,
    communication_analysis: &CommunicationAnalysis,
    batch_size: usize,
) -> (plan: Vec<Statement>)
    requires
        batch_size > 0,
    ensures
        plan.deep_view() == batched(
            MERGE_CALLS_ENDPOINT@,
            "Failed to batch insert CALLS_ENDPOINT edges"@,
            "edges"@,
            endpoint_edge_rows(communication_analysis.endpoints.deep_view(), repo_id@),
            batch_size,
        ),
{
    let mut rows: Vec<Row> = Vec::new();
    let ghost all = endpoint_edge_rows(communication_analysis.endpoints.deep_view(), repo_id@);
    let mut i: usize = 0;
    assert(rows.deep_view() =~= all.take(0));
    while i < communication_analysis.endpoints.len()
        invariant
            i <= communication_analysis.endpoints@.len(),
            all == endpoint_edge_rows(communication_analysis.endpoints.deep_view(), repo_id@),
            rows.deep_view() == all.take(i as int),
        decreases communication_analysis.endpoints@.len() - i,
    {
        let endpoint = &communication_analysis.endpoints[i];
        let row = row4(
            "file_path",
            endpoint.file_path.as_str(),
            "url",
            endpoint.url.as_str(),
            "method",
            endpoint.method.as_str(),
            "repo_id",
            repo_id,
        );
        proof {
            lemma_deep_view_push(rows@, rows@.push(row), row);
            assert(all.take(i as int).push(all[i as int]) =~= all.take(i + 1));
        }
        rows.push(row);
        i += 1;
    }
    assert(all.take(i as int) =~= all);
    batch(MERGE_CALLS_ENDPOINT, "Failed to batch insert CALLS_ENDPOINT edges", "edges", rows, batch_size)
}

/// The rows of the `CallsRpc` edges.
pub open spec fn rpc_edge_rows(rpcs: Seq<RpcModel>, repo_id: Seq<char>) -> Seq<RowModel> {
    Seq::new(
        rpcs.len(),
        |i: int|
            texts(
                seq![
                    ("file_path"@, rpcs[i].file_path),
                    ("service_name"@, rpcs[i].service_name),
                    ("repo_id"@, repo_id),
                ],
            ),
    )
}

/// The statements that store the `CallsRpc` edges.
pub fn batch_insert_rpc_edges(
    repo_id: &str,
    communication_analysis: &CommunicationAnalysis,
    batch_size: usize,
) -> (plan: Vec<Statement>)
    requires
        batch_size > 0,
    ensures
        plan.deep_view() == batched(
            MERGE_CALLS_RPC@,
            "Failed to batch insert CALLS_RPC edges"@,
            "edges"@,
            rpc_edge_rows(communication_analysis.rpc_services.deep_view(), repo_id@),
            batch_size,
        ),
{
    let mut rows: Vec<Row> = Vec::new();
    let ghost all = rpc_edge_rows(communication_analysis.rpc_services.deep_view(), repo_id@);
    let mut i: usize = 0;
    assert(rows.deep_view() =~= all.take(0));
    while i < communication_analysis.rpc_services.len()
        invariant
            i <= communication_analysis.rpc_services@.len(),
            all == rpc_edge_rows(communication_analysis.rpc_services.deep_view(), repo_id@),
            rows.deep_view() == all.take(i as int),
        decreases communication_analysis.rpc_services@.len() - i,
    {
        let rpc = &communication_analysis.rpc_services[i];
        let row = row3(
            "file_path",
            rpc.file_path.as_str(),
            "service_name",
            rpc.service_name.as_str(),
            "repo_id",
            repo_id,
        );
        proof {
            lemma_deep_view_push(rows@, rows@.push(row), row);
            assert(all.take(i as int).push(all[i as int]) =~= all.take(i + 1));
        }
        rows.push(row);
        i += 1;
    }
    assert(all.take(i as int) =~= all);
    batch(MERGE_CALLS_RPC, "Failed to batch insert CALLS_RPC edges", "edges", rows, batch_size)
}

/// The rows of the queue uses in one direction, in order.
pub open spec fn queue_edge_rows(
    queues: Seq<QueueModel>,
    direction: QueueDirection,
    repo_id: Seq<char>,
) -> Seq<RowModel>
    decreases queues.len(),
{
    if queues.len() == 0 {
        Seq::empty()
    } else if queues.last().direction == direction {
        queue_edge_rows(queues.drop_last(), direction, repo_id).push(
            texts(
                seq![
                    ("file_path"@, queues.last().file_path),
                    ("topic"@, queues.last().topic),
                    ("repo_id"@, repo_id),
                ],
            ),
        )
    } else {
        queue_edge_rows(queues.drop_last(), direction, repo_id)
    }
}

/// The statements that store the queue edges: `PublishesTo`, then
/// `ConsumesFrom`.
pub open spec fn queue_statements(queues: Seq<QueueModel>, repo_id: Seq<char>, size: usize) -> Seq<
    StatementModel,
> {
    batched(
        MERGE_PUBLISHES_TO@,
        "Failed to batch insert PUBLISHES_TO edges"@,
        "edges"@,
        queue_edge_rows(queues, QueueDirection::Publish, repo_id),
        size,
    ) + batched(
        MERGE_CONSUMES_FROM@,
        "Failed to batch insert CONSUMES_FROM edges"@,
        "edges"@,
        queue_edge_rows(queues, QueueDirection::Consume, repo_id),
        size,
    )
}

fn queue_rows(communication_analysis: &CommunicationAnalysis, direction: QueueDirection, repo_id: &str) -> (rows:
    Vec<Row>)
    ensures
        rows.deep_view() == queue_edge_rows(
            communication_analysis.queues.deep_view(),
            direction,
            repo_id@,
        ),
{
    let mut rows: Vec<Row> = Vec::new();
    let ghost all = communication_analysis.queues.deep_view();
    let mut i: usize = 0;
    assert(rows.deep_view() =~= queue_edge_rows(all.take(0), direction, repo_id@));
    while i < communication_analysis.queues.len()
        invariant
            i <= communication_analysis.queues@.len(),
            all == communication_analysis.queues.deep_view(),
            rows.deep_view() == queue_edge_rows(all.take(i as int), direction, repo_id@),
        decreases communication_analysis.queues@.len() - i,
    {
        let queue = &communication_analysis.queues[i];
        proof {
            assert(all.take(i + 1).drop_last() =~= all.take(i as int));
            assert(all.take(i + 1).last() == queue@);
        }
        if queue.direction == direction {
            let row = row3(
                "file_path",
                queue.file_path.as_str(),
                "topic",
                queue.topic.as_str(),
                "repo_id",
                repo_id,
            );
            proof {
                lemma_deep_view_push(rows@, rows@.push(row), row);
            }
            rows.push(row);
        }
        i += 1;
    }
    assert(all.take(i as int) =~= all);
    rows
}

/// The statements that store the queue edges.
pub fn batch_insert_queue_edges(
    repo_id: &str,
    communication_analysis: &CommunicationAnalysis,
    batch_size: usize,
) -> (plan: Vec<Statement>)
    requires
        batch_size > 0,
    ensures
        plan.deep_view() == queue_statements(
            communication_analysis.queues.deep_view(),
            repo_id@,
            batch_size,
        ),
{
    let mut plan = batch(
        MERGE_PUBLISHES_TO,
        "Failed to batch insert PUBLISHES_TO edges",
        "edges",
        queue_rows(communication_analysis, QueueDirection::Publish, repo_id),
        batch_size,
    );
    extend_plan(
        &mut plan,
        batch(
            MERGE_CONSUMES_FROM,
            "Failed to batch insert CONSUMES_FROM edges",
            "edges",
            queue_rows(communication_analysis, QueueDirection::Consume, repo_id),
            batch_size,
        ),
    );
    plan
}

/// The names of the compose services, in order.
pub open spec fn compose_names(services: Seq<ComposeModel>) -> Seq<Seq<char>> {
    Seq::new(services.len(), |i: int| services[i].name)
}

/// The rows that tie one endpoint to the services whose name its host
/// holds.
pub open spec fn exposure_rows_of(e: EndpointModel, names: Seq<Seq<char>>, repo_id: Seq<char>) -> Seq<
    RowModel,
>
    decreases names.len(),
{
    if names.len() == 0 {
        Seq::empty()
    } else {
        let rest = exposure_rows_of(e, names.drop_last(), repo_id);
        match e.host {
            Some(host) => if has_substring(host, names.last()) {
                rest.push(
                    texts(
                        seq![
                            ("url"@, e.url),
                            ("method"@, e.method),
                            ("service_name"@, names.last()),
                            ("repo_id"@, repo_id),
                        ],
                    ),
                )
            } else {
                rest
            },
            None => rest,
        }
    }
}

/// The rows of the `ExposedBy` edges: an endpoint is exposed by every
/// compose service whose name stands in its host.
pub open spec fn exposure_rows(endpoints: Seq<EndpointModel>, names: Seq<Seq<char>>, repo_id: Seq<char>) -> Seq<
    RowModel,
>
    decreases endpoints.len(),
{
    if endpoints.len() == 0 {
        Seq::empty()
    } else {
        exposure_rows(endpoints.drop_last(), names, repo_id) + exposure_rows_of(
            endpoints.last(),
            names,
            repo_id,
        )
    }
}

/// The statements that store the `ExposedBy` edges.
pub fn batch_insert_endpoint_service_edges(
    repo_id: &str,
    communication_analysis: &CommunicationAnalysis,
    batch_size: usize,
) -> (plan: Vec<Statement>)
    requires
        batch_size > 0,
    ensures
        plan.deep_view() == batched(
            MERGE_EXPOSED_BY@,
            "Failed to batch insert EXPOSED_BY edges"@,
            "edges"@,
            exposure_rows(
                communication_analysis.endpoints.deep_view(),
                distinct(compose_names(communication_analysis.compose_services.deep_view())),
                repo_id@,
            ),
            batch_size,
        ),
{
    let mut service_names: Vec<String> = Vec::new();
    let ghost declared = compose_names(communication_analysis.compose_services.deep_view());
    let mut s: usize = 0;
    assert(service_names.deep_view() =~= distinct(declared.take(0)));
    while s < communication_analysis.compose_services.len()
        invariant
            s <= communication_analysis.compose_services@.len(),
            declared == compose_names(communication_analysis.compose_services.deep_view()),
            service_names.deep_view() == distinct(declared.take(s as int)),
        decreases communication_analysis.compose_services@.len() - s,
    {
        assert(declared.take(s as int).push(declared[s as int]) =~= declared.take(s + 1));
        push_distinct(
            &mut service_names,
            communication_analysis.compose_services[s].name.clone(),
            Ghost(declared.take(s as int)),
        );
        s += 1;
    }
    assert(declared.take(s as int) =~= declared);

    let ghost names = service_names.deep_view();
    let ghost all = communication_analysis.endpoints.deep_view();
    let mut rows: Vec<Row> = Vec::new();
    let mut i: usize = 0;
    assert(rows.deep_view() =~= exposure_rows(all.take(0), names, repo_id@));
    while i < communication_analysis.endpoints.len()
        invariant
            i <= communication_analysis.endpoints@.len(),
            all == communication_analysis.endpoints.deep_view(),
            names == service_names.deep_view(),
            rows.deep_view() == exposure_rows(all.take(i as int), names, repo_id@),
        decreases communication_analysis.endpoints@.len() - i,
    {
        let endpoint = &communication_analysis.endpoints[i];
        let ghost before = rows.deep_view();
        proof {
            assert(all.take(i + 1).drop_last() =~= all.take(i as int));
            assert(all.take(i + 1).last() == endpoint@);
            assert(before + exposure_rows_of(endpoint@, names.take(0), repo_id@) =~= before);
        }
        let host = match &endpoint.host {
            Some(h) => Some(chars_of(h.as_str())),
            None => None,
        };
        let mut k: usize = 0;
        while k < service_names.len()
            invariant
                k <= service_names@.len(),
                names == service_names.deep_view(),
                match host {
                    Some(h) => endpoint@.host == Some(h@),
                    None => endpoint@.host is None,
                },
                rows.deep_view() == before + exposure_rows_of(
                    endpoint@,
                    names.take(k as int),
                    repo_id@,
                ),
            decreases service_names@.len() - k,
        {
            proof {
                assert(names.take(k + 1).drop_last() =~= names.take(k as int));
                assert(names.take(k + 1).last() == service_names[k as int]@);
            }
            let ghost so_far = exposure_rows_of(endpoint@, names.take(k as int), repo_id@);
            match &host {
                Some(h) => {
                    if contains(h, &chars_of(service_names[k].as_str())) {
                        let row = row4(
                            "url",
                            endpoint.url.as_str(),
                            "method",
                            endpoint.method.as_str(),
                            "service_name",
                            service_names[k].as_str(),
                            "repo_id",
                            repo_id,
                        );
                        proof {
                            lemma_deep_view_push(rows@, rows@.push(row), row);
                            assert((before + so_far).push(row.deep_view()) =~= before + so_far.push(
                                row.deep_view(),
                            ));
                        }
                        rows.push(row);
                    }
                },
                None => {},
            }
            k += 1;
        }
        assert(names.take(k as int) =~= names);
        i += 1;
    }
    assert(all.take(i as int) =~= all);
    batch(MERGE_EXPOSED_BY, "Failed to batch insert EXPOSED_BY edges", "edges", rows, batch_size)
}


// ---------------------------------------------------------------------------
// Edges from files to libraries
// ---------------------------------------------------------------------------

pub const MERGE_DEPENDS_ON_LIBRARY: &'static str = "UNWIND $edges AS edge
             MATCH (f:File {path: edge.file_path, repo_id: edge.repo_id})
             MATCH (l:Library {name: edge.library_name, repo_id: edge.repo_id})
             MERGE (f)-[r:DEPENDS_ON]->(l)
             SET r.type = 'library',
                 r.version = edge.library_version";

/// An import string without surrounding whitespace, double quotes and
/// backticks.
pub open spec fn cleaned_import(import: Seq<char>) -> Seq<char> {
    without_surrounding(
        without_surrounding(trimmed(import), CharClass::Is('"')),
        CharClass::Is('`'),
    )
}

/// The library an import string names. An import that starts with `.` or
/// `/` names a file, not a library. An import that starts with `@` and has a
/// `/` names the library of its first two segments; any other names the
/// library of its first segment.
pub open spec fn library_of_import(import: Seq<char>) -> Option<Seq<char>> {
    let text = cleaned_import(import);
    let parts = split_on(text, '/');
    if text.len() > 0 && (text[0] == '.' || text[0] == '/') {
        None
    } else if text.len() > 0 && text[0] == '@' && parts.len() >= 2 {
        Some(parts[0] + "/"@ + parts[1])
    } else {
        Some(parts[0])
    }
}

/// The library an import string names, if it names one.
pub fn normalize_import_to_library(import_path: &str) -> (r: Option<String>)
    ensures
        r.deep_view() == library_of_import(import_path@),
{
    let text = trim(
        &trim(&trim(&chars_of(import_path), CharClass::Space), CharClass::Is('"')),
        CharClass::Is('`'),
    );
    if text.len() > 0 && (text[0] == '.' || text[0] == '/') {
        return None;
    }
    let parts = split_char(&text, '/');
    assert(parts.deep_view()[0] =~= parts[0]@);
    if text.len() > 0 && text[0] == '@' && parts.len() >= 2 {
        assert(parts.deep_view()[1] =~= parts[1]@);
        let scope = string_of(slice(&parts[0], 0, parts[0].len()));
        let package = string_of(slice(&parts[1], 0, parts[1].len()));
        assert(parts[0]@.subrange(0, parts[0]@.len() as int) =~= parts[0]@);
        assert(parts[1]@.subrange(0, parts[1]@.len() as int) =~= parts[1]@);
        return Some(join3(scope.as_str(), "/", package.as_str()));
    }
    assert(parts[0]@.subrange(0, parts[0]@.len() as int) =~= parts[0]@);
    Some(string_of(slice(&parts[0], 0, parts[0].len())))
}

/// The version the catalog holds for a library: that of the last entry
/// with the name, empty when the entry has none; `None` when no entry has
/// the name.
pub open spec fn catalog_version(deps: Seq<LibraryModel>, name: Seq<char>) -> Option<Seq<char>>
    decreases deps.len(),
{
    if deps.len() == 0 {
        None
    } else if deps.last().name == name {
        Some(
            match deps.last().version {
                Some(v) => v,
                None => Seq::empty(),
            },
        )
    } else {
        catalog_version(deps.drop_last(), name)
    }
}

/// The version the catalog holds for a library.
pub fn version_in_catalog(library_dependencies: &[LibraryDependency], name: &str) -> (r: Option<
    String,
>)
    ensures
        r.deep_view() == catalog_version(library_dependencies.deep_view(), name@),
{
    let ghost all = library_dependencies.deep_view();
    let mut k: usize = library_dependencies.len();
    assert(all.take(k as int) =~= all);
    while k > 0
        invariant
            k <= library_dependencies@.len(),
            all == library_dependencies.deep_view(),
            catalog_version(all, name@) == catalog_version(all.take(k as int), name@),
        decreases k,
    {
        assert(all.take(k as int).drop_last() =~= all.take(k - 1));
        assert(all.take(k as int).last() == library_dependencies[k - 1]@);
        if str_eq(library_dependencies[k - 1].name.as_str(), name) {
            return Some(crate::storage_nodes::version_text(&library_dependencies[k - 1]));
        }
        k -= 1;
    }
    None
}

/// The row that ties a file to the library one of its imports names, if the
/// import names a library of the catalog.
pub open spec fn library_edge_row(
    path: Seq<char>,
    import: Seq<char>,
    deps: Seq<LibraryModel>,
    repo_id: Seq<char>,
) -> Option<RowModel> {
    match library_of_import(import) {
        Some(library) => match catalog_version(deps, library) {
            Some(version) => Some(
                texts(
                    seq![
                        ("file_path"@, path),
                        ("library_name"@, library),
                        ("library_version"@, version),
                        ("repo_id"@, repo_id),
                    ],
                ),
            ),
            None => None,
        },
        None => None,
    }
}

/// The rows that tie one file to libraries, import by import.
pub open spec fn library_rows_of(
    path: Seq<char>,
    imports: Seq<Seq<char>>,
    deps: Seq<LibraryModel>,
    repo_id: Seq<char>,
) -> Seq<RowModel>
    decreases imports.len(),
{
    if imports.len() == 0 {
        Seq::empty()
    } else {
        match library_edge_row(path, imports.last(), deps, repo_id) {
            Some(row) => library_rows_of(path, imports.drop_last(), deps, repo_id).push(row),
            None => library_rows_of(path, imports.drop_last(), deps, repo_id),
        }
    }
}

/// The rows of the `DependsOn` edges to libraries, file by file.
pub open spec fn library_edge_rows(
    files: Seq<ParsedFileModel>,
    deps: Seq<LibraryModel>,
    repo_id: Seq<char>,
) -> Seq<RowModel>
    decreases files.len(),
{
    if files.len() == 0 {
        Seq::empty()
    } else {
        library_edge_rows(files.drop_last(), deps, repo_id) + library_rows_of(
            files.last().path,
            files.last().imports,
            deps,
            repo_id,
        )
    }
}

/// The statements that store the `DependsOn` edges from files to the
/// libraries their imports name.
pub fn batch_insert_library_edges(
    repo_id: &str,
    parsed_files: &[ParsedFile],
    library_dependencies: &[LibraryDependency],
    batch_size: usize,
) -> (plan: Vec<Statement>)
    requires
        batch_size > 0,
    ensures
        plan.deep_view() == batched(
            MERGE_DEPENDS_ON_LIBRARY@,
            "Failed to batch insert library edges"@,
            "edges"@,
            library_edge_rows(
                parsed_files.deep_view(),
                library_dependencies.deep_view(),
                repo_id@,
            ),
            batch_size,
        ),
{
    let mut rows: Vec<Row> = Vec::new();
    let ghost all = parsed_files.deep_view();
    let ghost deps = library_dependencies.deep_view();
    let mut i: usize = 0;
    assert(rows.deep_view() =~= library_edge_rows(all.take(0), deps, repo_id@));
    while i < parsed_files.len()
        invariant
            i <= parsed_files@.len(),
            all == parsed_files.deep_view(),
            deps == library_dependencies.deep_view(),
            rows.deep_view() == library_edge_rows(all.take(i as int), deps, repo_id@),
        decreases parsed_files@.len() - i,
    {
        let file = &parsed_files[i];
        let ghost before = rows.deep_view();
        let ghost imports = file@.imports;
        proof {
            assert(all.take(i + 1).drop_last() =~= all.take(i as int));
            assert(all.take(i + 1).last() == file@);
            assert(before + library_rows_of(file.path@, imports.take(0), deps, repo_id@) =~= before);
        }
        let mut k: usize = 0;
        while k < file.imports.len()
            invariant
                k <= file.imports@.len(),
                imports == file.imports.deep_view(),
                deps == library_dependencies.deep_view(),
                rows.deep_view() == before + library_rows_of(
                    file.path@,
                    imports.take(k as int),
                    deps,
                    repo_id@,
                ),
            decreases file.imports@.len() - k,
        {
            proof {
                assert(imports.take(k + 1).drop_last() =~= imports.take(k as int));
                assert(imports.take(k + 1).last() == file.imports[k as int]@);
            }
            let ghost so_far = library_rows_of(file.path@, imports.take(k as int), deps, repo_id@);
            match normalize_import_to_library(file.imports[k].as_str()) {
                Some(library) => match version_in_catalog(library_dependencies, library.as_str()) {
                    Some(version) => {
                        let row = row4(
                            "file_path",
                            file.path.as_str(),
                            "library_name",
                            library.as_str(),
                            "library_version",
                            version.as_str(),
                            "repo_id",
                            repo_id,
                        );
                        proof {
                            lemma_deep_view_push(rows@, rows@.push(row), row);
                            assert((before + so_far).push(row.deep_view()) =~= before + so_far.push(
                                row.deep_view(),
                            ));
                        }
                        rows.push(row);
                    },
                    None => {},
                },
                None => {},
            }
            k += 1;
        }
        assert(imports.take(k as int) =~= imports);
        i += 1;
    }
    assert(all.take(i as int) =~= all);
    batch(MERGE_DEPENDS_ON_LIBRARY, "Failed to batch insert library edges", "edges", rows, batch_size)
}


// ---------------------------------------------------------------------------
// Edges from files to the files they import
// ---------------------------------------------------------------------------

pub const MERGE_DEPENDS_ON_FILE: &'static str = "UNWIND $edges AS edge
             MATCH (source:File {path: edge.source_file, repo_id: edge.repo_id})
             MATCH (target:File {path: edge.target_file, repo_id: edge.repo_id})
             MERGE (source)-[d:DEPENDS_ON]->(target)
             ON CREATE SET d.import_path = edge.import_path";

/// How often a file answers to a module name: once if the name is its
/// stem, and once more if the name is that of its directory.
pub open spec fn answers_to(path: Seq<char>, name: Seq<char>) -> Seq<Seq<char>> {
    (if file_stem_of(path) == Some(name) {
        seq![path]
    } else {
        Seq::empty()
    }) + (if file_stem_of(path) is Some && parent_name_of(path) == Some(name) {
        seq![path]
    } else {
        Seq::empty()
    })
}

/// The files that answer to a module name, in order.
pub open spec fn files_named(files: Seq<ParsedFileModel>, name: Seq<char>) -> Seq<Seq<char>>
    decreases files.len(),
{
    if files.len() == 0 {
        Seq::empty()
    } else {
        files_named(files.drop_last(), name) + answers_to(files.last().path, name)
    }
}

/// The last piece of an import string, without leading `./` and `../`.
pub open spec fn last_piece(import: Seq<char>) -> Seq<char> {
    without_prefixes(without_prefixes(split_on(import, '/').last(), "./"@), "../"@)
}

/// Whether an import string is relative.
pub open spec fn is_relative(import: Seq<char>) -> bool {
    has_prefix(import, "./"@) || has_prefix(import, "../"@)
}

/// The pieces that name something: neither empty nor `.` nor `..`.
pub open spec fn naming_pieces(pieces: Seq<Seq<char>>) -> Seq<Seq<char>>
    decreases pieces.len(),
{
    if pieces.len() == 0 {
        Seq::empty()
    } else if pieces.last().len() > 0 && pieces.last() != seq!['.'] && pieces.last() != seq!['.', '.'] {
        naming_pieces(pieces.drop_last()).push(pieces.last())
    } else {
        naming_pieces(pieces.drop_last())
    }
}

/// The files an import string may mean, each once: those that answer to
/// the whole string, those that answer to its last piece, and, for a
/// relative import, those that answer to its last naming piece.
pub open spec fn import_targets(files: Seq<ParsedFileModel>, import: Seq<char>) -> Seq<Seq<char>> {
    let named = naming_pieces(split_on(import, '/'));
    distinct(
        files_named(files, import) + files_named(files, last_piece(import)) + (if is_relative(import)
            && named.len() > 0 {
            files_named(files, named.last())
        } else {
            Seq::empty()
        }),
    )
}

/// The rows that tie a file to the targets of one import, the file itself
/// left out.
pub open spec fn dependency_rows_to(
    path: Seq<char>,
    import: Seq<char>,
    targets: Seq<Seq<char>>,
    repo_id: Seq<char>,
) -> Seq<RowModel>
    decreases targets.len(),
{
    if targets.len() == 0 {
        Seq::empty()
    } else if targets.last() != path {
        dependency_rows_to(path, import, targets.drop_last(), repo_id).push(
            texts(
                seq![
                    ("source_file"@, path),
                    ("target_file"@, targets.last()),
                    ("import_path"@, import),
                    ("repo_id"@, repo_id),
                ],
            ),
        )
    } else {
        dependency_rows_to(path, import, targets.drop_last(), repo_id)
    }
}

/// The rows that tie one file to the files its imports may mean.
pub open spec fn dependency_rows_of(
    file: ParsedFileModel,
    imports: Seq<Seq<char>>,
    files: Seq<ParsedFileModel>,
    repo_id: Seq<char>,
) -> Seq<RowModel>
    decreases imports.len(),
{
    if imports.len() == 0 {
        Seq::empty()
    } else {
        dependency_rows_of(file, imports.drop_last(), files, repo_id) + dependency_rows_to(
            file.path,
            imports.last(),
            import_targets(files, imports.last()),
            repo_id,
        )
    }
}

/// The rows of the `DependsOn` edges between files, file by file.
pub open spec fn dependency_rows(
    sources: Seq<ParsedFileModel>,
    files: Seq<ParsedFileModel>,
    repo_id: Seq<char>,
) -> Seq<RowModel>
    decreases sources.len(),
{
    if sources.len() == 0 {
        Seq::empty()
    } else {
        dependency_rows(sources.drop_last(), files, repo_id) + dependency_rows_of(
            sources.last(),
            sources.last().imports,
            files,
            repo_id,
        )
    }
}

/// The module names of the parsed files: for each its stem and the name of
/// its directory.
pub struct ModuleNames {
    pub stems: Vec<Option<String>>,
    pub parents: Vec<Option<String>>,
}

impl ModuleNames {
    /// The names are those of `files`.
    pub open spec fn name(&self, files: Seq<ParsedFileModel>) -> bool {
        &&& self.stems@.len() == files.len()
        &&& self.parents@.len() == files.len()
        &&& forall|i: int|
            0 <= i < files.len() ==> (#[trigger] self.stems@[i]).deep_view() == file_stem_of(
                files[i].path,
            )
        &&& forall|i: int|
            0 <= i < files.len() ==> (#[trigger] self.parents@[i]).deep_view() == parent_name_of(
                files[i].path,
            )
    }

    /// The module names of the files.
    pub fn of(parsed_files: &[ParsedFile]) -> (names: Self)
        ensures
            names.name(parsed_files.deep_view()),
    {
        let mut names = ModuleNames { stems: Vec::new(), parents: Vec::new() };
        let ghost all = parsed_files.deep_view();
        let mut i: usize = 0;
        while i < parsed_files.len()
            invariant
                i <= parsed_files@.len(),
                all == parsed_files.deep_view(),
                names.name(all.take(i as int)),
            decreases parsed_files@.len() - i,
        {
            let path = parsed_files[i].path.as_str();
            names.stems.push(file_stem(path));
            names.parents.push(parent_name(path));
            assert(all.take(i + 1)[i as int] == parsed_files[i as int]@);
            assert forall|k: int| 0 <= k < i implies all.take(i + 1)[k] == all.take(i as int)[k] by {}
            i += 1;
        }
        assert(all.take(i as int) =~= all);
        names
    }

    /// The files that answer to a module name.
    pub fn lookup(&self, parsed_files: &[ParsedFile], name: &str) -> (found: Vec<String>)
        requires
            self.name(parsed_files.deep_view()),
        ensures
            found.deep_view() == files_named(parsed_files.deep_view(), name@),
    {
        let mut found: Vec<String> = Vec::new();
        let ghost all = parsed_files.deep_view();
        let mut i: usize = 0;
        assert(found.deep_view() =~= files_named(all.take(0), name@));
        while i < parsed_files.len()
            invariant
                i <= parsed_files@.len(),
                all == parsed_files.deep_view(),
                self.name(all),
                found.deep_view() == files_named(all.take(i as int), name@),
            decreases parsed_files@.len() - i,
        {
            let ghost before = found.deep_view();
            let ghost path = parsed_files[i as int].path@;
            proof {
                assert(all.take(i + 1).drop_last() =~= all.take(i as int));
                assert(all.take(i + 1).last() == parsed_files[i as int]@);
                assert(all[i as int].path == path);
            }
            match &self.stems[i] {
                Some(stem) => {
                    if str_eq(stem.as_str(), name) {
                        let hit = parsed_files[i].path.clone();
                        proof {
                            lemma_deep_view_push(found@, found@.push(hit), hit);
                        }
                        found.push(hit);
                    }
                    match &self.parents[i] {
                        Some(parent) => {
                            if str_eq(parent.as_str(), name) {
                                let hit = parsed_files[i].path.clone();
                                proof {
                                    lemma_deep_view_push(found@, found@.push(hit), hit);
                                }
                                found.push(hit);
                            }
                        },
                        None => {},
                    }
                },
                None => {},
            }
            assert(found.deep_view() =~= before + answers_to(path, name@));
            i += 1;
        }
        assert(all.take(i as int) =~= all);
        found
    }
}

/// The last piece of an import that names something.
fn last_naming_piece(pieces: &Vec<Vec<char>>) -> (r: Option<String>)
    ensures
        match r {
            Some(name) => naming_pieces(pieces.deep_view()).len() > 0 && name@ == naming_pieces(
                pieces.deep_view(),
            ).last(),
            None => naming_pieces(pieces.deep_view()).len() == 0,
        },
{
    let ghost all = pieces.deep_view();
    let mut k: usize = pieces.len();
    assert(all.take(k as int) =~= all);
    while k > 0
        invariant
            k <= pieces@.len(),
            all == pieces.deep_view(),
            naming_pieces(all) == naming_pieces(all.take(k as int)),
        decreases k,
    {
        let piece = &pieces[k - 1];
        proof {
            assert(all.take(k as int).drop_last() =~= all.take(k - 1));
            assert(all.take(k as int).last() == piece.deep_view());
            assert(piece.deep_view() =~= piece@);
        }
        let dot = piece.len() == 1 && piece[0] == '.';
        let dots = piece.len() == 2 && piece[0] == '.' && piece[1] == '.';
        proof {
            if dot {
                assert(piece@ =~= seq!['.']);
            }
            if dots {
                assert(piece@ =~= seq!['.', '.']);
            }
            if piece@ == seq!['.'] {
                assert(piece@.len() == 1 && piece@[0] == '.');
            }
            if piece@ == seq!['.', '.'] {
                assert(piece@.len() == 2 && piece@[0] == '.' && piece@[1] == '.');
            }
        }
        if piece.len() > 0 && !dot && !dots {
            let name = slice(piece, 0, piece.len());
            assert(piece@.subrange(0, piece@.len() as int) =~= piece@);
            return Some(string_of(name));
        }
        k -= 1;
    }
    None
}

/// The files an import string may mean.
fn targets_of(names: &ModuleNames, parsed_files: &[ParsedFile], import: &str) -> (targets: Vec<String>)
    requires
        names.name(parsed_files.deep_view()),
    ensures
        targets.deep_view() == import_targets(parsed_files.deep_view(), import@),
{
    let text = chars_of(import);
    let pieces = split_char(&text, '/');
    let last = &pieces[pieces.len() - 1];
    assert(pieces.deep_view().last() =~= last@);
    let clean = string_of(
        strip_prefixes(&strip_prefixes(last, &chars_of("./")), &chars_of("../")),
    );
    let mut candidates = names.lookup(parsed_files, import);
    crate::parsers::common::append_strings(
        &mut candidates,
        names.lookup(parsed_files, clean.as_str()),
    );
    let ghost two = candidates.deep_view();
    if starts_with(&text, &chars_of("./")) || starts_with(&text, &chars_of("../")) {
        match last_naming_piece(&pieces) {
            Some(name) => {
                crate::parsers::common::append_strings(
                    &mut candidates,
                    names.lookup(parsed_files, name.as_str()),
                );
            },
            None => {
                assert(two + Seq::<Seq<char>>::empty() =~= two);
            },
        }
    } else {
        assert(two + Seq::<Seq<char>>::empty() =~= two);
    }
    crate::parsers::common::dedup(candidates)
}

/// The statements that store the `DependsOn` edges between files: a file
/// depends on every other file that one of its imports may mean.
pub fn batch_insert_file_dependencies(repo_id: &str, parsed_files: &[ParsedFile], batch_size: usize) -> (plan:
    Vec<Statement>)
    requires
        batch_size > 0,
    ensures
        plan.deep_view() == batched(
            MERGE_DEPENDS_ON_FILE@,
            "Failed to batch insert DEPENDS_ON edges"@,
            "edges"@,
            dependency_rows(parsed_files.deep_view(), parsed_files.deep_view(), repo_id@),
            batch_size,
        ),
{
    let names = ModuleNames::of(parsed_files);
    let mut rows: Vec<Row> = Vec::new();
    let ghost all = parsed_files.deep_view();
    let mut i: usize = 0;
    assert(rows.deep_view() =~= dependency_rows(all.take(0), all, repo_id@));
    while i < parsed_files.len()
        invariant
            i <= parsed_files@.len(),
            all == parsed_files.deep_view(),
            names.name(all),
            rows.deep_view() == dependency_rows(all.take(i as int), all, repo_id@),
        decreases parsed_files@.len() - i,
    {
        let file = &parsed_files[i];
        let ghost before = rows.deep_view();
        let ghost imports = file@.imports;
        proof {
            assert(all.take(i + 1).drop_last() =~= all.take(i as int));
            assert(all.take(i + 1).last() == file@);
            assert(before + dependency_rows_of(file@, imports.take(0), all, repo_id@) =~= before);
        }
        let mut k: usize = 0;
        while k < file.imports.len()
            invariant
                k <= file.imports@.len(),
                all == parsed_files.deep_view(),
                names.name(all),
                imports == file.imports.deep_view(),
                rows.deep_view() == before + dependency_rows_of(
                    file@,
                    imports.take(k as int),
                    all,
                    repo_id@,
                ),
            decreases file.imports@.len() - k,
        {
            let import = &file.imports[k];
            proof {
                assert(imports.take(k + 1).drop_last() =~= imports.take(k as int));
                assert(imports.take(k + 1).last() == import@);
            }
            let targets = targets_of(&names, parsed_files, import.as_str());
            let ghost so_far = rows.deep_view();
            let ghost found = targets.deep_view();
            let mut t: usize = 0;
            assert(so_far + dependency_rows_to(file.path@, import@, found.take(0), repo_id@)
                =~= so_far);
            while t < targets.len()
                invariant
                    t <= targets@.len(),
                    found == targets.deep_view(),
                    rows.deep_view() == so_far + dependency_rows_to(
                        file.path@,
                        import@,
                        found.take(t as int),
                        repo_id@,
                    ),
                decreases targets@.len() - t,
            {
                proof {
                    assert(found.take(t + 1).drop_last() =~= found.take(t as int));
                    assert(found.take(t + 1).last() == targets[t as int]@);
                }
                let ghost here = dependency_rows_to(
                    file.path@,
                    import@,
                    found.take(t as int),
                    repo_id@,
                );
                if !str_eq(targets[t].as_str(), file.path.as_str()) {
                    let row = row4(
                        "source_file",
                        file.path.as_str(),
                        "target_file",
                        targets[t].as_str(),
                        "import_path",
                        import.as_str(),
                        "repo_id",
                        repo_id,
                    );
                    proof {
                        lemma_deep_view_push(rows@, rows@.push(row), row);
                        assert((so_far + here).push(row.deep_view()) =~= so_far + here.push(
                            row.deep_view(),
                        ));
                    }
                    rows.push(row);
                }
                t += 1;
            }
            proof {
                assert(found.take(t as int) =~= found);
                let own = dependency_rows_of(file@, imports.take(k as int), all, repo_id@);
                let more = dependency_rows_to(file.path@, import@, found, repo_id@);
                assert(before + own + more =~= before + (own + more));
            }
            k += 1;
        }
        assert(imports.take(k as int) =~= imports);
        i += 1;
    }
    assert(all.take(i as int) =~= all);
    batch(MERGE_DEPENDS_ON_FILE, "Failed to batch insert DEPENDS_ON edges", "edges", rows, batch_size)
}

} // verus!
