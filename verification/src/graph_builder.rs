//! Symbol table and dependency graph built from parsed files.
//!
//! Resolution is by name only: a call or a parent class is looked up in the
//! symbol table, the declaration in the referring file wins, otherwise the
//! first declaration indexed. Names that collide across files resolve to
//! whichever was indexed first, so the graph is a heuristic, not a semantic
//! call graph.

use vstd::prelude::*;
use crate::parsers::{ClassInfo, ClassModel, FunctionInfo, FunctionModel, InheritanceInfo, InheritanceModel, ParsedFile, ParsedFileModel};
pub use crate::symbol_table::{FileSymbols, SymbolEntry, SymbolTable};
use crate::text::str_eq;
use crate::views::lemma_deep_view_push;

verus! {

// ---------------------------------------------------------------------------
// Nodes and edges
// ---------------------------------------------------------------------------

/// Identity of a node of the dependency graph.
#[derive(Debug, PartialEq, Eq, Hash)]
pub enum NodeId {
    /// A source file, by path.
    File(String),
    /// A class or struct: file path, class name.
    Class(String, String),
    /// A function or method: file path, function name.
    Function(String, String),
    /// Anything imported or inherited that is not declared in the repository.
    Module(String),
}

/// Mathematical value of a [`NodeId`].
pub enum NodeKey {
    File(Seq<char>),
    Class(Seq<char>, Seq<char>),
    Function(Seq<char>, Seq<char>),
    Module(Seq<char>),
}

impl NodeKey {
    /// Path of the file that owns the node; modules have none.
    pub open spec fn file_path(self) -> Option<Seq<char>> {
        match self {
            NodeKey::File(p) => Some(p),
            NodeKey::Class(p, _) => Some(p),
            NodeKey::Function(p, _) => Some(p),
            NodeKey::Module(_) => None,
        }
    }

    /// Name of the node: the path for a file, the declared name otherwise.
    pub open spec fn name(self) -> Seq<char> {
        match self {
            NodeKey::File(p) => p,
            NodeKey::Class(_, n) => n,
            NodeKey::Function(_, n) => n,
            NodeKey::Module(m) => m,
        }
    }

    /// Label of the node's kind.
    pub open spec fn node_type(self) -> Seq<char> {
        match self {
            NodeKey::File(_) => "File"@,
            NodeKey::Class(_, _) => "Class"@,
            NodeKey::Function(_, _) => "Function"@,
            NodeKey::Module(_) => "Module"@,
        }
    }
}

impl View for NodeId {
    type V = NodeKey;

    open spec fn view(&self) -> NodeKey {
        match self {
            NodeId::File(p) => NodeKey::File(p@),
            NodeId::Class(p, n) => NodeKey::Class(p@, n@),
            NodeId::Function(p, n) => NodeKey::Function(p@, n@),
            NodeId::Module(m) => NodeKey::Module(m@),
        }
    }
}

impl DeepView for NodeId {
    type V = NodeKey;

    open spec fn deep_view(&self) -> NodeKey {
        self@
    }
}

impl Clone for NodeId {
    fn clone(&self) -> (r: Self)
        ensures
            r@ == self@,
    {
        match self {
            NodeId::File(p) => NodeId::File(p.clone()),
            NodeId::Class(p, n) => NodeId::Class(p.clone(), n.clone()),
            NodeId::Function(p, n) => NodeId::Function(p.clone(), n.clone()),
            NodeId::Module(m) => NodeId::Module(m.clone()),
        }
    }
}

impl NodeId {
    /// Path of the file that owns the node; modules have none.
    pub fn file_path(&self) -> (r: Option<&str>)
        ensures
            match r {
                Some(p) => self@.file_path() == Some(p@),
                None => self@.file_path() is None,
            },
    {
        match self {
            NodeId::File(p) => Some(p.as_str()),
            NodeId::Class(p, _) => Some(p.as_str()),
            NodeId::Function(p, _) => Some(p.as_str()),
            NodeId::Module(_) => None,
        }
    }

    /// Name of the node: the path for a file, the declared name otherwise.
    pub fn name(&self) -> (r: &str)
        ensures
            r@ == self@.name(),
    {
        match self {
            NodeId::File(p) => p.as_str(),
            NodeId::Class(_, n) => n.as_str(),
            NodeId::Function(_, n) => n.as_str(),
            NodeId::Module(m) => m.as_str(),
        }
    }

    /// Label of the node's kind.
    pub fn node_type(&self) -> (r: &'static str)
        ensures
            r@ == self@.node_type(),
    {
        match self {
            NodeId::File(_) => "File",
            NodeId::Class(_, _) => "Class",
            NodeId::Function(_, _) => "Function",
            NodeId::Module(_) => "Module",
        }
    }

    /// Whether two identities denote the same node.
    pub fn same(&self, other: &NodeId) -> (r: bool)
        ensures
            r == (self@ == other@),
    {
        match (self, other) {
            (NodeId::File(a), NodeId::File(b)) => str_eq(a.as_str(), b.as_str()),
            (NodeId::Class(a, m), NodeId::Class(b, n)) => str_eq(a.as_str(), b.as_str()) && str_eq(
                m.as_str(),
                n.as_str(),
            ),
            (NodeId::Function(a, m), NodeId::Function(b, n)) => str_eq(a.as_str(), b.as_str())
                && str_eq(m.as_str(), n.as_str()),
            (NodeId::Module(a), NodeId::Module(b)) => str_eq(a.as_str(), b.as_str()),
            _ => false,
        }
    }
}

/// Kinds of relationship between nodes.
#[derive(Debug, Clone, Copy, PartialEq, Eq, Structural)]
pub enum EdgeType {
    /// A file defines a class or a function.
    Defines,
    /// A function calls a function.
    Calls,
    /// A file imports a module.
    Imports,
    /// A class inherits from a class or from a module.
    Inherits,
    /// A class contains a method.
    Contains,
}

impl EdgeType {
    /// Label of the relationship.
    pub open spec fn label(self) -> Seq<char> {
        match self {
            EdgeType::Defines => "DEFINES"@,
            EdgeType::Calls => "CALLS"@,
            EdgeType::Imports => "IMPORTS"@,
            EdgeType::Inherits => "INHERITS"@,
            EdgeType::Contains => "CONTAINS"@,
        }
    }

    /// Label of the relationship.
    pub fn as_str(&self) -> (r: &'static str)
        ensures
            r@ == self.label(),
    {
        match self {
            EdgeType::Defines => "DEFINES",
            EdgeType::Calls => "CALLS",
            EdgeType::Imports => "IMPORTS",
            EdgeType::Inherits => "INHERITS",
            EdgeType::Contains => "CONTAINS",
        }
    }
}

/// A string property of an edge.
#[derive(Debug)]
pub struct Property {
    pub key: String,
    pub value: String,
}

impl View for Property {
    type V = (Seq<char>, Seq<char>);

    open spec fn view(&self) -> (Seq<char>, Seq<char>) {
        (self.key@, self.value@)
    }
}

impl DeepView for Property {
    type V = (Seq<char>, Seq<char>);

    open spec fn deep_view(&self) -> (Seq<char>, Seq<char>) {
        self@
    }
}

impl Clone for Property {
    fn clone(&self) -> (r: Self)
        ensures
            r@ == self@,
    {
        Property { key: self.key.clone(), value: self.value.clone() }
    }
}

/// A typed edge with string properties, kept in insertion order.
#[derive(Debug)]
pub struct Edge {
    pub from: NodeId,
    pub to: NodeId,
    pub edge_type: EdgeType,
    pub properties: Vec<Property>,
}

/// Mathematical value of an [`Edge`].
pub struct EdgeModel {
    pub from: NodeKey,
    pub to: NodeKey,
    pub edge_type: EdgeType,
    pub properties: Seq<(Seq<char>, Seq<char>)>,
}

impl View for Edge {
    type V = EdgeModel;

    open spec fn view(&self) -> EdgeModel {
        EdgeModel {
            from: self.from@,
            to: self.to@,
            edge_type: self.edge_type,
            properties: self.properties.deep_view(),
        }
    }
}

impl DeepView for Edge {
    type V = EdgeModel;

    open spec fn deep_view(&self) -> EdgeModel {
        self@
    }
}

impl Clone for Edge {
    fn clone(&self) -> (r: Self)
        ensures
            r@ == self@,
    {
        let r = Edge {
            from: self.from.clone(),
            to: self.to.clone(),
            edge_type: self.edge_type,
            properties: self.properties.clone(),
        };
        assert(r.properties.deep_view() =~= self.properties.deep_view());
        r
    }
}

/// An edge without properties.
pub open spec fn plain_edge(from: NodeKey, to: NodeKey, edge_type: EdgeType) -> EdgeModel {
    EdgeModel { from, to, edge_type, properties: Seq::empty() }
}

/// An inheritance edge: it carries the recorded kind under the key `kind`.
pub open spec fn inherits_edge(from: NodeKey, to: NodeKey, kind: Seq<char>) -> EdgeModel {
    EdgeModel { from, to, edge_type: EdgeType::Inherits, properties: seq![("kind"@, kind)] }
}


// ---------------------------------------------------------------------------
// What a graph is built from
// ---------------------------------------------------------------------------

/// One step of graph construction: a node offered to the node set, or an
/// edge appended to the edge list.
pub enum Emission {
    Node(NodeKey),
    Edge(EdgeModel),
}

/// Mathematical value of a [`DependencyGraph`]: the nodes in order of first
/// insertion, the edges in order of insertion.
pub struct GraphModel {
    pub nodes: Seq<NodeKey>,
    pub edges: Seq<EdgeModel>,
}

/// The graph with nothing in it.
pub open spec fn empty_graph() -> GraphModel {
    GraphModel { nodes: Seq::empty(), edges: Seq::empty() }
}

/// Applies a stream of emissions to a graph: a node joins the node set
/// unless it is already there; an edge is always appended.
pub open spec fn emit(g: GraphModel, stream: Seq<Emission>) -> GraphModel
    decreases stream.len(),
{
    if stream.len() == 0 {
        g
    } else {
        let base = emit(g, stream.drop_last());
        match stream.last() {
            Emission::Node(n) => if base.nodes.contains(n) {
                base
            } else {
                GraphModel { nodes: base.nodes.push(n), edges: base.edges }
            },
            Emission::Edge(e) => GraphModel { nodes: base.nodes, edges: base.edges.push(e) },
        }
    }
}

/// Emitting a concatenation is emitting its parts in turn.
pub proof fn lemma_emit_concat(g: GraphModel, a: Seq<Emission>, b: Seq<Emission>)
    ensures
        emit(g, a + b) == emit(emit(g, a), b),
    decreases b.len(),
{
    if b.len() == 0 {
        assert(a + b =~= a);
    } else {
        assert((a + b).drop_last() =~= a + b.drop_last());
        assert((a + b).last() == b.last());
        lemma_emit_concat(g, a, b.drop_last());
    }
}

/// The node a resolved call points at.
pub open spec fn call_target(table: &SymbolTable, call: Seq<char>, file: Seq<char>) -> Option<NodeKey> {
    match table.resolved_function(call, file) {
        Some(site) => Some(NodeKey::Function(site.file_path, call)),
        None => None,
    }
}

/// Emissions of the calls of one function: for each call name that
/// resolves, the callee node and a `Calls` edge to it; nothing for a name
/// that does not resolve.
pub open spec fn call_emissions(
    caller: NodeKey,
    calls: Seq<Seq<char>>,
    file: Seq<char>,
    table: &SymbolTable,
) -> Seq<Emission>
    decreases calls.len(),
{
    if calls.len() == 0 {
        Seq::empty()
    } else {
        let rest = call_emissions(caller, calls.drop_last(), file, table);
        match call_target(table, calls.last(), file) {
            Some(callee) => rest.push(Emission::Node(callee)).push(
                Emission::Edge(plain_edge(caller, callee, EdgeType::Calls)),
            ),
            None => rest,
        }
    }
}

/// Emissions of one function or method: its node, the edge from its owner
/// (`Defines` from the file, `Contains` from the class), then its calls.
pub open spec fn function_emissions(
    owner: NodeKey,
    relation: EdgeType,
    path: Seq<char>,
    f: FunctionModel,
    table: &SymbolTable,
) -> Seq<Emission> {
    let node = NodeKey::Function(path, f.name);
    seq![Emission::Node(node), Emission::Edge(plain_edge(owner, node, relation))] + call_emissions(
        node,
        f.calls,
        path,
        table,
    )
}

/// Emissions of a list of functions that share an owner.
pub open spec fn functions_emissions(
    owner: NodeKey,
    relation: EdgeType,
    path: Seq<char>,
    functions: Seq<FunctionModel>,
    table: &SymbolTable,
) -> Seq<Emission>
    decreases functions.len(),
{
    if functions.len() == 0 {
        Seq::empty()
    } else {
        functions_emissions(owner, relation, path, functions.drop_last(), table) + function_emissions(
            owner,
            relation,
            path,
            functions.last(),
            table,
        )
    }
}

/// The node an inheritance entry points at: the class it resolves to, or a
/// module of that name when it does not resolve.
pub open spec fn parent_target(table: &SymbolTable, parent: Seq<char>, file: Seq<char>) -> NodeKey {
    match table.resolved_class(parent, file) {
        Some(site) => NodeKey::Class(site.file_path, parent),
        None => NodeKey::Module(parent),
    }
}

/// Emissions of the inheritance entries of one class.
pub open spec fn inheritance_emissions(
    class: NodeKey,
    parents: Seq<InheritanceModel>,
    file: Seq<char>,
    table: &SymbolTable,
) -> Seq<Emission>
    decreases parents.len(),
{
    if parents.len() == 0 {
        Seq::empty()
    } else {
        let target = parent_target(table, parents.last().name, file);
        inheritance_emissions(class, parents.drop_last(), file, table).push(
            Emission::Node(target),
        ).push(Emission::Edge(inherits_edge(class, target, parents.last().kind)))
    }
}

/// Emissions of one class: its node, `Defines` from the file, its
/// inheritance entries, then its methods.
pub open spec fn class_emissions(path: Seq<char>, c: ClassModel, table: &SymbolTable) -> Seq<Emission> {
    let node = NodeKey::Class(path, c.name);
    seq![
        Emission::Node(node),
        Emission::Edge(plain_edge(NodeKey::File(path), node, EdgeType::Defines)),
    ] + inheritance_emissions(node, c.inheritances, path, table) + functions_emissions(
        node,
        EdgeType::Contains,
        path,
        c.methods,
        table,
    )
}

/// Emissions of the classes of a file.
pub open spec fn classes_emissions(path: Seq<char>, classes: Seq<ClassModel>, table: &SymbolTable) -> Seq<
    Emission,
>
    decreases classes.len(),
{
    if classes.len() == 0 {
        Seq::empty()
    } else {
        classes_emissions(path, classes.drop_last(), table) + class_emissions(
            path,
            classes.last(),
            table,
        )
    }
}

/// Emissions of the imports of a file: a module per import string and an
/// `Imports` edge to it.
pub open spec fn import_emissions(path: Seq<char>, imports: Seq<Seq<char>>) -> Seq<Emission>
    decreases imports.len(),
{
    if imports.len() == 0 {
        Seq::empty()
    } else {
        let module = NodeKey::Module(imports.last());
        import_emissions(path, imports.drop_last()).push(Emission::Node(module)).push(
            Emission::Edge(plain_edge(NodeKey::File(path), module, EdgeType::Imports)),
        )
    }
}

/// Emissions of one file: its node, its top-level functions, its classes,
/// its imports.
pub open spec fn file_emissions(f: ParsedFileModel, table: &SymbolTable) -> Seq<Emission> {
    seq![Emission::Node(NodeKey::File(f.path))] + functions_emissions(
        NodeKey::File(f.path),
        EdgeType::Defines,
        f.path,
        f.functions,
        table,
    ) + classes_emissions(f.path, f.classes, table) + import_emissions(f.path, f.imports)
}

/// Emissions of a code base, file by file.
pub open spec fn graph_emissions(files: Seq<ParsedFileModel>, table: &SymbolTable) -> Seq<Emission>
    decreases files.len(),
{
    if files.len() == 0 {
        Seq::empty()
    } else {
        graph_emissions(files.drop_last(), table) + file_emissions(files.last(), table)
    }
}

/// The dependency graph of `files` under `table`.
pub open spec fn graph_of(files: Seq<ParsedFileModel>, table: &SymbolTable) -> GraphModel {
    emit(empty_graph(), graph_emissions(files, table))
}

// ---------------------------------------------------------------------------
// The graph
// ---------------------------------------------------------------------------

/// Nodes and edges of a code base, in two flat containers.
#[derive(Debug)]
pub struct DependencyGraph {
    /// The nodes, each once, in order of first insertion.
    pub nodes: Vec<NodeId>,
    /// The edges in order of insertion; repeats are kept.
    pub edges: Vec<Edge>,
}

impl View for DependencyGraph {
    type V = GraphModel;

    open spec fn view(&self) -> GraphModel {
        GraphModel { nodes: self.nodes.deep_view(), edges: self.edges.deep_view() }
    }
}

/// Counts of a graph by node kind and edge type.
#[derive(Debug, Clone, Copy, PartialEq, Eq)]
pub struct GraphStats {
    pub files: usize,
    pub classes: usize,
    pub functions: usize,
    pub modules: usize,
    pub defines_edges: usize,
    pub calls_edges: usize,
    pub imports_edges: usize,
    pub inherits_edges: usize,
    pub contains_edges: usize,
}

/// The edges of the given type, in order.
pub open spec fn edges_typed(edges: Seq<EdgeModel>, edge_type: EdgeType) -> Seq<EdgeModel>
    decreases edges.len(),
{
    if edges.len() == 0 {
        Seq::empty()
    } else if edges.last().edge_type == edge_type {
        edges_typed(edges.drop_last(), edge_type).push(edges.last())
    } else {
        edges_typed(edges.drop_last(), edge_type)
    }
}

/// The four kinds of node.
pub enum NodeKind {
    File,
    Class,
    Function,
    Module,
}

impl NodeKey {
    /// Kind of the node.
    pub open spec fn kind(self) -> NodeKind {
        match self {
            NodeKey::File(_) => NodeKind::File,
            NodeKey::Class(_, _) => NodeKind::Class,
            NodeKey::Function(_, _) => NodeKind::Function,
            NodeKey::Module(_) => NodeKind::Module,
        }
    }
}

/// The nodes of the given kind, in order.
pub open spec fn nodes_of_kind(nodes: Seq<NodeKey>, kind: NodeKind) -> Seq<NodeKey>
    decreases nodes.len(),
{
    if nodes.len() == 0 {
        Seq::empty()
    } else if nodes.last().kind() == kind {
        nodes_of_kind(nodes.drop_last(), kind).push(nodes.last())
    } else {
        nodes_of_kind(nodes.drop_last(), kind)
    }
}

/// A selection by kind is no longer than what it selects from.
pub proof fn lemma_nodes_of_kind_len(nodes: Seq<NodeKey>, kind: NodeKind)
    ensures
        nodes_of_kind(nodes, kind).len() <= nodes.len(),
    decreases nodes.len(),
{
    if nodes.len() > 0 {
        lemma_nodes_of_kind_len(nodes.drop_last(), kind);
    }
}

/// A selection by type is no longer than what it selects from.
pub proof fn lemma_edges_typed_len(edges: Seq<EdgeModel>, edge_type: EdgeType)
    ensures
        edges_typed(edges, edge_type).len() <= edges.len(),
    decreases edges.len(),
{
    if edges.len() > 0 {
        lemma_edges_typed_len(edges.drop_last(), edge_type);
    }
}

/// The counts of a graph.
pub open spec fn counts(stats: GraphStats, g: GraphModel) -> bool {
    &&& stats.files == nodes_of_kind(g.nodes, NodeKind::File).len()
    &&& stats.classes == nodes_of_kind(g.nodes, NodeKind::Class).len()
    &&& stats.functions == nodes_of_kind(g.nodes, NodeKind::Function).len()
    &&& stats.modules == nodes_of_kind(g.nodes, NodeKind::Module).len()
    &&& stats.defines_edges == edges_typed(g.edges, EdgeType::Defines).len()
    &&& stats.calls_edges == edges_typed(g.edges, EdgeType::Calls).len()
    &&& stats.imports_edges == edges_typed(g.edges, EdgeType::Imports).len()
    &&& stats.inherits_edges == edges_typed(g.edges, EdgeType::Inherits).len()
    &&& stats.contains_edges == edges_typed(g.edges, EdgeType::Contains).len()
}

impl DependencyGraph {
    /// A graph with nothing in it.
    pub fn new() -> (g: Self)
        ensures
            g@ == empty_graph(),
    {
        let g = DependencyGraph { nodes: Vec::new(), edges: Vec::new() };
        assert(g@.nodes =~= Seq::empty());
        assert(g@.edges =~= Seq::empty());
        g
    }

    /// Whether the graph holds `node`.
    pub fn contains_node(&self, node: &NodeId) -> (r: bool)
        ensures
            r == self@.nodes.contains(node@),
    {
        let mut i: usize = 0;
        while i < self.nodes.len()
            invariant
                i <= self.nodes@.len(),
                forall|j: int| 0 <= j < i ==> self@.nodes[j] != node@,
            decreases self.nodes@.len() - i,
        {
            if self.nodes[i].same(node) {
                assert(self@.nodes[i as int] == node@);
                return true;
            }
            i += 1;
        }
        false
    }

    /// Adds `node` unless the graph already holds it.
    pub fn insert_node(&mut self, node: NodeId)
        ensures
            final(self)@ == emit(old(self)@, seq![Emission::Node(node@)]),
    {
        let ghost stream = seq![Emission::Node(node@)];
        assert(stream.drop_last() =~= Seq::empty());
        assert(emit(old(self)@, stream.drop_last()) == old(self)@);
        if !self.contains_node(&node) {
            proof {
                lemma_deep_view_push(self.nodes@, self.nodes@.push(node), node);
            }
            self.nodes.push(node);
        }
    }

    /// Appends `edge`.
    pub fn push_edge(&mut self, edge: Edge)
        ensures
            final(self)@ == emit(old(self)@, seq![Emission::Edge(edge@)]),
    {
        let ghost stream = seq![Emission::Edge(edge@)];
        assert(stream.drop_last() =~= Seq::empty());
        assert(emit(old(self)@, stream.drop_last()) == old(self)@);
        proof {
            lemma_deep_view_push(self.edges@, self.edges@.push(edge), edge);
        }
        self.edges.push(edge);
    }

    /// Adds a node and an edge that ends at it.
    fn link(&mut self, from: &NodeId, to: NodeId, edge_type: EdgeType, properties: Vec<Property>)
        ensures
            final(self)@ == emit(
                old(self)@,
                seq![
                    Emission::Node(to@),
                    Emission::Edge(
                        EdgeModel {
                            from: from@,
                            to: to@,
                            edge_type,
                            properties: properties.deep_view(),
                        },
                    ),
                ],
            ),
    {
        let edge = Edge { from: from.clone(), to: to.clone(), edge_type, properties };
        proof {
            lemma_emit_concat(old(self)@, seq![Emission::Node(to@)], seq![Emission::Edge(edge@)]);
            assert(seq![Emission::Node(to@)] + seq![Emission::Edge(edge@)] =~= seq![
                Emission::Node(to@),
                Emission::Edge(edge@),
            ]);
        }
        self.insert_node(to);
        self.push_edge(edge);
    }
}


impl DependencyGraph {
    /// Adds a `Calls` edge from `caller_node` to every callee of `func` whose
    /// name resolves in `symbol_table`; names that do not resolve are
    /// dropped.
    pub fn add_call_edges(
        &mut self,
        caller_node: &NodeId,
        func: &FunctionInfo,
        current_file: &str,
        symbol_table: &SymbolTable,
    )
        ensures
            final(self)@ == emit(
                old(self)@,
                call_emissions(caller_node@, func@.calls, current_file@, symbol_table),
            ),
    {
        let ghost calls = func@.calls;
        let ghost start = self@;
        let mut j: usize = 0;
        while j < func.calls.len()
            invariant
                j <= func.calls@.len(),
                calls == func.calls.deep_view(),
                self@ == emit(
                    start,
                    call_emissions(caller_node@, calls.take(j as int), current_file@, symbol_table),
                ),
            decreases func.calls@.len() - j,
        {
            let call = &func.calls[j];
            let ghost done = call_emissions(
                caller_node@,
                calls.take(j as int),
                current_file@,
                symbol_table,
            );
            proof {
                assert(calls.take(j + 1).drop_last() =~= calls.take(j as int));
                assert(calls.take(j + 1).last() == call@);
            }
            match symbol_table.resolve_function(call.as_str(), current_file) {
                Some(site) => {
                    let callee = NodeId::Function(site.file_path.clone(), call.clone());
                    let ghost step = seq![
                        Emission::Node(callee@),
                        Emission::Edge(plain_edge(caller_node@, callee@, EdgeType::Calls)),
                    ];
                    proof {
                        lemma_emit_concat(start, done, step);
                        assert(done + step =~= done.push(step[0]).push(step[1]));
                    }
                    let properties: Vec<Property> = Vec::new();
                    assert(properties.deep_view() =~= Seq::empty());
                    self.link(caller_node, callee, EdgeType::Calls, properties);
                },
                None => {},
            }
            j += 1;
        }
        assert(calls.take(j as int) =~= calls);
    }

    /// Adds one function or method below its owner.
    fn add_function(
        &mut self,
        owner: &NodeId,
        relation: EdgeType,
        path: &String,
        func: &FunctionInfo,
        symbol_table: &SymbolTable,
    )
        ensures
            final(self)@ == emit(
                old(self)@,
                function_emissions(owner@, relation, path@, func@, symbol_table),
            ),
    {
        let node = NodeId::Function(path.clone(), func.name.clone());
        let ghost head = seq![
            Emission::Node(node@),
            Emission::Edge(plain_edge(owner@, node@, relation)),
        ];
        proof {
            lemma_emit_concat(
                old(self)@,
                head,
                call_emissions(node@, func@.calls, path@, symbol_table),
            );
        }
        let properties: Vec<Property> = Vec::new();
        assert(properties.deep_view() =~= Seq::empty());
        self.link(owner, node.clone(), relation, properties);
        self.add_call_edges(&node, func, path.as_str(), symbol_table);
    }

    /// Adds a list of functions below one owner.
    fn add_functions(
        &mut self,
        owner: &NodeId,
        relation: EdgeType,
        path: &String,
        functions: &Vec<FunctionInfo>,
        symbol_table: &SymbolTable,
    )
        ensures
            final(self)@ == emit(
                old(self)@,
                functions_emissions(owner@, relation, path@, functions.deep_view(), symbol_table),
            ),
    {
        let ghost all = functions.deep_view();
        let ghost start = self@;
        let mut j: usize = 0;
        while j < functions.len()
            invariant
                j <= functions@.len(),
                all == functions.deep_view(),
                self@ == emit(
                    start,
                    functions_emissions(owner@, relation, path@, all.take(j as int), symbol_table),
                ),
            decreases functions@.len() - j,
        {
            proof {
                assert(all.take(j + 1).drop_last() =~= all.take(j as int));
                assert(all.take(j + 1).last() == functions[j as int]@);
                lemma_emit_concat(
                    start,
                    functions_emissions(owner@, relation, path@, all.take(j as int), symbol_table),
                    function_emissions(owner@, relation, path@, functions[j as int]@, symbol_table),
                );
            }
            self.add_function(owner, relation, path, &functions[j], symbol_table);
            j += 1;
        }
        assert(all.take(j as int) =~= all);
    }

    /// Adds the inheritance edges of one class.
    fn add_inheritances(
        &mut self,
        class_node: &NodeId,
        parents: &Vec<InheritanceInfo>,
        path: &String,
        symbol_table: &SymbolTable,
    )
        ensures
            final(self)@ == emit(
                old(self)@,
                inheritance_emissions(class_node@, parents.deep_view(), path@, symbol_table),
            ),
    {
        let ghost all = parents.deep_view();
        let ghost start = self@;
        let mut j: usize = 0;
        while j < parents.len()
            invariant
                j <= parents@.len(),
                all == parents.deep_view(),
                self@ == emit(
                    start,
                    inheritance_emissions(class_node@, all.take(j as int), path@, symbol_table),
                ),
            decreases parents@.len() - j,
        {
            let parent = &parents[j];
            let ghost done = inheritance_emissions(
                class_node@,
                all.take(j as int),
                path@,
                symbol_table,
            );
            let target = match symbol_table.resolve_class(parent.name.as_str(), path.as_str()) {
                Some(site) => NodeId::Class(site.file_path.clone(), parent.name.clone()),
                None => NodeId::Module(parent.name.clone()),
            };
            let mut properties: Vec<Property> = Vec::new();
            properties.push(Property { key: "kind".to_string(), value: parent.kind.clone() });
            proof {
                assert(all.take(j + 1).drop_last() =~= all.take(j as int));
                assert(all.take(j + 1).last() == parent@);
                assert(target@ == parent_target(symbol_table, parent.name@, path@));
                assert(properties.deep_view() =~= seq![("kind"@, parent.kind@)]);
                let step = seq![
                    Emission::Node(target@),
                    Emission::Edge(inherits_edge(class_node@, target@, parent.kind@)),
                ];
                lemma_emit_concat(start, done, step);
                assert(done + step =~= done.push(step[0]).push(step[1]));
            }
            self.link(class_node, target, EdgeType::Inherits, properties);
            j += 1;
        }
        assert(all.take(j as int) =~= all);
    }

    /// Adds one class of the file at `path`.
    fn add_class(
        &mut self,
        file_node: &NodeId,
        path: &String,
        class: &ClassInfo,
        symbol_table: &SymbolTable,
    )
        requires
            file_node@ == NodeKey::File(path@),
        ensures
            final(self)@ == emit(old(self)@, class_emissions(path@, class@, symbol_table)),
    {
        let node = NodeId::Class(path.clone(), class.name.clone());
        let ghost head = seq![
            Emission::Node(node@),
            Emission::Edge(plain_edge(file_node@, node@, EdgeType::Defines)),
        ];
        let ghost parents = inheritance_emissions(node@, class@.inheritances, path@, symbol_table);
        let ghost methods = functions_emissions(
            node@,
            EdgeType::Contains,
            path@,
            class@.methods,
            symbol_table,
        );
        proof {
            lemma_emit_concat(old(self)@, head, parents);
            lemma_emit_concat(old(self)@, head + parents, methods);
        }
        let properties: Vec<Property> = Vec::new();
        assert(properties.deep_view() =~= Seq::empty());
        self.link(file_node, node.clone(), EdgeType::Defines, properties);
        self.add_inheritances(&node, &class.inheritances, path, symbol_table);
        self.add_functions(&node, EdgeType::Contains, path, &class.methods, symbol_table);
    }

    /// Adds the classes of the file at `path`.
    fn add_classes(
        &mut self,
        file_node: &NodeId,
        path: &String,
        classes: &Vec<ClassInfo>,
        symbol_table: &SymbolTable,
    )
        requires
            file_node@ == NodeKey::File(path@),
        ensures
            final(self)@ == emit(
                old(self)@,
                classes_emissions(path@, classes.deep_view(), symbol_table),
            ),
    {
        let ghost all = classes.deep_view();
        let ghost start = self@;
        let mut j: usize = 0;
        while j < classes.len()
            invariant
                j <= classes@.len(),
                all == classes.deep_view(),
                file_node@ == NodeKey::File(path@),
                self@ == emit(start, classes_emissions(path@, all.take(j as int), symbol_table)),
            decreases classes@.len() - j,
        {
            proof {
                assert(all.take(j + 1).drop_last() =~= all.take(j as int));
                assert(all.take(j + 1).last() == classes[j as int]@);
                lemma_emit_concat(
                    start,
                    classes_emissions(path@, all.take(j as int), symbol_table),
                    class_emissions(path@, classes[j as int]@, symbol_table),
                );
            }
            self.add_class(file_node, path, &classes[j], symbol_table);
            j += 1;
        }
        assert(all.take(j as int) =~= all);
    }

    /// Adds the imports of the file at `path`.
    fn add_imports(&mut self, file_node: &NodeId, path: &String, imports: &Vec<String>)
        requires
            file_node@ == NodeKey::File(path@),
        ensures
            final(self)@ == emit(old(self)@, import_emissions(path@, imports.deep_view())),
    {
        let ghost all = imports.deep_view();
        let ghost start = self@;
        let mut j: usize = 0;
        while j < imports.len()
            invariant
                j <= imports@.len(),
                all == imports.deep_view(),
                file_node@ == NodeKey::File(path@),
                self@ == emit(start, import_emissions(path@, all.take(j as int))),
            decreases imports@.len() - j,
        {
            let module = NodeId::Module(imports[j].clone());
            let ghost done = import_emissions(path@, all.take(j as int));
            proof {
                assert(all.take(j + 1).drop_last() =~= all.take(j as int));
                assert(all.take(j + 1).last() == imports[j as int]@);
                let step = seq![
                    Emission::Node(module@),
                    Emission::Edge(plain_edge(file_node@, module@, EdgeType::Imports)),
                ];
                lemma_emit_concat(start, done, step);
                assert(done + step =~= done.push(step[0]).push(step[1]));
            }
            let properties: Vec<Property> = Vec::new();
            assert(properties.deep_view() =~= Seq::empty());
            self.link(file_node, module, EdgeType::Imports, properties);
            j += 1;
        }
        assert(all.take(j as int) =~= all);
    }

    /// Adds everything one file contributes.
    fn add_file(&mut self, file: &ParsedFile, symbol_table: &SymbolTable)
        ensures
            final(self)@ == emit(old(self)@, file_emissions(file@, symbol_table)),
    {
        let file_node = NodeId::File(file.path.clone());
        let ghost head = seq![Emission::Node(file_node@)];
        let ghost functions = functions_emissions(
            file_node@,
            EdgeType::Defines,
            file.path@,
            file@.functions,
            symbol_table,
        );
        let ghost classes = classes_emissions(file.path@, file@.classes, symbol_table);
        let ghost imports = import_emissions(file.path@, file@.imports);
        proof {
            lemma_emit_concat(old(self)@, head, functions);
            lemma_emit_concat(old(self)@, head + functions, classes);
            lemma_emit_concat(old(self)@, head + functions + classes, imports);
        }
        self.insert_node(file_node.clone());
        self.add_functions(&file_node, EdgeType::Defines, &file.path, &file.functions, symbol_table);
        self.add_classes(&file_node, &file.path, &file.classes, symbol_table);
        self.add_imports(&file_node, &file.path, &file.imports);
    }

    /// Builds the dependency graph of `parsed_files`, resolving calls and
    /// parent classes through `symbol_table`.
    pub fn from_parsed_files(parsed_files: &[ParsedFile], symbol_table: &SymbolTable) -> (graph: Self)
        ensures
            graph@ == graph_of(parsed_files.deep_view(), symbol_table),
    {
        let mut graph = DependencyGraph::new();
        let ghost all = parsed_files.deep_view();
        let mut i: usize = 0;
        while i < parsed_files.len()
            invariant
                i <= parsed_files@.len(),
                all == parsed_files.deep_view(),
                graph@ == graph_of(all.take(i as int), symbol_table),
            decreases parsed_files@.len() - i,
        {
            proof {
                assert(all.take(i + 1).drop_last() =~= all.take(i as int));
                assert(all.take(i + 1).last() == parsed_files[i as int]@);
                lemma_emit_concat(
                    empty_graph(),
                    graph_emissions(all.take(i as int), symbol_table),
                    file_emissions(parsed_files[i as int]@, symbol_table),
                );
            }
            graph.add_file(&parsed_files[i], symbol_table);
            i += 1;
        }
        assert(all.take(i as int) =~= all);
        graph
    }

    /// The edges of the given type, in insertion order.
    pub fn edges_of_type(&self, edge_type: EdgeType) -> (r: Vec<&Edge>)
        ensures
            r.deep_view() == edges_typed(self@.edges, edge_type),
    {
        let mut out: Vec<&Edge> = Vec::new();
        let ghost all = self@.edges;
        let mut i: usize = 0;
        assert(out.deep_view() =~= edges_typed(all.take(0), edge_type));
        while i < self.edges.len()
            invariant
                i <= self.edges@.len(),
                all == self.edges.deep_view(),
                out.deep_view() == edges_typed(all.take(i as int), edge_type),
            decreases self.edges@.len() - i,
        {
            proof {
                assert(all.take(i + 1).drop_last() =~= all.take(i as int));
                assert(all.take(i + 1).last() == self.edges[i as int]@);
            }
            if self.edges[i].edge_type == edge_type {
                let edge = &self.edges[i];
                proof {
                    lemma_deep_view_push(out@, out@.push(edge), edge);
                }
                out.push(edge);
            }
            i += 1;
        }
        assert(all.take(i as int) =~= all);
        out
    }
}


impl DependencyGraph {
    /// Counts the nodes by kind and the edges by type.
    pub fn stats(&self) -> (stats: GraphStats)
        ensures
            counts(stats, self@),
    {
        let mut stats = GraphStats {
            files: 0,
            classes: 0,
            functions: 0,
            modules: 0,
            defines_edges: 0,
            calls_edges: 0,
            imports_edges: 0,
            inherits_edges: 0,
            contains_edges: 0,
        };
        let ghost nodes = self@.nodes;
        let ghost edges = self@.edges;
        let mut i: usize = 0;
        while i < self.nodes.len()
            invariant
                i <= self.nodes@.len(),
                nodes == self.nodes.deep_view(),
                counts(stats, GraphModel { nodes: nodes.take(i as int), edges: Seq::empty() }),
            decreases self.nodes@.len() - i,
        {
            proof {
                assert(nodes.take(i + 1).drop_last() =~= nodes.take(i as int));
                assert(nodes.take(i + 1).last() == self.nodes[i as int]@);
                lemma_nodes_of_kind_len(nodes.take(i as int), NodeKind::File);
                lemma_nodes_of_kind_len(nodes.take(i as int), NodeKind::Class);
                lemma_nodes_of_kind_len(nodes.take(i as int), NodeKind::Function);
                lemma_nodes_of_kind_len(nodes.take(i as int), NodeKind::Module);
            }
            match &self.nodes[i] {
                NodeId::File(_) => {
                    stats.files += 1;
                },
                NodeId::Class(_, _) => {
                    stats.classes += 1;
                },
                NodeId::Function(_, _) => {
                    stats.functions += 1;
                },
                NodeId::Module(_) => {
                    stats.modules += 1;
                },
            }
            i += 1;
        }
        assert(nodes.take(i as int) =~= nodes);
        let mut k: usize = 0;
        while k < self.edges.len()
            invariant
                k <= self.edges@.len(),
                edges == self.edges.deep_view(),
                counts(stats, GraphModel { nodes, edges: edges.take(k as int) }),
            decreases self.edges@.len() - k,
        {
            proof {
                assert(edges.take(k + 1).drop_last() =~= edges.take(k as int));
                assert(edges.take(k + 1).last() == self.edges[k as int]@);
                lemma_edges_typed_len(edges.take(k as int), EdgeType::Defines);
                lemma_edges_typed_len(edges.take(k as int), EdgeType::Calls);
                lemma_edges_typed_len(edges.take(k as int), EdgeType::Imports);
                lemma_edges_typed_len(edges.take(k as int), EdgeType::Inherits);
                lemma_edges_typed_len(edges.take(k as int), EdgeType::Contains);
            }
            match self.edges[k].edge_type {
                EdgeType::Defines => {
                    stats.defines_edges += 1;
                },
                EdgeType::Calls => {
                    stats.calls_edges += 1;
                },
                EdgeType::Imports => {
                    stats.imports_edges += 1;
                },
                EdgeType::Inherits => {
                    stats.inherits_edges += 1;
                },
                EdgeType::Contains => {
                    stats.contains_edges += 1;
                },
            }
            k += 1;
        }
        assert(edges.take(k as int) =~= edges);
        stats
    }
}

} // verus!
