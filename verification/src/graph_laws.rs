//! What holds of every dependency graph built from parsed files.

use vstd::prelude::*;
use crate::graph_builder::{
    call_emissions, call_target, class_emissions, classes_emissions, emit, empty_graph,
    file_emissions, function_emissions, functions_emissions, graph_emissions, graph_of,
    import_emissions, inheritance_emissions, inherits_edge, parent_target, plain_edge, EdgeModel,
    EdgeType, Emission, GraphModel, NodeKey,
};
use crate::parsers::{ClassModel, FunctionModel, InheritanceModel, ParsedFileModel};
use crate::symbol_table::SymbolTable;

verus! {

/// An element of a concatenation is an element of one of its parts.
pub proof fn lemma_concat_contains<A>(a: Seq<A>, b: Seq<A>, x: A)
    ensures
        (a + b).contains(x) <==> a.contains(x) || b.contains(x),
{
    if a.contains(x) {
        let i = choose|i: int| 0 <= i < a.len() && a[i] == x;
        assert((a + b)[i] == x);
    }
    if b.contains(x) {
        let i = choose|i: int| 0 <= i < b.len() && b[i] == x;
        assert((a + b)[a.len() + i] == x);
    }
    if (a + b).contains(x) {
        let i = choose|i: int| 0 <= i < (a + b).len() && (a + b)[i] == x;
        if i < a.len() {
            assert(a[i] == x);
        } else {
            assert(b[i - a.len()] == x);
        }
    }
}

/// An element of a sequence with one more element is that element or one of
/// the sequence.
pub proof fn lemma_push_contains<A>(a: Seq<A>, last: A, x: A)
    ensures
        a.push(last).contains(x) <==> a.contains(x) || last == x,
{
    assert(a.push(last) =~= a + seq![last]);
    lemma_concat_contains(a, seq![last], x);
    if seq![last].contains(x) {
        let i = choose|i: int| 0 <= i < seq![last].len() && seq![last][i] == x;
        assert(last == x);
    }
    if last == x {
        assert(seq![last][0] == x);
    }
}

/// The edges of a graph after a stream are the edges it had and the edges
/// the stream emits.
pub proof fn lemma_emit_edges(g: GraphModel, stream: Seq<Emission>, e: EdgeModel)
    ensures
        emit(g, stream).edges.contains(e) <==> g.edges.contains(e) || stream.contains(
            Emission::Edge(e),
        ),
    decreases stream.len(),
{
    if stream.len() > 0 {
        let rest = stream.drop_last();
        assert(stream =~= rest.push(stream.last()));
        lemma_emit_edges(g, rest, e);
        lemma_push_contains(rest, stream.last(), Emission::Edge(e));
        let base = emit(g, rest);
        match stream.last() {
            Emission::Node(_) => {},
            Emission::Edge(last) => {
                lemma_push_contains(base.edges, last, e);
            },
        }
    }
}

/// The nodes of a graph after a stream are the nodes it had and the nodes
/// the stream emits.
pub proof fn lemma_emit_nodes(g: GraphModel, stream: Seq<Emission>, n: NodeKey)
    ensures
        emit(g, stream).nodes.contains(n) <==> g.nodes.contains(n) || stream.contains(
            Emission::Node(n),
        ),
    decreases stream.len(),
{
    if stream.len() > 0 {
        let rest = stream.drop_last();
        assert(stream =~= rest.push(stream.last()));
        lemma_emit_nodes(g, rest, n);
        lemma_push_contains(rest, stream.last(), Emission::Node(n));
        let base = emit(g, rest);
        match stream.last() {
            Emission::Node(last) => {
                if !base.nodes.contains(last) {
                    lemma_push_contains(base.nodes, last, n);
                }
            },
            Emission::Edge(_) => {},
        }
    }
}

/// A stream never makes a node set hold a node twice.
pub proof fn lemma_emit_no_duplicates(g: GraphModel, stream: Seq<Emission>)
    requires
        g.nodes.no_duplicates(),
    ensures
        emit(g, stream).nodes.no_duplicates(),
    decreases stream.len(),
{
    if stream.len() > 0 {
        lemma_emit_no_duplicates(g, stream.drop_last());
    }
}

/// What one file emits is part of what the code base emits.
pub proof fn lemma_file_in_graph(files: Seq<ParsedFileModel>, table: &SymbolTable, i: int, x: Emission)
    requires
        0 <= i < files.len(),
        file_emissions(files[i], table).contains(x),
    ensures
        graph_emissions(files, table).contains(x),
    decreases files.len(),
{
    lemma_concat_contains(
        graph_emissions(files.drop_last(), table),
        file_emissions(files.last(), table),
        x,
    );
    if i < files.len() - 1 {
        lemma_file_in_graph(files.drop_last(), table, i, x);
    }
}

/// What one function emits is part of what its list emits.
pub proof fn lemma_function_in_list(
    owner: NodeKey,
    relation: EdgeType,
    path: Seq<char>,
    functions: Seq<FunctionModel>,
    table: &SymbolTable,
    k: int,
    x: Emission,
)
    requires
        0 <= k < functions.len(),
        function_emissions(owner, relation, path, functions[k], table).contains(x),
    ensures
        functions_emissions(owner, relation, path, functions, table).contains(x),
    decreases functions.len(),
{
    lemma_concat_contains(
        functions_emissions(owner, relation, path, functions.drop_last(), table),
        function_emissions(owner, relation, path, functions.last(), table),
        x,
    );
    if k < functions.len() - 1 {
        lemma_function_in_list(owner, relation, path, functions.drop_last(), table, k, x);
    }
}

/// What one class emits is part of what the classes of its file emit.
pub proof fn lemma_class_in_list(
    path: Seq<char>,
    classes: Seq<ClassModel>,
    table: &SymbolTable,
    j: int,
    x: Emission,
)
    requires
        0 <= j < classes.len(),
        class_emissions(path, classes[j], table).contains(x),
    ensures
        classes_emissions(path, classes, table).contains(x),
    decreases classes.len(),
{
    lemma_concat_contains(
        classes_emissions(path, classes.drop_last(), table),
        class_emissions(path, classes.last(), table),
        x,
    );
    if j < classes.len() - 1 {
        lemma_class_in_list(path, classes.drop_last(), table, j, x);
    }
}

/// A call that resolves emits its callee and the edge to it.
pub proof fn lemma_call_in_list(
    caller: NodeKey,
    calls: Seq<Seq<char>>,
    file: Seq<char>,
    table: &SymbolTable,
    k: int,
)
    requires
        0 <= k < calls.len(),
        call_target(table, calls[k], file) is Some,
    ensures
        call_emissions(caller, calls, file, table).contains(
            Emission::Node(call_target(table, calls[k], file)->0),
        ),
        call_emissions(caller, calls, file, table).contains(
            Emission::Edge(
                plain_edge(caller, call_target(table, calls[k], file)->0, EdgeType::Calls),
            ),
        ),
    decreases calls.len(),
{
    let rest = call_emissions(caller, calls.drop_last(), file, table);
    let callee = call_target(table, calls[k], file)->0;
    let node = Emission::Node(callee);
    let edge = Emission::Edge(plain_edge(caller, callee, EdgeType::Calls));
    if k < calls.len() - 1 {
        lemma_call_in_list(caller, calls.drop_last(), file, table, k);
        match call_target(table, calls.last(), file) {
            Some(other) => {
                let mid = rest.push(Emission::Node(other));
                let last = Emission::Edge(plain_edge(caller, other, EdgeType::Calls));
                lemma_push_contains(rest, Emission::Node(other), node);
                lemma_push_contains(rest, Emission::Node(other), edge);
                lemma_push_contains(mid, last, node);
                lemma_push_contains(mid, last, edge);
            },
            None => {},
        }
    } else {
        let mid = rest.push(node);
        lemma_push_contains(rest, node, node);
        lemma_push_contains(mid, edge, node);
        lemma_push_contains(mid, edge, edge);
    }
}

/// An inheritance entry emits its target and the edge to it.
pub proof fn lemma_parent_in_list(
    class: NodeKey,
    parents: Seq<InheritanceModel>,
    file: Seq<char>,
    table: &SymbolTable,
    h: int,
)
    requires
        0 <= h < parents.len(),
    ensures
        inheritance_emissions(class, parents, file, table).contains(
            Emission::Node(parent_target(table, parents[h].name, file)),
        ),
        inheritance_emissions(class, parents, file, table).contains(
            Emission::Edge(
                inherits_edge(class, parent_target(table, parents[h].name, file), parents[h].kind),
            ),
        ),
    decreases parents.len(),
{
    let rest = inheritance_emissions(class, parents.drop_last(), file, table);
    let target = parent_target(table, parents[h].name, file);
    let node = Emission::Node(target);
    let edge = Emission::Edge(inherits_edge(class, target, parents[h].kind));
    let other = parent_target(table, parents.last().name, file);
    let mid = rest.push(Emission::Node(other));
    let last = Emission::Edge(inherits_edge(class, other, parents.last().kind));
    lemma_push_contains(rest, Emission::Node(other), node);
    lemma_push_contains(rest, Emission::Node(other), edge);
    lemma_push_contains(mid, last, node);
    lemma_push_contains(mid, last, edge);
    if h < parents.len() - 1 {
        lemma_parent_in_list(class, parents.drop_last(), file, table, h);
    }
}

/// Every class of every file is defined by its file, contains each of its
/// methods, and each method is a node: for the class `j` of the file `i` and
/// its method `k`, the graph holds `File -Defines-> Class`,
/// `Class -Contains-> Function` and the `Function` node.
pub proof fn law_class_structure(
    files: Seq<ParsedFileModel>,
    table: &SymbolTable,
    i: int,
    j: int,
    k: int,
)
    requires
        0 <= i < files.len(),
        0 <= j < files[i].classes.len(),
        0 <= k < files[i].classes[j].methods.len(),
    ensures
        ({
            let path = files[i].path;
            let class = NodeKey::Class(path, files[i].classes[j].name);
            let method = NodeKey::Function(path, files[i].classes[j].methods[k].name);
            let g = graph_of(files, table);
            &&& g.edges.contains(plain_edge(NodeKey::File(path), class, EdgeType::Defines))
            &&& g.edges.contains(plain_edge(class, method, EdgeType::Contains))
            &&& g.nodes.contains(method)
            &&& g.nodes.contains(class)
        }),
{
    let f = files[i];
    let c = f.classes[j];
    let m = c.methods[k];
    let path = f.path;
    let class = NodeKey::Class(path, c.name);
    let method = NodeKey::Function(path, m.name);
    let defines = Emission::Edge(plain_edge(NodeKey::File(path), class, EdgeType::Defines));
    let contains = Emission::Edge(plain_edge(class, method, EdgeType::Contains));
    let method_node = Emission::Node(method);
    let class_node = Emission::Node(class);
    // the method's own emissions
    let m_head = seq![method_node, contains];
    let m_stream = function_emissions(class, EdgeType::Contains, path, m, table);
    assert(m_head[0] == method_node && m_head[1] == contains);
    lemma_concat_contains(m_head, call_emissions(method, m.calls, path, table), method_node);
    lemma_concat_contains(m_head, call_emissions(method, m.calls, path, table), contains);
    lemma_function_in_list(class, EdgeType::Contains, path, c.methods, table, k, method_node);
    lemma_function_in_list(class, EdgeType::Contains, path, c.methods, table, k, contains);
    // the class's emissions
    let c_head = seq![class_node, defines];
    assert(c_head[0] == class_node && c_head[1] == defines);
    let c_parents = inheritance_emissions(class, c.inheritances, path, table);
    let c_methods = functions_emissions(class, EdgeType::Contains, path, c.methods, table);
    lemma_in_class(path, c, table, method_node);
    lemma_in_class(path, c, table, contains);
    lemma_in_class(path, c, table, defines);
    lemma_in_class(path, c, table, class_node);
    lemma_class_reaches_graph(files, table, i, j, method_node);
    lemma_class_reaches_graph(files, table, i, j, contains);
    lemma_class_reaches_graph(files, table, i, j, defines);
    lemma_class_reaches_graph(files, table, i, j, class_node);
    let stream = graph_emissions(files, table);
    lemma_emit_edges(empty_graph(), stream, plain_edge(NodeKey::File(path), class, EdgeType::Defines));
    lemma_emit_edges(empty_graph(), stream, plain_edge(class, method, EdgeType::Contains));
    lemma_emit_nodes(empty_graph(), stream, method);
    lemma_emit_nodes(empty_graph(), stream, class);
}

/// The parts of what a class emits.
pub proof fn lemma_in_class(path: Seq<char>, c: ClassModel, table: &SymbolTable, x: Emission)
    ensures
        class_emissions(path, c, table).contains(x) <==> {
            let node = NodeKey::Class(path, c.name);
            ||| x == Emission::Node(node)
            ||| x == Emission::Edge(plain_edge(NodeKey::File(path), node, EdgeType::Defines))
            ||| inheritance_emissions(node, c.inheritances, path, table).contains(x)
            ||| functions_emissions(node, EdgeType::Contains, path, c.methods, table).contains(x)
        },
{
    let node = NodeKey::Class(path, c.name);
    let head = seq![
        Emission::Node(node),
        Emission::Edge(plain_edge(NodeKey::File(path), node, EdgeType::Defines)),
    ];
    let parents = inheritance_emissions(node, c.inheritances, path, table);
    let methods = functions_emissions(node, EdgeType::Contains, path, c.methods, table);
    lemma_concat_contains(head, parents, x);
    lemma_concat_contains(head + parents, methods, x);
    if head.contains(x) {
        let i = choose|i: int| 0 <= i < head.len() && head[i] == x;
        assert(i == 0 || i == 1);
    }
    assert(head[0] == Emission::Node(node));
    assert(head[1] == Emission::Edge(plain_edge(NodeKey::File(path), node, EdgeType::Defines)));
}

/// The parts of what a file emits.
pub proof fn lemma_in_file(f: ParsedFileModel, table: &SymbolTable, x: Emission)
    ensures
        file_emissions(f, table).contains(x) <==> {
            ||| x == Emission::Node(NodeKey::File(f.path))
            ||| functions_emissions(
                NodeKey::File(f.path),
                EdgeType::Defines,
                f.path,
                f.functions,
                table,
            ).contains(x)
            ||| classes_emissions(f.path, f.classes, table).contains(x)
            ||| import_emissions(f.path, f.imports).contains(x)
        },
{
    let head = seq![Emission::Node(NodeKey::File(f.path))];
    let functions = functions_emissions(
        NodeKey::File(f.path),
        EdgeType::Defines,
        f.path,
        f.functions,
        table,
    );
    let classes = classes_emissions(f.path, f.classes, table);
    let imports = import_emissions(f.path, f.imports);
    lemma_concat_contains(head, functions, x);
    lemma_concat_contains(head + functions, classes, x);
    lemma_concat_contains(head + functions + classes, imports, x);
    if head.contains(x) {
        let i = choose|i: int| 0 <= i < head.len() && head[i] == x;
        assert(i == 0);
    }
    assert(head[0] == Emission::Node(NodeKey::File(f.path)));
}

/// What a class emits is part of what the code base emits.
pub proof fn lemma_class_reaches_graph(
    files: Seq<ParsedFileModel>,
    table: &SymbolTable,
    i: int,
    j: int,
    x: Emission,
)
    requires
        0 <= i < files.len(),
        0 <= j < files[i].classes.len(),
        class_emissions(files[i].path, files[i].classes[j], table).contains(x),
    ensures
        graph_emissions(files, table).contains(x),
{
    lemma_class_in_list(files[i].path, files[i].classes, table, j, x);
    lemma_in_file(files[i], table, x);
    lemma_file_in_graph(files, table, i, x);
}


/// Every inheritance entry has its edge: for the entry `h` of the class `j`
/// of the file `i`, the graph holds an `Inherits` edge from the class to the
/// class the parent's name resolves to, or to a module of that name when it
/// does not resolve; the target is a node, and the edge carries the recorded
/// kind under `kind`.
pub proof fn law_inheritance_edge(
    files: Seq<ParsedFileModel>,
    table: &SymbolTable,
    i: int,
    j: int,
    h: int,
)
    requires
        0 <= i < files.len(),
        0 <= j < files[i].classes.len(),
        0 <= h < files[i].classes[j].inheritances.len(),
    ensures
        ({
            let path = files[i].path;
            let class = NodeKey::Class(path, files[i].classes[j].name);
            let parent = files[i].classes[j].inheritances[h];
            let target = match table.resolved_class(parent.name, path) {
                Some(site) => NodeKey::Class(site.file_path, parent.name),
                None => NodeKey::Module(parent.name),
            };
            let g = graph_of(files, table);
            &&& g.nodes.contains(target)
            &&& g.edges.contains(
                EdgeModel {
                    from: class,
                    to: target,
                    edge_type: EdgeType::Inherits,
                    properties: seq![("kind"@, parent.kind)],
                },
            )
        }),
{
    let path = files[i].path;
    let c = files[i].classes[j];
    let class = NodeKey::Class(path, c.name);
    let parent = c.inheritances[h];
    let target = parent_target(table, parent.name, path);
    let node = Emission::Node(target);
    let edge = Emission::Edge(inherits_edge(class, target, parent.kind));
    lemma_parent_in_list(class, c.inheritances, path, table, h);
    lemma_in_class(path, c, table, node);
    lemma_in_class(path, c, table, edge);
    lemma_class_reaches_graph(files, table, i, j, node);
    lemma_class_reaches_graph(files, table, i, j, edge);
    let stream = graph_emissions(files, table);
    lemma_emit_nodes(empty_graph(), stream, target);
    lemma_emit_edges(empty_graph(), stream, inherits_edge(class, target, parent.kind));
}

/// A call of a top-level function that resolves has its edge: for the call
/// `k` of the function `j` of the file `i`, if the call name resolves from
/// that file to a site, the graph holds a `Calls` edge from the function to
/// the function of that name in the site's file.
pub proof fn law_call_edge_of_function(
    files: Seq<ParsedFileModel>,
    table: &SymbolTable,
    i: int,
    j: int,
    k: int,
)
    requires
        0 <= i < files.len(),
        0 <= j < files[i].functions.len(),
        0 <= k < files[i].functions[j].calls.len(),
        table.resolved_function(files[i].functions[j].calls[k], files[i].path) is Some,
    ensures
        ({
            let path = files[i].path;
            let call = files[i].functions[j].calls[k];
            let site = table.resolved_function(call, path)->0;
            graph_of(files, table).edges.contains(
                plain_edge(
                    NodeKey::Function(path, files[i].functions[j].name),
                    NodeKey::Function(site.file_path, call),
                    EdgeType::Calls,
                ),
            )
        }),
{
    let f = files[i];
    let path = f.path;
    let func = f.functions[j];
    let caller = NodeKey::Function(path, func.name);
    let callee = call_target(table, func.calls[k], path)->0;
    let edge = Emission::Edge(plain_edge(caller, callee, EdgeType::Calls));
    let owner = NodeKey::File(path);
    lemma_call_in_list(caller, func.calls, path, table, k);
    lemma_concat_contains(
        seq![Emission::Node(caller), Emission::Edge(plain_edge(owner, caller, EdgeType::Defines))],
        call_emissions(caller, func.calls, path, table),
        edge,
    );
    lemma_function_in_list(owner, EdgeType::Defines, path, f.functions, table, j, edge);
    lemma_in_file(f, table, edge);
    lemma_file_in_graph(files, table, i, edge);
    lemma_emit_edges(
        empty_graph(),
        graph_emissions(files, table),
        plain_edge(caller, callee, EdgeType::Calls),
    );
}

/// A call of a method that resolves has its edge: for the call `k` of the
/// method `m` of the class `j` of the file `i`, if the call name resolves
/// from that file to a site, the graph holds a `Calls` edge from the method
/// to the function of that name in the site's file.
pub proof fn law_call_edge_of_method(
    files: Seq<ParsedFileModel>,
    table: &SymbolTable,
    i: int,
    j: int,
    m: int,
    k: int,
)
    requires
        0 <= i < files.len(),
        0 <= j < files[i].classes.len(),
        0 <= m < files[i].classes[j].methods.len(),
        0 <= k < files[i].classes[j].methods[m].calls.len(),
        table.resolved_function(files[i].classes[j].methods[m].calls[k], files[i].path) is Some,
    ensures
        ({
            let path = files[i].path;
            let method = files[i].classes[j].methods[m];
            let site = table.resolved_function(method.calls[k], path)->0;
            graph_of(files, table).edges.contains(
                plain_edge(
                    NodeKey::Function(path, method.name),
                    NodeKey::Function(site.file_path, method.calls[k]),
                    EdgeType::Calls,
                ),
            )
        }),
{
    let f = files[i];
    let path = f.path;
    let c = f.classes[j];
    let method = c.methods[m];
    let class = NodeKey::Class(path, c.name);
    let caller = NodeKey::Function(path, method.name);
    let callee = call_target(table, method.calls[k], path)->0;
    let edge = Emission::Edge(plain_edge(caller, callee, EdgeType::Calls));
    lemma_call_in_list(caller, method.calls, path, table, k);
    lemma_concat_contains(
        seq![Emission::Node(caller), Emission::Edge(plain_edge(class, caller, EdgeType::Contains))],
        call_emissions(caller, method.calls, path, table),
        edge,
    );
    lemma_function_in_list(class, EdgeType::Contains, path, c.methods, table, m, edge);
    lemma_in_class(path, c, table, edge);
    lemma_class_reaches_graph(files, table, i, j, edge);
    lemma_emit_edges(
        empty_graph(),
        graph_emissions(files, table),
        plain_edge(caller, callee, EdgeType::Calls),
    );
}

/// What makes a `Calls` edge justified: it runs from a function to a
/// function, and the callee's name resolves from the caller's file to a
/// site in the callee's file.
pub open spec fn call_justified(e: EdgeModel, table: &SymbolTable) -> bool {
    e.edge_type == EdgeType::Calls ==> {
        &&& e.from is Function
        &&& e.to is Function
        &&& call_target(table, e.to.name(), e.from.file_path()->0) == Some(e.to)
    }
}

proof fn lemma_calls_justified(
    caller: NodeKey,
    calls: Seq<Seq<char>>,
    table: &SymbolTable,
    e: EdgeModel,
)
    requires
        caller is Function,
        call_emissions(caller, calls, caller.file_path()->0, table).contains(Emission::Edge(e)),
    ensures
        call_justified(e, table),
    decreases calls.len(),
{
    let file = caller.file_path()->0;
    if calls.len() > 0 {
        let rest = call_emissions(caller, calls.drop_last(), file, table);
        match call_target(table, calls.last(), file) {
            Some(callee) => {
                let mid = rest.push(Emission::Node(callee));
                let last = Emission::Edge(plain_edge(caller, callee, EdgeType::Calls));
                lemma_push_contains(rest, Emission::Node(callee), Emission::Edge(e));
                lemma_push_contains(mid, last, Emission::Edge(e));
                if rest.contains(Emission::Edge(e)) {
                    lemma_calls_justified(caller, calls.drop_last(), table, e);
                }
            },
            None => {
                lemma_calls_justified(caller, calls.drop_last(), table, e);
            },
        }
    }
}

proof fn lemma_functions_justified(
    owner: NodeKey,
    relation: EdgeType,
    path: Seq<char>,
    functions: Seq<FunctionModel>,
    table: &SymbolTable,
    e: EdgeModel,
)
    requires
        relation != EdgeType::Calls,
        functions_emissions(owner, relation, path, functions, table).contains(Emission::Edge(e)),
    ensures
        call_justified(e, table),
    decreases functions.len(),
{
    if functions.len() > 0 {
        let f = functions.last();
        let node = NodeKey::Function(path, f.name);
        let head = seq![Emission::Node(node), Emission::Edge(plain_edge(owner, node, relation))];
        lemma_concat_contains(
            functions_emissions(owner, relation, path, functions.drop_last(), table),
            function_emissions(owner, relation, path, f, table),
            Emission::Edge(e),
        );
        lemma_concat_contains(head, call_emissions(node, f.calls, path, table), Emission::Edge(e));
        if functions_emissions(owner, relation, path, functions.drop_last(), table).contains(
            Emission::Edge(e),
        ) {
            lemma_functions_justified(owner, relation, path, functions.drop_last(), table, e);
        } else if head.contains(Emission::Edge(e)) {
            let i = choose|i: int| 0 <= i < head.len() && head[i] == Emission::Edge(e);
            assert(i == 1);
        } else {
            lemma_calls_justified(node, f.calls, table, e);
        }
    }
}

proof fn lemma_parents_justified(
    class: NodeKey,
    parents: Seq<InheritanceModel>,
    file: Seq<char>,
    table: &SymbolTable,
    e: EdgeModel,
)
    requires
        inheritance_emissions(class, parents, file, table).contains(Emission::Edge(e)),
    ensures
        e.edge_type == EdgeType::Inherits,
    decreases parents.len(),
{
    if parents.len() > 0 {
        let rest = inheritance_emissions(class, parents.drop_last(), file, table);
        let target = parent_target(table, parents.last().name, file);
        let mid = rest.push(Emission::Node(target));
        let last = Emission::Edge(inherits_edge(class, target, parents.last().kind));
        lemma_push_contains(rest, Emission::Node(target), Emission::Edge(e));
        lemma_push_contains(mid, last, Emission::Edge(e));
        if rest.contains(Emission::Edge(e)) {
            lemma_parents_justified(class, parents.drop_last(), file, table, e);
        }
    }
}

proof fn lemma_imports_justified(path: Seq<char>, imports: Seq<Seq<char>>, e: EdgeModel)
    requires
        import_emissions(path, imports).contains(Emission::Edge(e)),
    ensures
        e.edge_type == EdgeType::Imports,
    decreases imports.len(),
{
    if imports.len() > 0 {
        let rest = import_emissions(path, imports.drop_last());
        let module = NodeKey::Module(imports.last());
        let mid = rest.push(Emission::Node(module));
        let last = Emission::Edge(plain_edge(NodeKey::File(path), module, EdgeType::Imports));
        lemma_push_contains(rest, Emission::Node(module), Emission::Edge(e));
        lemma_push_contains(mid, last, Emission::Edge(e));
        if rest.contains(Emission::Edge(e)) {
            lemma_imports_justified(path, imports.drop_last(), e);
        }
    }
}

proof fn lemma_classes_justified(
    path: Seq<char>,
    classes: Seq<ClassModel>,
    table: &SymbolTable,
    e: EdgeModel,
)
    requires
        classes_emissions(path, classes, table).contains(Emission::Edge(e)),
    ensures
        call_justified(e, table),
    decreases classes.len(),
{
    if classes.len() > 0 {
        let c = classes.last();
        let node = NodeKey::Class(path, c.name);
        lemma_concat_contains(
            classes_emissions(path, classes.drop_last(), table),
            class_emissions(path, c, table),
            Emission::Edge(e),
        );
        if classes_emissions(path, classes.drop_last(), table).contains(Emission::Edge(e)) {
            lemma_classes_justified(path, classes.drop_last(), table, e);
        } else {
            lemma_in_class(path, c, table, Emission::Edge(e));
            if inheritance_emissions(node, c.inheritances, path, table).contains(
                Emission::Edge(e),
            ) {
                lemma_parents_justified(node, c.inheritances, path, table, e);
            } else if functions_emissions(node, EdgeType::Contains, path, c.methods, table).contains(
                Emission::Edge(e),
            ) {
                lemma_functions_justified(node, EdgeType::Contains, path, c.methods, table, e);
            }
        }
    }
}

proof fn lemma_graph_justified(files: Seq<ParsedFileModel>, table: &SymbolTable, e: EdgeModel)
    requires
        graph_emissions(files, table).contains(Emission::Edge(e)),
    ensures
        call_justified(e, table),
    decreases files.len(),
{
    if files.len() > 0 {
        let f = files.last();
        lemma_concat_contains(
            graph_emissions(files.drop_last(), table),
            file_emissions(f, table),
            Emission::Edge(e),
        );
        if graph_emissions(files.drop_last(), table).contains(Emission::Edge(e)) {
            lemma_graph_justified(files.drop_last(), table, e);
        } else {
            lemma_in_file(f, table, Emission::Edge(e));
            if functions_emissions(
                NodeKey::File(f.path),
                EdgeType::Defines,
                f.path,
                f.functions,
                table,
            ).contains(Emission::Edge(e)) {
                lemma_functions_justified(
                    NodeKey::File(f.path),
                    EdgeType::Defines,
                    f.path,
                    f.functions,
                    table,
                    e,
                );
            } else if classes_emissions(f.path, f.classes, table).contains(Emission::Edge(e)) {
                lemma_classes_justified(f.path, f.classes, table, e);
            } else {
                lemma_imports_justified(f.path, f.imports, e);
            }
        }
    }
}

/// No call edge without resolution: every `Calls` edge of the graph runs
/// from a function to a function whose name resolves, from the caller's
/// file, to a site in the callee's file. A call name that does not resolve
/// has no edge.
pub proof fn law_calls_resolve(files: Seq<ParsedFileModel>, table: &SymbolTable, e: EdgeModel)
    requires
        graph_of(files, table).edges.contains(e),
    ensures
        call_justified(e, table),
{
    lemma_emit_edges(empty_graph(), graph_emissions(files, table), e);
    lemma_graph_justified(files, table, e);
}

/// The node set holds no node twice.
pub proof fn law_nodes_unique(files: Seq<ParsedFileModel>, table: &SymbolTable)
    ensures
        graph_of(files, table).nodes.no_duplicates(),
{
    lemma_emit_no_duplicates(empty_graph(), graph_emissions(files, table));
}

/// Every file is a node, and so is each of its top-level functions, which
/// the file defines.
pub proof fn law_file_structure(files: Seq<ParsedFileModel>, table: &SymbolTable, i: int, j: int)
    requires
        0 <= i < files.len(),
        0 <= j < files[i].functions.len(),
    ensures
        ({
            let path = files[i].path;
            let function = NodeKey::Function(path, files[i].functions[j].name);
            let g = graph_of(files, table);
            &&& g.nodes.contains(NodeKey::File(path))
            &&& g.nodes.contains(function)
            &&& g.edges.contains(plain_edge(NodeKey::File(path), function, EdgeType::Defines))
        }),
{
    let f = files[i];
    let path = f.path;
    let owner = NodeKey::File(path);
    let function = NodeKey::Function(path, f.functions[j].name);
    let node = Emission::Node(function);
    let edge = Emission::Edge(plain_edge(owner, function, EdgeType::Defines));
    let head = seq![node, edge];
    assert(head[0] == node && head[1] == edge);
    lemma_concat_contains(head, call_emissions(function, f.functions[j].calls, path, table), node);
    lemma_concat_contains(head, call_emissions(function, f.functions[j].calls, path, table), edge);
    lemma_function_in_list(owner, EdgeType::Defines, path, f.functions, table, j, node);
    lemma_function_in_list(owner, EdgeType::Defines, path, f.functions, table, j, edge);
    lemma_in_file(f, table, node);
    lemma_in_file(f, table, edge);
    lemma_in_file(f, table, Emission::Node(owner));
    lemma_file_in_graph(files, table, i, node);
    lemma_file_in_graph(files, table, i, edge);
    lemma_file_in_graph(files, table, i, Emission::Node(owner));
    let stream = graph_emissions(files, table);
    lemma_emit_nodes(empty_graph(), stream, owner);
    lemma_emit_nodes(empty_graph(), stream, function);
    lemma_emit_edges(empty_graph(), stream, plain_edge(owner, function, EdgeType::Defines));
}


proof fn lemma_calls_anchored(
    caller: NodeKey,
    calls: Seq<Seq<char>>,
    file: Seq<char>,
    table: &SymbolTable,
    e: EdgeModel,
)
    requires
        call_emissions(caller, calls, file, table).contains(Emission::Edge(e)),
    ensures
        e.from == caller,
        call_emissions(caller, calls, file, table).contains(Emission::Node(e.to)),
    decreases calls.len(),
{
    if calls.len() > 0 {
        let rest = call_emissions(caller, calls.drop_last(), file, table);
        match call_target(table, calls.last(), file) {
            Some(callee) => {
                let mid = rest.push(Emission::Node(callee));
                let last = Emission::Edge(plain_edge(caller, callee, EdgeType::Calls));
                lemma_push_contains(rest, Emission::Node(callee), Emission::Edge(e));
                lemma_push_contains(mid, last, Emission::Edge(e));
                lemma_push_contains(rest, Emission::Node(callee), Emission::Node(e.to));
                lemma_push_contains(mid, last, Emission::Node(e.to));
                if rest.contains(Emission::Edge(e)) {
                    lemma_calls_anchored(caller, calls.drop_last(), file, table, e);
                }
            },
            None => {
                lemma_calls_anchored(caller, calls.drop_last(), file, table, e);
            },
        }
    } else {
        let stream = call_emissions(caller, calls, file, table);
        let i = choose|i: int| 0 <= i < stream.len() && stream[i] == Emission::Edge(e);
    }
}

proof fn lemma_functions_anchored(
    owner: NodeKey,
    relation: EdgeType,
    path: Seq<char>,
    functions: Seq<FunctionModel>,
    table: &SymbolTable,
    e: EdgeModel,
)
    requires
        functions_emissions(owner, relation, path, functions, table).contains(Emission::Edge(e)),
    ensures
        e.from == owner || functions_emissions(owner, relation, path, functions, table).contains(
            Emission::Node(e.from),
        ),
        functions_emissions(owner, relation, path, functions, table).contains(Emission::Node(e.to)),
    decreases functions.len(),
{
    if functions.len() > 0 {
        let f = functions.last();
        let node = NodeKey::Function(path, f.name);
        let head = seq![Emission::Node(node), Emission::Edge(plain_edge(owner, node, relation))];
        let calls = call_emissions(node, f.calls, path, table);
        let earlier = functions_emissions(owner, relation, path, functions.drop_last(), table);
        let own = function_emissions(owner, relation, path, f, table);
        lemma_concat_contains(earlier, own, Emission::Edge(e));
        lemma_concat_contains(earlier, own, Emission::Node(e.from));
        lemma_concat_contains(earlier, own, Emission::Node(e.to));
        lemma_concat_contains(head, calls, Emission::Edge(e));
        lemma_concat_contains(head, calls, Emission::Node(e.from));
        lemma_concat_contains(head, calls, Emission::Node(e.to));
        assert(head[0] == Emission::Node(node));
        if earlier.contains(Emission::Edge(e)) {
            lemma_functions_anchored(owner, relation, path, functions.drop_last(), table, e);
        } else if head.contains(Emission::Edge(e)) {
            let i = choose|i: int| 0 <= i < head.len() && head[i] == Emission::Edge(e);
            assert(i == 1);
        } else {
            lemma_calls_anchored(node, f.calls, path, table, e);
        }
    } else {
        let stream = functions_emissions(owner, relation, path, functions, table);
        let i = choose|i: int| 0 <= i < stream.len() && stream[i] == Emission::Edge(e);
    }
}

proof fn lemma_parents_anchored(
    class: NodeKey,
    parents: Seq<InheritanceModel>,
    file: Seq<char>,
    table: &SymbolTable,
    e: EdgeModel,
)
    requires
        inheritance_emissions(class, parents, file, table).contains(Emission::Edge(e)),
    ensures
        e.from == class,
        inheritance_emissions(class, parents, file, table).contains(Emission::Node(e.to)),
    decreases parents.len(),
{
    if parents.len() > 0 {
        let rest = inheritance_emissions(class, parents.drop_last(), file, table);
        let target = parent_target(table, parents.last().name, file);
        let mid = rest.push(Emission::Node(target));
        let last = Emission::Edge(inherits_edge(class, target, parents.last().kind));
        lemma_push_contains(rest, Emission::Node(target), Emission::Edge(e));
        lemma_push_contains(mid, last, Emission::Edge(e));
        lemma_push_contains(rest, Emission::Node(target), Emission::Node(e.to));
        lemma_push_contains(mid, last, Emission::Node(e.to));
        if rest.contains(Emission::Edge(e)) {
            lemma_parents_anchored(class, parents.drop_last(), file, table, e);
        }
    } else {
        let stream = inheritance_emissions(class, parents, file, table);
        let i = choose|i: int| 0 <= i < stream.len() && stream[i] == Emission::Edge(e);
    }
}

proof fn lemma_imports_anchored(path: Seq<char>, imports: Seq<Seq<char>>, e: EdgeModel)
    requires
        import_emissions(path, imports).contains(Emission::Edge(e)),
    ensures
        e.from == NodeKey::File(path),
        import_emissions(path, imports).contains(Emission::Node(e.to)),
    decreases imports.len(),
{
    if imports.len() > 0 {
        let rest = import_emissions(path, imports.drop_last());
        let module = NodeKey::Module(imports.last());
        let mid = rest.push(Emission::Node(module));
        let last = Emission::Edge(plain_edge(NodeKey::File(path), module, EdgeType::Imports));
        lemma_push_contains(rest, Emission::Node(module), Emission::Edge(e));
        lemma_push_contains(mid, last, Emission::Edge(e));
        lemma_push_contains(rest, Emission::Node(module), Emission::Node(e.to));
        lemma_push_contains(mid, last, Emission::Node(e.to));
        if rest.contains(Emission::Edge(e)) {
            lemma_imports_anchored(path, imports.drop_last(), e);
        }
    } else {
        let stream = import_emissions(path, imports);
        let i = choose|i: int| 0 <= i < stream.len() && stream[i] == Emission::Edge(e);
    }
}

proof fn lemma_classes_anchored(
    path: Seq<char>,
    classes: Seq<ClassModel>,
    table: &SymbolTable,
    e: EdgeModel,
)
    requires
        classes_emissions(path, classes, table).contains(Emission::Edge(e)),
    ensures
        e.from == NodeKey::File(path) || classes_emissions(path, classes, table).contains(
            Emission::Node(e.from),
        ),
        classes_emissions(path, classes, table).contains(Emission::Node(e.to)),
    decreases classes.len(),
{
    if classes.len() > 0 {
        let c = classes.last();
        let node = NodeKey::Class(path, c.name);
        let earlier = classes_emissions(path, classes.drop_last(), table);
        let own = class_emissions(path, c, table);
        lemma_concat_contains(earlier, own, Emission::Edge(e));
        lemma_concat_contains(earlier, own, Emission::Node(e.from));
        lemma_concat_contains(earlier, own, Emission::Node(e.to));
        if earlier.contains(Emission::Edge(e)) {
            lemma_classes_anchored(path, classes.drop_last(), table, e);
        } else {
            lemma_in_class(path, c, table, Emission::Edge(e));
            lemma_in_class(path, c, table, Emission::Node(e.from));
            lemma_in_class(path, c, table, Emission::Node(e.to));
            lemma_in_class(path, c, table, Emission::Node(node));
            if inheritance_emissions(node, c.inheritances, path, table).contains(
                Emission::Edge(e),
            ) {
                lemma_parents_anchored(node, c.inheritances, path, table, e);
            } else if functions_emissions(node, EdgeType::Contains, path, c.methods, table).contains(
                Emission::Edge(e),
            ) {
                lemma_functions_anchored(node, EdgeType::Contains, path, c.methods, table, e);
            }
        }
    } else {
        let stream = classes_emissions(path, classes, table);
        let i = choose|i: int| 0 <= i < stream.len() && stream[i] == Emission::Edge(e);
    }
}

proof fn lemma_graph_anchored(files: Seq<ParsedFileModel>, table: &SymbolTable, e: EdgeModel)
    requires
        graph_emissions(files, table).contains(Emission::Edge(e)),
    ensures
        graph_emissions(files, table).contains(Emission::Node(e.from)),
        graph_emissions(files, table).contains(Emission::Node(e.to)),
    decreases files.len(),
{
    if files.len() > 0 {
        let f = files.last();
        let owner = NodeKey::File(f.path);
        let earlier = graph_emissions(files.drop_last(), table);
        let own = file_emissions(f, table);
        lemma_concat_contains(earlier, own, Emission::Edge(e));
        lemma_concat_contains(earlier, own, Emission::Node(e.from));
        lemma_concat_contains(earlier, own, Emission::Node(e.to));
        if earlier.contains(Emission::Edge(e)) {
            lemma_graph_anchored(files.drop_last(), table, e);
        } else {
            lemma_in_file(f, table, Emission::Edge(e));
            lemma_in_file(f, table, Emission::Node(e.from));
            lemma_in_file(f, table, Emission::Node(e.to));
            lemma_in_file(f, table, Emission::Node(owner));
            if functions_emissions(owner, EdgeType::Defines, f.path, f.functions, table).contains(
                Emission::Edge(e),
            ) {
                lemma_functions_anchored(owner, EdgeType::Defines, f.path, f.functions, table, e);
            } else if classes_emissions(f.path, f.classes, table).contains(Emission::Edge(e)) {
                lemma_classes_anchored(f.path, f.classes, table, e);
            } else {
                lemma_imports_anchored(f.path, f.imports, e);
            }
        }
    } else {
        let stream = graph_emissions(files, table);
        let i = choose|i: int| 0 <= i < stream.len() && stream[i] == Emission::Edge(e);
    }
}

/// Edges join nodes: both ends of every edge of the graph are nodes of the
/// graph.
pub proof fn law_edges_join_nodes(files: Seq<ParsedFileModel>, table: &SymbolTable, e: EdgeModel)
    requires
        graph_of(files, table).edges.contains(e),
    ensures
        graph_of(files, table).nodes.contains(e.from),
        graph_of(files, table).nodes.contains(e.to),
{
    let stream = graph_emissions(files, table);
    lemma_emit_edges(empty_graph(), stream, e);
    assert(!empty_graph().edges.contains(e)) by {
        if empty_graph().edges.contains(e) {
            let i = choose|i: int| 0 <= i < empty_graph().edges.len() && empty_graph().edges[i] == e;
        }
    }
    lemma_graph_anchored(files, table, e);
    lemma_emit_nodes(empty_graph(), stream, e.from);
    lemma_emit_nodes(empty_graph(), stream, e.to);
}

/// Ids are qualified by the file: the persistent id of a class or function
/// node is the path of its file, `::`, and its name; that of a file is its
/// path and that of a module its name.
pub proof fn law_qualified_ids(node: NodeKey)
    ensures
        crate::storage_edges::node_qualified_id(node) == match node {
            NodeKey::File(path) => path,
            NodeKey::Class(file, name) => file + "::"@ + name,
            NodeKey::Function(file, name) => file + "::"@ + name,
            NodeKey::Module(name) => name,
        },
{
}

} // verus!
