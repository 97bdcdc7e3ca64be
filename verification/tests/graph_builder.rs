use ingestion_worker::graph_builder::{DependencyGraph, EdgeType, NodeId, SymbolTable};
use ingestion_worker::parsers::{ClassInfo, FunctionInfo, InheritanceInfo, ParsedFile};

fn make_func(name: &str, calls: Vec<&str>) -> FunctionInfo {
    FunctionInfo {
        name: name.to_string(),
        params: vec![],
        return_type: None,
        calls: calls.into_iter().map(String::from).collect(),
        start_line: 1,
        end_line: 10,
    }
}

fn make_class(name: &str, parents: Vec<&str>, methods: Vec<FunctionInfo>) -> ClassInfo {
    ClassInfo {
        name: name.to_string(),
        inheritances: parents
            .into_iter()
            .map(|p| InheritanceInfo { name: p.to_string(), kind: "class".to_string() })
            .collect(),
        methods,
        start_line: 1,
        end_line: 50,
    }
}

fn make_file(path: &str, language: &str, functions: Vec<FunctionInfo>, classes: Vec<ClassInfo>) -> ParsedFile {
    ParsedFile {
        path: path.to_string(),
        language: language.to_string(),
        functions,
        classes,
        imports: vec![],
        data_tables: vec![],
        service_calls: vec![],
    }
}

#[test]
fn test_symbol_table_construction() {
    let files = vec![
        ParsedFile {
            path: "file_a.rs".to_string(),
            language: "rust".to_string(),
            functions: vec![make_func("foo", vec!["bar"])],
            classes: vec![],
            imports: vec![],
            data_tables: vec![],
            service_calls: vec![],
        },
        ParsedFile {
            path: "file_b.rs".to_string(),
            language: "rust".to_string(),
            functions: vec![make_func("bar", vec![])],
            classes: vec![],
            imports: vec![],
            data_tables: vec![],
            service_calls: vec![],
        },
    ];

    let table = SymbolTable::from_parsed_files(&files);

    assert!(table.functions.contains_key("foo"));
    assert!(table.functions.contains_key("bar"));
    assert_eq!(table.functions.get("foo").unwrap().len(), 1);
}

#[test]
fn test_cross_file_call_resolution() {
    let files = vec![
        ParsedFile {
            path: "caller.rs".to_string(),
            language: "rust".to_string(),
            functions: vec![make_func("main", vec!["helper"])],
            classes: vec![],
            imports: vec![],
            data_tables: vec![],
            service_calls: vec![],
        },
        ParsedFile {
            path: "callee.rs".to_string(),
            language: "rust".to_string(),
            functions: vec![make_func("helper", vec![])],
            classes: vec![],
            imports: vec![],
            data_tables: vec![],
            service_calls: vec![],
        },
    ];

    let table = SymbolTable::from_parsed_files(&files);
    let graph = DependencyGraph::from_parsed_files(&files, &table);

    let calls = graph.edges_of_type(EdgeType::Calls);
    assert_eq!(calls.len(), 1);
    assert!(matches!(&calls[0].from, NodeId::Function(f, n) if f == "caller.rs" && n == "main"));
    assert!(matches!(&calls[0].to, NodeId::Function(f, n) if f == "callee.rs" && n == "helper"));
}

#[test]
fn test_inheritance_edges() {
    let files = vec![ParsedFile {
        path: "models.py".to_string(),
        language: "python".to_string(),
        functions: vec![],
        classes: vec![
            make_class("Animal", vec![], vec![]),
            make_class("Dog", vec!["Animal"], vec![make_func("bark", vec![])]),
        ],
        imports: vec![],
        data_tables: vec![],
        service_calls: vec![],
    }];

    let table = SymbolTable::from_parsed_files(&files);
    let graph = DependencyGraph::from_parsed_files(&files, &table);

    let inherits = graph.edges_of_type(EdgeType::Inherits);
    assert_eq!(inherits.len(), 1);
    assert!(matches!(&inherits[0].from, NodeId::Class(_, n) if n == "Dog"));
    assert!(matches!(&inherits[0].to, NodeId::Class(_, n) if n == "Animal"));
}

#[test]
fn inheritance_edge_carries_kind_and_method_is_contained() {
    let files = vec![make_file(
        "models.py",
        "python",
        vec![],
        vec![
            make_class("Animal", vec![], vec![]),
            make_class("Dog", vec!["Animal"], vec![make_func("bark", vec![])]),
        ],
    )];
    let table = SymbolTable::from_parsed_files(&files);
    let graph = DependencyGraph::from_parsed_files(&files, &table);

    let inherits = graph.edges_of_type(EdgeType::Inherits);
    assert_eq!(inherits[0].properties.len(), 1);
    assert_eq!(inherits[0].properties[0].key, "kind");
    assert_eq!(inherits[0].properties[0].value, "class");

    let contains = graph.edges_of_type(EdgeType::Contains);
    assert_eq!(contains.len(), 1);
    assert_eq!(contains[0].from, NodeId::Class("models.py".to_string(), "Dog".to_string()));
    assert_eq!(contains[0].to, NodeId::Function("models.py".to_string(), "bark".to_string()));
    assert!(graph.nodes.contains(&NodeId::Function("models.py".to_string(), "bark".to_string())));

    let defines = graph.edges_of_type(EdgeType::Defines);
    assert_eq!(defines.len(), 2);
    assert_eq!(defines[1].from, NodeId::File("models.py".to_string()));
    assert_eq!(defines[1].to, NodeId::Class("models.py".to_string(), "Dog".to_string()));
}

#[test]
fn unresolved_parent_becomes_module() {
    let files = vec![make_file("a.ts", "typescript", vec![], vec![make_class("User", vec!["Person"], vec![])])];
    let table = SymbolTable::from_parsed_files(&files);
    let graph = DependencyGraph::from_parsed_files(&files, &table);
    let inherits = graph.edges_of_type(EdgeType::Inherits);
    assert_eq!(inherits.len(), 1);
    assert_eq!(inherits[0].to, NodeId::Module("Person".to_string()));
    assert!(graph.nodes.contains(&NodeId::Module("Person".to_string())));
}

#[test]
fn unresolved_call_has_no_edge() {
    let files = vec![make_file("a.ts", "typescript", vec![make_func("process", vec!["validate"])], vec![])];
    let table = SymbolTable::from_parsed_files(&files);
    let graph = DependencyGraph::from_parsed_files(&files, &table);
    assert_eq!(graph.edges_of_type(EdgeType::Calls).len(), 0);
    assert_eq!(graph.stats().calls_edges, 0);
}

#[test]
fn resolution_prefers_the_current_file() {
    let files = vec![
        make_file("first.rs", "rust", vec![make_func("helper", vec![])], vec![]),
        make_file("second.rs", "rust", vec![make_func("helper", vec![]), make_func("run", vec!["helper"])], vec![]),
        make_file("third.rs", "rust", vec![make_func("go", vec!["helper"])], vec![]),
    ];
    let table = SymbolTable::from_parsed_files(&files);
    assert_eq!(table.resolve_function("helper", "second.rs").unwrap().file_path, "second.rs");
    assert_eq!(table.resolve_function("helper", "third.rs").unwrap().file_path, "first.rs");
    assert!(table.resolve_function("absent", "third.rs").is_none());
    assert!(table.resolve_class("helper", "third.rs").is_none());

    let graph = DependencyGraph::from_parsed_files(&files, &table);
    let calls = graph.edges_of_type(EdgeType::Calls);
    assert_eq!(calls.len(), 2);
    assert_eq!(calls[0].to, NodeId::Function("second.rs".to_string(), "helper".to_string()));
    assert_eq!(calls[1].to, NodeId::Function("first.rs".to_string(), "helper".to_string()));
}

#[test]
fn methods_are_indexed_qualified_and_bare() {
    let files = vec![make_file(
        "srv.go",
        "go",
        vec![make_func("main", vec!["Start"])],
        vec![make_class("Server", vec![], vec![make_func("Start", vec![])])],
    )];
    let table = SymbolTable::from_parsed_files(&files);
    assert!(table.functions.contains_key("Server.Start"));
    assert!(table.functions.contains_key("Start"));
    assert!(table.classes.contains_key("Server"));
    assert_eq!(
        table.file_exports.get("srv.go").unwrap(),
        &vec!["main".to_string(), "Server".to_string()]
    );
    let graph = DependencyGraph::from_parsed_files(&files, &table);
    let calls = graph.edges_of_type(EdgeType::Calls);
    assert_eq!(calls.len(), 1);
    assert_eq!(calls[0].from, NodeId::Function("srv.go".to_string(), "main".to_string()));
    assert_eq!(calls[0].to, NodeId::Function("srv.go".to_string(), "Start".to_string()));
}

#[test]
fn stats_count_nodes_once_and_edges_each_time() {
    let mut file = make_file("a.py", "python", vec![make_func("f", vec!["f", "f"])], vec![]);
    file.imports = vec!["os".to_string(), "os".to_string()];
    let files = vec![file];
    let table = SymbolTable::from_parsed_files(&files);
    let graph = DependencyGraph::from_parsed_files(&files, &table);
    let stats = graph.stats();
    assert_eq!(stats.files, 1);
    assert_eq!(stats.functions, 1);
    assert_eq!(stats.classes, 0);
    assert_eq!(stats.modules, 1);
    assert_eq!(stats.defines_edges, 1);
    assert_eq!(stats.calls_edges, 2);
    assert_eq!(stats.imports_edges, 2);
    assert_eq!(stats.inherits_edges, 0);
    assert_eq!(stats.contains_edges, 0);
    assert_eq!(graph.nodes.len(), 3);
}

#[test]
fn node_accessors() {
    let file = NodeId::File("src/a.rs".to_string());
    let class = NodeId::Class("src/a.rs".to_string(), "A".to_string());
    let function = NodeId::Function("src/a.rs".to_string(), "f".to_string());
    let module = NodeId::Module("serde".to_string());
    assert_eq!(file.file_path(), Some("src/a.rs"));
    assert_eq!(class.file_path(), Some("src/a.rs"));
    assert_eq!(function.file_path(), Some("src/a.rs"));
    assert_eq!(module.file_path(), None);
    assert_eq!(file.name(), "src/a.rs");
    assert_eq!(class.name(), "A");
    assert_eq!(function.name(), "f");
    assert_eq!(module.name(), "serde");
    assert_eq!(file.node_type(), "File");
    assert_eq!(class.node_type(), "Class");
    assert_eq!(function.node_type(), "Function");
    assert_eq!(module.node_type(), "Module");
    assert_eq!(EdgeType::Defines.as_str(), "DEFINES");
    assert_eq!(EdgeType::Calls.as_str(), "CALLS");
    assert_eq!(EdgeType::Imports.as_str(), "IMPORTS");
    assert_eq!(EdgeType::Inherits.as_str(), "INHERITS");
    assert_eq!(EdgeType::Contains.as_str(), "CONTAINS");
}

#[test]
fn both_ends_of_every_edge_are_nodes_and_no_node_is_held_twice() {
    let mut a = make_file(
        "a.py",
        "python",
        vec![make_func("f", vec!["g", "missing", "m"])],
        vec![make_class("A", vec!["B", "Elsewhere"], vec![make_func("m", vec!["f"])])],
    );
    a.imports = vec!["os".to_string(), "b".to_string()];
    let b = make_file("b.py", "python", vec![make_func("g", vec![])], vec![make_class("B", vec![], vec![])]);
    let files = vec![a, b];
    let table = SymbolTable::from_parsed_files(&files);
    let graph = DependencyGraph::from_parsed_files(&files, &table);
    for edge in &graph.edges {
        assert!(graph.nodes.contains(&edge.from), "{:?}", edge);
        assert!(graph.nodes.contains(&edge.to), "{:?}", edge);
    }
    for (i, node) in graph.nodes.iter().enumerate() {
        assert!(!graph.nodes[..i].contains(node), "{:?}", node);
    }
    for edge in graph.edges_of_type(EdgeType::Calls) {
        let callee = edge.to.name();
        let from_file = edge.from.file_path().unwrap();
        let site = table.resolve_function(callee, from_file).unwrap();
        assert_eq!(edge.to.file_path(), Some(site.file_path.as_str()));
    }
    let calls: Vec<(&str, &str)> =
        graph.edges_of_type(EdgeType::Calls).iter().map(|e| (e.from.name(), e.to.name())).collect();
    assert_eq!(calls, vec![("f", "g"), ("f", "m"), ("m", "f")]);
    let stats = graph.stats();
    assert_eq!(stats.files, 2);
    assert_eq!(stats.functions, 3);
    assert_eq!(stats.classes, 2);
    assert_eq!(stats.modules, 3);
    assert_eq!(stats.inherits_edges, 2);
    assert_eq!(stats.defines_edges, 4);
    assert_eq!(stats.contains_edges, 1);
    assert_eq!(stats.imports_edges, 2);
}

#[test]
fn a_later_file_of_the_same_path_replaces_the_exports() {
    let files = vec![
        make_file("a.rs", "rust", vec![make_func("old", vec![])], vec![]),
        make_file("b.rs", "rust", vec![], vec![make_class("B", vec![], vec![])]),
        make_file("a.rs", "rust", vec![make_func("new", vec![])], vec![make_class("N", vec![], vec![])]),
    ];
    let table = SymbolTable::from_parsed_files(&files);
    assert_eq!(table.file_exports.len(), 2);
    assert_eq!(table.file_exports.get("a.rs").unwrap(), &vec!["new".to_string(), "N".to_string()]);
    assert_eq!(table.file_exports.get("b.rs").unwrap(), &vec!["B".to_string()]);
    assert_eq!(table.files.get("a.rs").unwrap().functions, vec!["new".to_string()]);
    assert!(table.functions.contains_key("old"));
    assert_eq!(table.functions.get("old").unwrap()[0].start_line, 1);
    assert_eq!(table.functions.get("old").unwrap()[0].end_line, 10);
    assert!(SymbolTable::from_parsed_files(&[]).functions.len() == 0);
}
