use ingestion_worker::boundary_detector::{BoundaryDetector, WorkspaceManifests};
use ingestion_worker::communication_detector::{CommunicationAnalysis, CommunicationDetector, SourceText};
use ingestion_worker::dependency_metadata::LibraryDependency;
use ingestion_worker::git_analyzer::{CommitData, GitAnalyzer, LineChange};
use ingestion_worker::graph_builder::{DependencyGraph, SymbolTable};
use ingestion_worker::name_map::NameMap;
use ingestion_worker::neo4j_storage::{
    batch, delete_file_nodes, store_graph, store_graph_incremental, BatchConfig, Parameter, Row,
    Statement, Value, DEFAULT_BATCH_SIZE,
};
use ingestion_worker::parsers::{ClassInfo, FunctionInfo, InheritanceInfo, ParsedFile, ServiceCall};
use ingestion_worker::storage_edges::{
    batch_insert_endpoint_service_edges, batch_insert_file_dependencies, batch_insert_inherits_edges,
    batch_insert_library_edges, normalize_import_to_library,
};
use ingestion_worker::storage_nodes::{
    batch_insert_file_nodes, batch_insert_service_nodes, batch_insert_table_nodes, create_job_node,
};

fn func(name: &str, calls: &[&str]) -> FunctionInfo {
    FunctionInfo {
        name: name.to_string(),
        params: vec![],
        return_type: None,
        calls: calls.iter().map(|c| c.to_string()).collect(),
        start_line: 1,
        end_line: 2,
    }
}

fn file(path: &str, imports: &[&str]) -> ParsedFile {
    ParsedFile {
        path: path.to_string(),
        language: "typescript".to_string(),
        functions: vec![],
        classes: vec![],
        imports: imports.iter().map(|c| c.to_string()).collect(),
        data_tables: vec![],
        service_calls: vec![],
    }
}

fn rows_of(statement: &Statement) -> &Vec<Row> {
    match &statement.params.entries[0].value {
        Parameter::Rows(rows) => rows,
        _ => panic!("no rows"),
    }
}

fn text(row: &Row, key: &str) -> String {
    match row.get(key) {
        Some(Value::Text(t)) => t.clone(),
        other => panic!("no text under {}: {:?}", key, other),
    }
}

fn empty_analysis() -> CommunicationAnalysis {
    CommunicationDetector::detect(&[], &[], None).unwrap()
}

fn no_boundaries(files: &[ParsedFile]) -> ingestion_worker::boundary_detector::BoundaryDetectionResult {
    let _ = files;
    BoundaryDetector::detect_boundaries(
        &[],
        &WorkspaceManifests { package_json: None, cargo_toml: None, go_work: false },
    )
}

#[test]
fn import_to_library_mapping() {
    assert_eq!(normalize_import_to_library("./a/b"), None);
    assert_eq!(normalize_import_to_library("/a/b"), None);
    assert_eq!(normalize_import_to_library("../x"), None);
    assert_eq!(normalize_import_to_library("@scope/pkg/sub"), Some("@scope/pkg".to_string()));
    assert_eq!(normalize_import_to_library("lodash/fp"), Some("lodash".to_string()));
    assert_eq!(normalize_import_to_library("lodash"), Some("lodash".to_string()));
    assert_eq!(normalize_import_to_library("@scope"), Some("@scope".to_string()));
    assert_eq!(normalize_import_to_library("  \"fmt\"  "), Some("fmt".to_string()));
    assert_eq!(normalize_import_to_library("`net/http`"), Some("net".to_string()));
    assert_eq!(normalize_import_to_library(""), Some("".to_string()));
}

#[test]
fn batches_carry_at_most_the_batch_size() {
    let rows: Vec<Row> = (0..5)
        .map(|i| NameMap {
            entries: vec![ingestion_worker::neo4j_storage::int_value("n", i)],
        })
        .collect();
    let plan = batch("Q", "C", "nodes", rows, 2);
    assert_eq!(plan.len(), 3);
    assert_eq!(rows_of(&plan[0]).len(), 2);
    assert_eq!(rows_of(&plan[1]).len(), 2);
    assert_eq!(rows_of(&plan[2]).len(), 1);
    assert_eq!(plan[0].query, "Q");
    assert_eq!(plan[0].context, "C");
    assert_eq!(plan[0].params.entries[0].name, "nodes");
    let numbers: Vec<i64> = plan
        .iter()
        .flat_map(|s| rows_of(s).iter())
        .map(|r| match r.get("n") {
            Some(Value::Int(n)) => *n,
            _ => panic!(),
        })
        .collect();
    assert_eq!(numbers, vec![0, 1, 2, 3, 4]);

    let exact: Vec<Row> = (0..4)
        .map(|i| NameMap { entries: vec![ingestion_worker::neo4j_storage::int_value("n", i)] })
        .collect();
    assert_eq!(batch("Q", "C", "nodes", exact, 2).len(), 2);
    assert!(batch("Q", "C", "nodes", vec![], 2).is_empty());
    assert_eq!(BatchConfig::default().batch_size, 500);
    assert_eq!(DEFAULT_BATCH_SIZE, 500);
}

#[test]
fn job_statement() {
    let s = create_job_node("job-1", "repo-1");
    assert!(s.query.starts_with("MERGE (j:Job {id: $id, repo_id: $repo_id})"));
    assert!(s.query.contains("j.status = 'COMPLETED'"));
    assert_eq!(s.context, "Failed to create job node");
    match (&s.params.get("id"), &s.params.get("repo_id")) {
        (Some(Parameter::Text(a)), Some(Parameter::Text(b))) => {
            assert_eq!(a, "job-1");
            assert_eq!(b, "repo-1");
        }
        _ => panic!(),
    }
}

#[test]
fn file_nodes_carry_git_metrics_where_there_are_some() {
    let files = vec![file("a.rs", &[]), file("b.rs", &[])];
    let history = GitAnalyzer::new(vec![CommitData {
        sha: "c".to_string(),
        author_email: Some("ann@x".to_string()),
        author_name: Some("Ann".to_string()),
        message: None,
        time: 86400,
        changed_paths: vec!["a.rs".to_string()],
        line_changes: vec![
            LineChange { path: "a.rs".to_string(), origin: '+' },
            LineChange { path: "a.rs".to_string(), origin: '-' },
        ],
    }])
    .analyze_contributions();
    let plan = batch_insert_file_nodes("j", "r", &files, Some(&history), 500);
    assert_eq!(plan.len(), 1);
    let rows = rows_of(&plan[0]);
    assert_eq!(rows.len(), 2);
    assert_eq!(text(&rows[0], "id"), "a.rs");
    assert_eq!(text(&rows[0], "path"), "a.rs");
    assert_eq!(text(&rows[0], "language"), "typescript");
    assert_eq!(text(&rows[0], "job_id"), "j");
    assert_eq!(text(&rows[0], "repo_id"), "r");
    assert!(matches!(rows[0].get("commit_count"), Some(Value::Int(1))));
    assert_eq!(text(&rows[0], "last_commit_date"), "1970-01-02T00:00:00+00:00");
    assert_eq!(text(&rows[0], "primary_author"), "ann@x");
    assert!(matches!(rows[0].get("lines_changed_total"), Some(Value::Int(2))));
    match rows[0].get("contributors") {
        Some(Value::List(l)) => assert_eq!(l, &vec!["ann@x".to_string()]),
        _ => panic!(),
    }
    assert_eq!(rows[1].len(), 5);
    assert!(!rows[1].contains_key("commit_count"));

    let plain = batch_insert_file_nodes("j", "r", &files, None, 1);
    assert_eq!(plain.len(), 2);
    assert_eq!(rows_of(&plain[0])[0].len(), 5);
}

#[test]
fn tables_and_services_are_stored_once() {
    let mut a = file("a.py", &[]);
    a.data_tables = vec!["users".to_string(), "orders".to_string()];
    a.service_calls = vec![
        ServiceCall { target: "api".to_string(), protocol: "http".to_string() },
        ServiceCall { target: "api".to_string(), protocol: "grpc".to_string() },
    ];
    let mut b = file("b.py", &[]);
    b.data_tables = vec!["orders".to_string(), "items".to_string()];
    b.service_calls = vec![ServiceCall { target: "api".to_string(), protocol: "http".to_string() }];
    let files = vec![a, b];
    let tables = batch_insert_table_nodes("r", &files, 500);
    let names: Vec<String> = rows_of(&tables[0]).iter().map(|r| text(r, "name")).collect();
    assert_eq!(names, vec!["users", "orders", "items"]);
    let services = batch_insert_service_nodes("r", &files, 500);
    let pairs: Vec<(String, String)> =
        rows_of(&services[0]).iter().map(|r| (text(r, "name"), text(r, "protocol"))).collect();
    assert_eq!(
        pairs,
        vec![("api".to_string(), "http".to_string()), ("api".to_string(), "grpc".to_string())]
    );
}

#[test]
fn library_edges_need_the_library_in_the_catalog() {
    let files = vec![file("web/a.ts", &["bar", "./local", "@scope/pkg/deep", "unknown-lib", "bar/sub"])];
    let catalog = vec![
        LibraryDependency { name: "bar".to_string(), version: Some("^0.9.0".to_string()), source_file: "x".to_string() },
        LibraryDependency { name: "@scope/pkg".to_string(), version: None, source_file: "x".to_string() },
        LibraryDependency { name: "bar".to_string(), version: Some("^1.0.0".to_string()), source_file: "y".to_string() },
    ];
    let plan = batch_insert_library_edges("r", &files, &catalog, 500);
    assert_eq!(plan.len(), 1);
    assert!(plan[0].query.contains("MERGE (f)-[r:DEPENDS_ON]->(l)"));
    assert!(plan[0].query.contains("r.type = 'library'"));
    let rows: Vec<(String, String, String)> = rows_of(&plan[0])
        .iter()
        .map(|r| (text(r, "file_path"), text(r, "library_name"), text(r, "library_version")))
        .collect();
    assert_eq!(
        rows,
        vec![
            ("web/a.ts".to_string(), "bar".to_string(), "^1.0.0".to_string()),
            ("web/a.ts".to_string(), "@scope/pkg".to_string(), "".to_string()),
            ("web/a.ts".to_string(), "bar".to_string(), "^1.0.0".to_string()),
        ]
    );
}

#[test]
fn inherits_edges_carry_their_kind() {
    let files = vec![ParsedFile {
        path: "m.ts".to_string(),
        language: "typescript".to_string(),
        functions: vec![],
        classes: vec![
            ClassInfo { name: "Base".to_string(), inheritances: vec![], methods: vec![], start_line: 1, end_line: 2 },
            ClassInfo {
                name: "Impl".to_string(),
                inheritances: vec![
                    InheritanceInfo { name: "Base".to_string(), kind: "class".to_string() },
                    InheritanceInfo { name: "Runnable".to_string(), kind: "interface".to_string() },
                ],
                methods: vec![func("run", &[])],
                start_line: 3,
                end_line: 9,
            },
        ],
        imports: vec![],
        data_tables: vec![],
        service_calls: vec![],
    }];
    let table = SymbolTable::from_parsed_files(&files);
    let graph = DependencyGraph::from_parsed_files(&files, &table);
    let plan = batch_insert_inherits_edges("r", &graph, 500);
    assert_eq!(plan.len(), 2);
    assert_eq!(plan[0].context, "Failed to batch insert Class->Class INHERITS");
    let to_class = &rows_of(&plan[0])[0];
    assert_eq!(text(to_class, "from_id"), "m.ts::Impl");
    assert_eq!(text(to_class, "to_id"), "m.ts::Base");
    assert_eq!(text(to_class, "inheritance_type"), "class");
    assert_eq!(text(to_class, "repo_id"), "r");
    let to_module = &rows_of(&plan[1])[0];
    assert_eq!(text(to_module, "class_id"), "m.ts::Impl");
    assert_eq!(text(to_module, "module_name"), "Runnable");
    assert_eq!(text(to_module, "inheritance_type"), "interface");
}

#[test]
fn endpoints_are_exposed_by_services_named_in_their_host() {
    let sources = vec![SourceText {
        path: "web/a.ts".to_string(),
        content: "fetch(\"http://api/users\"); fetch(\"http://billing-api.local/x\"); fetch(\"http://other/y\");"
            .to_string(),
    }];
    let compose = "services:\n  api:\n    ports:\n      - \"8080:8080\"\n  billing:\n    image: b\n";
    let found = CommunicationDetector::detect(&sources, &[], Some(compose)).unwrap();
    let plan = batch_insert_endpoint_service_edges("r", &found, 500);
    let rows: Vec<(String, String)> =
        rows_of(&plan[0]).iter().map(|r| (text(r, "url"), text(r, "service_name"))).collect();
    assert_eq!(
        rows,
        vec![
            ("http://api/users".to_string(), "api".to_string()),
            ("http://billing-api.local/x".to_string(), "api".to_string()),
            ("http://billing-api.local/x".to_string(), "billing".to_string()),
        ]
    );
    assert_eq!(text(&rows_of(&plan[0])[0], "method"), "GET");
}

#[test]
fn file_dependencies_by_stem_and_directory() {
    let files = vec![
        file("src/app.ts", &["./utils/helper", "utils", "../models/user", "react", "./app"]),
        file("src/utils/helper.ts", &[]),
        file("src/utils/format.ts", &[]),
        file("src/models/user.ts", &["helper"]),
    ];
    let plan = batch_insert_file_dependencies("r", &files, 500);
    assert_eq!(plan.len(), 1);
    assert!(plan[0].query.contains("ON CREATE SET d.import_path = edge.import_path"));
    let rows: Vec<(String, String, String)> = rows_of(&plan[0])
        .iter()
        .map(|r| (text(r, "source_file"), text(r, "target_file"), text(r, "import_path")))
        .collect();
    assert_eq!(
        rows,
        vec![
            ("src/app.ts".to_string(), "src/utils/helper.ts".to_string(), "./utils/helper".to_string()),
            ("src/app.ts".to_string(), "src/utils/helper.ts".to_string(), "utils".to_string()),
            ("src/app.ts".to_string(), "src/utils/format.ts".to_string(), "utils".to_string()),
            ("src/app.ts".to_string(), "src/models/user.ts".to_string(), "../models/user".to_string()),
            ("src/models/user.ts".to_string(), "src/utils/helper.ts".to_string(), "helper".to_string()),
        ]
    );
}

#[test]
fn delete_statements() {
    assert!(delete_file_nodes("r", &[]).is_empty());
    let plan = delete_file_nodes("r", &["a.py".to_string(), "b.py".to_string()]);
    assert_eq!(plan.len(), 3);
    assert!(plan[0].query.contains("MATCH (f:File {path: path, repo_id: $repo_id})"));
    assert!(plan[1].query.contains("MATCH (c:Class {file: path, repo_id: $repo_id})"));
    assert!(plan[2].query.contains("MATCH (fn:Function {file: path, repo_id: $repo_id})"));
    for s in &plan {
        assert!(s.query.contains("DETACH DELETE"));
        match (s.params.get("paths"), s.params.get("repo_id")) {
            (Some(Parameter::Texts(paths)), Some(Parameter::Text(repo))) => {
                assert_eq!(paths, &vec!["a.py".to_string(), "b.py".to_string()]);
                assert_eq!(repo, "r");
            }
            _ => panic!(),
        }
    }
}

fn seven_files() -> Vec<ParsedFile> {
    let mut files: Vec<ParsedFile> =
        ["a.py", "b.py", "c.py", "d.py", "e.py", "f.py", "g.py"].iter().map(|p| file(p, &["os"])).collect();
    files[0].functions = vec![func("run", &["helper"])];
    files[2].functions = vec![func("helper", &[])];
    files
}

fn queries(plan: &[Statement]) -> Vec<String> {
    plan.iter().map(|s| s.query.lines().nth(1).unwrap_or(&s.query).trim().to_string()).collect()
}

#[test]
fn a_full_plan_stores_nodes_before_the_edges_that_need_them() {
    let files = seven_files();
    let table = SymbolTable::from_parsed_files(&files);
    let graph = DependencyGraph::from_parsed_files(&files, &table);
    let boundaries = no_boundaries(&files);
    let plan = store_graph("job", "repo", &files, &graph, None, &boundaries, &[], &empty_analysis(), None);
    assert!(plan[0].query.starts_with("MERGE (j:Job"));
    let order = queries(&plan[1..]);
    assert_eq!(
        order,
        vec![
            "MERGE (f:File {id: node.id, repo_id: node.repo_id})",
            "MERGE (fn:Function {id: node.id, repo_id: node.repo_id})",
            "MERGE (m:Module {name: node.name, repo_id: node.repo_id})",
            "MATCH (f:File {path: edge.file_path, repo_id: edge.repo_id})",
            "MATCH (from:Function {id: edge.from_id, repo_id: edge.repo_id})",
            "MATCH (f:File {path: edge.file_path, repo_id: edge.repo_id})",
        ]
    );
    assert_eq!(rows_of(&plan[1]).len(), 7);
    let calls = rows_of(&plan[5]);
    assert_eq!(calls.len(), 1);
    assert_eq!(text(&calls[0], "from_id"), "a.py::run");
    assert_eq!(text(&calls[0], "to_id"), "c.py::helper");
    assert_eq!(rows_of(&plan[6]).len(), 7);
}

#[test]
fn every_node_statement_precedes_every_edge_statement() {
    let mut files = seven_files();
    files[0].data_tables = vec!["users".to_string()];
    files[1].service_calls = vec![ServiceCall { target: "api".to_string(), protocol: "http".to_string() }];
    let table = SymbolTable::from_parsed_files(&files);
    let graph = DependencyGraph::from_parsed_files(&files, &table);
    let boundaries = BoundaryDetector::detect_boundaries(
        &files,
        &WorkspaceManifests { package_json: None, cargo_toml: None, go_work: true },
    );
    let sources = vec![SourceText {
        path: "a.py".to_string(),
        content: "requests.get(\"http://api/x\")\ngrpc.Dial(\"users:1\")\nproducer.send(c, \"events\")".to_string(),
    }];
    let found =
        CommunicationDetector::detect(&sources, &[], Some("services:\n  api:\n    image: x\n")).unwrap();
    let libraries = vec![LibraryDependency {
        name: "os".to_string(),
        version: None,
        source_file: "requirements.txt".to_string(),
    }];
    let plan = store_graph(
        "job",
        "repo",
        &files,
        &graph,
        None,
        &boundaries,
        &libraries,
        &found,
        Some(BatchConfig { batch_size: 3 }),
    );
    let lists: Vec<&str> = plan[1..].iter().map(|s| s.params.entries[0].name.as_str()).collect();
    let first_edge = lists.iter().position(|l| *l == "edges").unwrap();
    assert!(first_edge > 0);
    assert!(lists[..first_edge].iter().all(|l| *l == "nodes"));
    assert!(lists[first_edge..].iter().all(|l| *l == "edges"));
    let labels: Vec<&str> = plan[1..first_edge + 1]
        .iter()
        .map(|s| s.context.as_str())
        .collect::<Vec<_>>()
        .into_iter()
        .fold(Vec::new(), |mut seen, c| {
            if seen.last() != Some(&c) {
                seen.push(c);
            }
            seen
        });
    assert_eq!(
        labels,
        vec![
            "Failed to batch insert file nodes",
            "Failed to batch insert function nodes",
            "Failed to batch insert module nodes",
            "Failed to batch insert boundary nodes",
            "Failed to batch insert library nodes",
            "Failed to batch insert table nodes",
            "Failed to batch insert service nodes",
            "Failed to batch insert Endpoint nodes",
            "Failed to batch insert RpcService nodes",
            "Failed to batch insert MessageQueue nodes",
            "Failed to batch insert ComposeService nodes",
        ]
    );
    for s in &plan[1..] {
        assert!(rows_of(s).len() <= 3);
        assert!(!rows_of(s).is_empty());
    }
    assert_eq!(rows_of(&plan[1]).len(), 3);
}

#[test]
fn storing_twice_plans_the_same_statements() {
    let files = seven_files();
    let table = SymbolTable::from_parsed_files(&files);
    let graph = DependencyGraph::from_parsed_files(&files, &table);
    let boundaries = no_boundaries(&files);
    let first = store_graph("job", "repo", &files, &graph, None, &boundaries, &[], &empty_analysis(), None);
    let table_again = SymbolTable::from_parsed_files(&files);
    let graph_again = DependencyGraph::from_parsed_files(&files, &table_again);
    let second =
        store_graph("job", "repo", &files, &graph_again, None, &boundaries, &[], &empty_analysis(), None);
    assert_eq!(format!("{:?}", first), format!("{:?}", second));
    assert_eq!(graph.nodes, graph_again.nodes);
}

#[test]
fn an_incremental_plan_deletes_before_it_stores() {
    let all = seven_files();
    let changed_parse = vec![all[0].clone()];
    let table = SymbolTable::from_parsed_files(&changed_parse);
    let graph = DependencyGraph::from_parsed_files(&changed_parse, &table);
    let boundaries = no_boundaries(&changed_parse);
    let changed = vec!["z.py".to_string(), "a.py".to_string()];
    let removed = vec!["b.py".to_string(), "a.py".to_string(), "B.py".to_string()];
    let plan = store_graph_incremental(
        "job2",
        "repo",
        &changed_parse,
        &graph,
        None,
        &boundaries,
        &[],
        &empty_analysis(),
        &changed,
        &removed,
        Some(BatchConfig { batch_size: 10 }),
    );
    for s in &plan[0..3] {
        assert!(s.query.contains("DETACH DELETE"));
        match s.params.get("paths") {
            Some(Parameter::Texts(paths)) => {
                assert_eq!(
                    paths,
                    &vec!["B.py".to_string(), "a.py".to_string(), "b.py".to_string(), "z.py".to_string()]
                )
            }
            _ => panic!(),
        }
    }
    for s in &plan[3..] {
        assert!(!s.query.contains("DELETE"));
    }
    assert!(plan[3].query.starts_with("MERGE (j:Job"));
    let file_rows = rows_of(&plan[4]);
    assert_eq!(file_rows.len(), 1);
    assert_eq!(text(&file_rows[0], "id"), "a.py");
    let full = store_graph(
        "job2",
        "repo",
        &changed_parse,
        &graph,
        None,
        &boundaries,
        &[],
        &empty_analysis(),
        Some(BatchConfig { batch_size: 10 }),
    );
    assert_eq!(format!("{:?}", &plan[3..]), format!("{:?}", full));

    let nothing_named = store_graph_incremental(
        "job2", "repo", &changed_parse, &graph, None, &boundaries, &[], &empty_analysis(), &[], &[], None,
    );
    assert!(nothing_named[0].query.starts_with("MERGE (j:Job"));
}
