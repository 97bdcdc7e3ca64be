use ingestion_worker::communication_detector::SourceText;
use ingestion_worker::graph_builder::{DependencyGraph, EdgeType, NodeId, SymbolTable};
use ingestion_worker::boundary_detector::WorkspaceManifests;
use ingestion_worker::manifests::ManifestFile;
use ingestion_worker::neo4j_storage::{Parameter, Statement, Value};
use ingestion_worker::parsers::common::ParseError;
use ingestion_worker::pipeline::{
    advance, analyze_parsed, attempt, enrich, keep, plan_analysis, Attempt, backoff_seconds, branch_candidates, build_graph_patch,
    changed_edge_ids, changed_node_ids, extract_webhook_changes, is_incremental, is_temp_clone_name,
    job_url, language_of_path, needs_checkout, node_id_to_string, normalize_separators,
    parse_repository, parse_repository_subset, parse_source, payload_for, retry_decision,
    summarize, temp_clone_name, Config, JobOptions, Outcome, Report,
    RepositoryFacts, ResultSummary, RetryDecision, SourceLanguage, Stage,
};

fn source(path: &str, content: &str) -> SourceText {
    SourceText { path: path.to_string(), content: content.to_string() }
}

fn facts(manifests: Vec<ManifestFile>, sources: Vec<SourceText>, compose: Option<&str>) -> RepositoryFacts {
    RepositoryFacts {
        git_contributions: None,
        workspaces: WorkspaceManifests { package_json: None, cargo_toml: None, go_work: false },
        manifests,
        sources,
        proto_texts: vec![],
        compose: compose.map(|c| c.to_string()),
    }
}

#[test]
fn languages_by_extension() {
    assert_eq!(language_of_path("a/b.js"), Some(SourceLanguage::JavaScript));
    assert_eq!(language_of_path("a/b.jsx"), Some(SourceLanguage::JavaScript));
    assert_eq!(language_of_path("a/b.mjs"), Some(SourceLanguage::JavaScript));
    assert_eq!(language_of_path("a/b.ts"), Some(SourceLanguage::TypeScript));
    assert_eq!(language_of_path("a/b.TSX"), Some(SourceLanguage::TypeScript));
    assert_eq!(language_of_path("main.rs"), Some(SourceLanguage::Rust));
    assert_eq!(language_of_path("main.go"), Some(SourceLanguage::Go));
    assert_eq!(language_of_path("x.y/main.py"), Some(SourceLanguage::Python));
    assert_eq!(language_of_path("README.md"), None);
    assert_eq!(language_of_path("Makefile"), None);
    assert_eq!(language_of_path(".py"), None);
    assert_eq!(language_of_path("dir.py/"), Some(SourceLanguage::Python));
    assert_eq!(language_of_path(""), None);
    assert_eq!(normalize_separators("src\\a\\b.rs"), "src/a/b.rs");
    assert_eq!(normalize_separators("src/a.rs"), "src/a.rs");
}

#[test]
fn test_walk_directory_relative_paths() {
    let sources = vec![source("src/main.rs", "fn main() {}\n")];
    let parsed_files = parse_repository(&sources);
    assert_eq!(parsed_files.len(), 1);
    assert_eq!(parsed_files[0].path, "src/main.rs");
    assert_eq!(parsed_files[0].language, "rust");
}

#[test]
fn parsing_passes_over_what_it_does_not_know() {
    let sources = vec![
        source("README.md", "# hi"),
        source("a.py", "def f():\n    pass\n"),
        source("b.go", "package main\nfunc main() {}\n"),
        source("c.ts", "function f(a: number) { return g(a); }"),
        source("d.js", "function h() {}"),
        source("empty.rs", ""),
    ];
    let files = parse_repository(&sources);
    let seen: Vec<(&str, &str)> = files.iter().map(|f| (f.path.as_str(), f.language.as_str())).collect();
    assert_eq!(
        seen,
        vec![("a.py", "python"), ("b.go", "go"), ("c.ts", "typescript"), ("d.js", "javascript"), ("empty.rs", "rust")]
    );
    assert!(files[4].functions.is_empty());
    assert!(files[4].classes.is_empty());
    assert!(files[4].imports.is_empty());
    let subset = parse_repository_subset(&sources);
    assert_eq!(subset.len(), 5);
    assert!(parse_repository(&[]).is_empty());
}

#[test]
fn a_file_with_syntax_errors_still_parses() {
    let parsed = parse_source(SourceLanguage::Python, "bad.py", "def broken(:\n  class ((\n").unwrap();
    assert_eq!(parsed.path, "bad.py");
    assert_eq!(parsed.language, "python");
    let rust = parse_source(SourceLanguage::Rust, "bad.rs", "fn ok() {} fn {{{{").unwrap();
    assert!(rust.functions.iter().any(|f| f.name == "ok"));
}

#[test]
fn parse_errors_have_words() {
    assert_eq!(ParseError::NoTree.message(), "Failed to parse file");
}

#[test]
fn webhook_changes() {
    let options = Some(JobOptions {
        git_token: None,
        changed_files: Some(r#"["a.py", "src/b.py"]"#.to_string()),
        removed_files: Some("not json".to_string()),
        incremental: None,
    });
    let (changed, removed) = extract_webhook_changes(&options);
    assert_eq!(changed, vec!["a.py".to_string(), "src/b.py".to_string()]);
    assert!(removed.is_empty());
    assert!(is_incremental(&options, &changed, &removed));
    let (c, r) = extract_webhook_changes(&None);
    assert!(c.is_empty() && r.is_empty());
    assert!(!is_incremental(&None, &c, &r));
    let flagged = Some(JobOptions {
        git_token: None,
        changed_files: None,
        removed_files: Some(r#"["gone.py"]"#.to_string()),
        incremental: Some("true".to_string()),
    });
    let (c, r) = extract_webhook_changes(&flagged);
    assert!(c.is_empty());
    assert_eq!(r, vec!["gone.py".to_string()]);
    assert!(is_incremental(&flagged, &vec![], &vec![]));
    let not_flagged = Some(JobOptions {
        git_token: None,
        changed_files: Some("[1, 2]".to_string()),
        removed_files: None,
        incremental: Some("false".to_string()),
    });
    let (c, r) = extract_webhook_changes(&not_flagged);
    assert!(c.is_empty() && r.is_empty());
    assert!(!is_incremental(&not_flagged, &c, &r));
    assert!(is_incremental(&not_flagged, &vec!["x".to_string()], &r));
}

#[test]
fn node_ids_as_text() {
    assert_eq!(node_id_to_string(&NodeId::File("src/a.rs".to_string())), "src/a.rs");
    assert_eq!(node_id_to_string(&NodeId::Class("src/a.rs".to_string(), "A".to_string())), "src/a.rs::A");
    assert_eq!(node_id_to_string(&NodeId::Function("src/a.rs".to_string(), "f".to_string())), "src/a.rs::f");
    assert_eq!(node_id_to_string(&NodeId::Module("serde".to_string())), "serde");
}

#[test]
fn graph_patch_of_parsed_files() {
    let sources = vec![source(
        "src/app/models.py",
        "import os\nclass Dog(Animal):\n    def bark(self):\n        pass\n\ndef main():\n    pass\n",
    )];
    let files = parse_repository(&sources);
    let table = SymbolTable::from_parsed_files(&files);
    let graph = DependencyGraph::from_parsed_files(&files, &table);
    let changed = vec!["src/app/models.py".to_string()];
    let patch = build_graph_patch(&files, &graph, &changed, &[]);
    assert_eq!(patch.changed_files, changed);
    assert!(patch.removed_files.is_empty());
    let ids = changed_node_ids(&patch);
    assert_eq!(
        ids,
        vec![
            "src/app/models.py",
            "src/app/models.py::Dog",
            "src/app/models.py::main",
            "src/app/models.py::bark",
            "Animal",
            "os"
        ]
    );
    let file = &patch.nodes[0];
    assert_eq!(file.label, "models.py");
    assert_eq!(file.node_type, "file");
    assert_eq!(file.extension, Some("py".to_string()));
    assert_eq!(file.language, Some("python".to_string()));
    assert_eq!(file.depth, 2);
    assert_eq!(file.parent_id, None);
    assert_eq!(file.file_path, Some("src/app/models.py".to_string()));
    assert_eq!(file.line_number, None);
    let class = &patch.nodes[1];
    assert_eq!(class.node_type, "class");
    assert_eq!(class.label, "Dog");
    assert_eq!(class.depth, 3);
    assert_eq!(class.parent_id, Some("src/app/models.py".to_string()));
    assert_eq!(class.line_number, Some(2));
    assert_eq!(class.end_line_number, Some(4));
    let function = &patch.nodes[2];
    assert_eq!(function.node_type, "function");
    assert_eq!(function.depth, 4);
    assert_eq!(function.line_number, Some(6));
    let method = &patch.nodes[3];
    assert_eq!(method.node_type, "function");
    assert_eq!(method.label, "bark");
    assert_eq!(method.depth, 4);
    assert_eq!(method.parent_id, Some("src/app/models.py::Dog".to_string()));
    assert_eq!(method.file_path, Some("src/app/models.py".to_string()));
    assert_eq!(method.line_number, Some(3));
    assert_eq!(method.end_line_number, Some(4));
    let module = &patch.nodes[4];
    assert_eq!(module.node_type, "module");
    assert_eq!(module.depth, 0);
    assert_eq!(module.language, None);
    assert_eq!(module.file_path, None);

    let edge_ids = changed_edge_ids(&patch);
    assert_eq!(
        edge_ids,
        vec![
            "defines:src/app/models.py->src/app/models.py::main",
            "defines:src/app/models.py->src/app/models.py::Dog",
            "inherits:src/app/models.py::Dog->Animal",
            "contains:src/app/models.py::Dog->src/app/models.py::bark",
            "imports:src/app/models.py->os",
        ]
    );
    assert_eq!(patch.edges[2].source, "src/app/models.py::Dog");
    assert_eq!(patch.edges[2].target, "Animal");
    assert_eq!(patch.edges[2].edge_type, "inherits");
}

#[test]
fn summary_numbers() {
    let sources = vec![source("a.py", "import os\nimport sys\nclass A:\n    def m(self):\n        pass\ndef f():\n    pass\n")];
    let files = parse_repository(&sources);
    let table = SymbolTable::from_parsed_files(&files);
    let graph = DependencyGraph::from_parsed_files(&files, &table);
    let summary = summarize(&files, &graph.stats());
    assert_eq!(
        summary,
        ResultSummary { total_files: 1, total_functions: 2, total_classes: 1, dependencies: 2 }
    );
}

#[test]
fn stages_and_reports() {
    let mut stage = Stage::Accepted;
    let mut progress = Vec::new();
    while stage != Stage::Completed {
        let (next, report) = advance(stage, Outcome::Done);
        let payload = payload_for(report.unwrap(), None, None);
        progress.push(payload.progress.unwrap());
        stage = next;
    }
    assert_eq!(progress, vec![0, 25, 50, 60, 75, 90, 100]);
    assert_eq!(advance(Stage::Completed, Outcome::Done), (Stage::Completed, None));
    assert_eq!(advance(Stage::Completed, Outcome::Error), (Stage::Completed, None));
    assert_eq!(advance(Stage::Failed, Outcome::Done), (Stage::Failed, None));
    for s in [Stage::Accepted, Stage::Started, Stage::Cloned, Stage::Parsed, Stage::Enriched, Stage::GraphBuilt, Stage::Persisted] {
        assert_eq!(advance(s, Outcome::Error), (Stage::Failed, Some(Report::Failed)));
    }
    assert_eq!(advance(Stage::Accepted, Outcome::Done), (Stage::Started, Some(Report::Processing)));
    assert_eq!(advance(Stage::Persisted, Outcome::Done), (Stage::Completed, Some(Report::Completed)));
}

#[test]
fn payloads() {
    let summary = ResultSummary { total_files: 1, total_functions: 2, total_classes: 3, dependencies: 4 };
    let processing = payload_for(Report::Processing, Some(summary), Some("e".to_string()));
    assert_eq!(processing.status, Some("PROCESSING".to_string()));
    assert_eq!(processing.progress, Some(0));
    assert_eq!(processing.result_summary, None);
    assert_eq!(processing.error, None);
    let step = payload_for(Report::Progress(60), Some(summary), None);
    assert_eq!(step.status, None);
    assert_eq!(step.progress, Some(60));
    let done = payload_for(Report::Completed, Some(summary), Some("e".to_string()));
    assert_eq!(done.status, Some("COMPLETED".to_string()));
    assert_eq!(done.progress, Some(100));
    assert_eq!(done.result_summary, Some(summary));
    assert_eq!(done.error, None);
    let failed = payload_for(Report::Failed, Some(summary), Some("boom".to_string()));
    assert_eq!(failed.status, Some("FAILED".to_string()));
    assert_eq!(failed.progress, None);
    assert_eq!(failed.result_summary, None);
    assert_eq!(failed.error, Some("boom".to_string()));
    assert_eq!(job_url("http://gw:8080", "job-7"), "http://gw:8080/api/v1/jobs/job-7");
}

#[test]
fn backoff_doubles_up_to_the_largest_wait() {
    assert_eq!(backoff_seconds(1), 1);
    assert_eq!(backoff_seconds(2), 2);
    assert_eq!(backoff_seconds(3), 4);
    assert_eq!(backoff_seconds(4), 8);
    assert_eq!(backoff_seconds(64), 1u64 << 63);
    assert_eq!(retry_decision(1, 4), RetryDecision::Wait(1));
    assert_eq!(retry_decision(3, 4), RetryDecision::Wait(4));
    assert_eq!(retry_decision(4, 4), RetryDecision::GiveUp);
    assert_eq!(retry_decision(5, 4), RetryDecision::GiveUp);
    assert_eq!(retry_decision(1, 0), RetryDecision::GiveUp);
    let total: u64 = (1..4).map(backoff_seconds).sum();
    assert_eq!(total, 7);
}

#[test]
fn clones_and_branches() {
    assert_eq!(temp_clone_name("1234"), "archmind-repo-1234");
    assert!(is_temp_clone_name("archmind-repo-1234"));
    assert!(is_temp_clone_name("archmind-"));
    assert!(!is_temp_clone_name("archmind"));
    assert!(!is_temp_clone_name("other-archmind-"));
    assert_eq!(
        branch_candidates("dev"),
        vec!["dev", "origin/dev", "master", "origin/master", "main", "origin/main"]
    );
    assert!(needs_checkout(Some("main"), "dev"));
    assert!(!needs_checkout(Some("dev"), "dev"));
    assert!(needs_checkout(None, "dev"));
    assert!(!needs_checkout(None, "master"));
}

#[test]
fn configuration_defaults() {
    let config = Config::from_values(None, Some("bolt://db:7687".to_string()), None, None, None);
    assert_eq!(config.redis_url, "redis://localhost:6379");
    assert_eq!(config.neo4j_uri, "bolt://db:7687");
    assert_eq!(config.neo4j_user, "neo4j");
    assert_eq!(config.neo4j_password, "password");
    assert_eq!(config.api_gateway_url, "http://localhost:8080");
}

fn rows(statement: &Statement) -> &Vec<ingestion_worker::neo4j_storage::Row> {
    match &statement.params.entries[0].value {
        Parameter::Rows(rows) => rows,
        _ => panic!("no rows"),
    }
}

fn find<'a>(plan: &'a [Statement], needle: &str) -> Vec<&'a Statement> {
    plan.iter().filter(|s| s.query.contains(needle)).collect()
}

fn text(row: &ingestion_worker::neo4j_storage::Row, key: &str) -> String {
    match row.get(key) {
        Some(Value::Text(t)) => t.clone(),
        _ => panic!("no text under {}", key),
    }
}

#[test]
fn two_rust_files_with_a_call_across_them() {
    let sources = vec![
        source("caller.rs", "fn main() { helper(); }"),
        source("callee.rs", "fn helper() {}"),
    ];
    let files = parse_repository(&sources);
    let table = SymbolTable::from_parsed_files(&files);
    let graph = DependencyGraph::from_parsed_files(&files, &table);
    let calls = graph.edges_of_type(EdgeType::Calls);
    assert_eq!(calls.len(), 1);
    assert_eq!(calls[0].from, NodeId::Function("caller.rs".to_string(), "main".to_string()));
    assert_eq!(calls[0].to, NodeId::Function("callee.rs".to_string(), "helper".to_string()));
}

#[test]
fn a_python_class_that_inherits_and_has_a_method() {
    let sources = vec![source(
        "models.py",
        "class Animal:\n    pass\n\nclass Dog(Animal):\n    def bark(self):\n        pass\n",
    )];
    let files = parse_repository(&sources);
    let table = SymbolTable::from_parsed_files(&files);
    let graph = DependencyGraph::from_parsed_files(&files, &table);
    let inherits = graph.edges_of_type(EdgeType::Inherits);
    assert_eq!(inherits.len(), 1);
    assert_eq!(inherits[0].from, NodeId::Class("models.py".to_string(), "Dog".to_string()));
    assert_eq!(inherits[0].to, NodeId::Class("models.py".to_string(), "Animal".to_string()));
    assert_eq!(inherits[0].properties[0].key, "kind");
    assert_eq!(inherits[0].properties[0].value, "class");
    let contains = graph.edges_of_type(EdgeType::Contains);
    assert_eq!(contains.len(), 1);
    assert_eq!(contains[0].from, NodeId::Class("models.py".to_string(), "Dog".to_string()));
    assert_eq!(contains[0].to, NodeId::Function("models.py".to_string(), "bark".to_string()));
}

#[test]
fn a_typescript_import_of_a_declared_library() {
    let sources = vec![source(
        "src/app.ts",
        "import { Foo } from 'bar';\nfunction process(data: string) { return validate(data); }\n",
    )];
    let manifests = vec![ManifestFile {
        source_file: "package.json".to_string(),
        content: r#"{"dependencies": {"bar": "^1.0.0"}}"#.to_string(),
    }];
    let files = parse_repository(&sources);
    let analysis = analyze_parsed("job", "repo", &files, &facts(manifests, sources, None), &[], &[], false);
    let imports = analysis.graph.edges_of_type(EdgeType::Imports);
    assert_eq!(imports.len(), 1);
    assert_eq!(imports[0].from, NodeId::File("src/app.ts".to_string()));
    assert_eq!(imports[0].to, NodeId::Module("bar".to_string()));
    assert!(analysis.graph.edges_of_type(EdgeType::Calls).is_empty());
    assert!(analysis.patch.is_none());
    let library_edges = find(&analysis.plan, "MERGE (f)-[r:DEPENDS_ON]->(l)");
    assert_eq!(library_edges.len(), 1);
    let row = &rows(library_edges[0])[0];
    assert_eq!(text(row, "file_path"), "src/app.ts");
    assert_eq!(text(row, "library_name"), "bar");
    assert_eq!(text(row, "library_version"), "^1.0.0");
    assert_eq!(analysis.libraries.len(), 1);

    let with_validate = vec![
        source("src/app.ts", "function process(data: string) { return validate(data); }\n"),
        source("src/check.ts", "function validate(x: string) { return true; }\n"),
    ];
    let files = parse_repository(&with_validate);
    let table = SymbolTable::from_parsed_files(&files);
    let graph = DependencyGraph::from_parsed_files(&files, &table);
    let calls = graph.edges_of_type(EdgeType::Calls);
    assert_eq!(calls.len(), 1);
    assert_eq!(calls[0].to, NodeId::Function("src/check.ts".to_string(), "validate".to_string()));
}

#[test]
fn an_incremental_ingest_after_a_full_one() {
    let names = ["a.py", "b.py", "c.py", "d.py", "e.py", "f.py", "g.py"];
    let sources: Vec<SourceText> =
        names.iter().map(|n| source(n, "class Old:\n    pass\n\ndef old():\n    pass\n")).collect();
    let files = parse_repository(&sources);
    assert_eq!(files.len(), 7);
    let full = analyze_parsed("job1", "repo", &files, &facts(vec![], sources, None), &[], &[], false);
    assert_eq!(rows(find(&full.plan, "MERGE (f:File {id: node.id, repo_id: node.repo_id})")[0]).len(), 7);
    assert!(find(&full.plan, "DETACH DELETE").is_empty());

    let changed_sources = vec![source("a.py", "def fresh():\n    pass\n")];
    let changed_files = parse_repository_subset(&changed_sources);
    let changed = vec!["a.py".to_string()];
    let removed = vec!["b.py".to_string()];
    let update = analyze_parsed(
        "job2",
        "repo",
        &changed_files,
        &facts(vec![], changed_sources, None),
        &changed,
        &removed,
        true,
    );
    let deletes = find(&update.plan, "DETACH DELETE");
    assert_eq!(deletes.len(), 3);
    for (i, s) in update.plan.iter().enumerate() {
        assert_eq!(s.query.contains("DETACH DELETE"), i < 3);
    }
    for s in &deletes {
        match s.params.get("paths") {
            Some(Parameter::Texts(paths)) => assert_eq!(paths, &vec!["a.py".to_string(), "b.py".to_string()]),
            _ => panic!(),
        }
    }
    let stored_files = rows(find(&update.plan, "MERGE (f:File {id: node.id, repo_id: node.repo_id})")[0]);
    assert_eq!(stored_files.len(), 1);
    assert_eq!(text(&stored_files[0], "id"), "a.py");
    let stored_functions = rows(find(&update.plan, "MERGE (fn:Function {id: node.id, repo_id: node.repo_id})")[0]);
    assert_eq!(stored_functions.len(), 1);
    assert_eq!(text(&stored_functions[0], "id"), "a.py::fresh");
    assert!(find(&update.plan, "MERGE (c:Class {id: node.id, repo_id: node.repo_id})").is_empty());
    let patch = update.patch.unwrap();
    assert_eq!(patch.changed_files, changed);
    assert_eq!(patch.removed_files, removed);
    assert_eq!(changed_node_ids(&patch), vec!["a.py", "a.py::fresh"]);
    assert_eq!(changed_edge_ids(&patch), vec!["defines:a.py->a.py::fresh"]);
}

#[test]
fn a_compose_service_exposes_the_endpoint_a_file_calls() {
    let sources = vec![source("web/app.ts", "async function load() { return fetch(\"http://api/users\"); }")];
    let compose = "services:\n  api:\n    ports:\n      - \"8080:8080\"\n";
    let files = parse_repository(&sources);
    let analysis =
        analyze_parsed("job", "repo", &files, &facts(vec![], sources, Some(compose)), &[], &[], false);
    assert_eq!(analysis.communication.compose_services[0].name, "api");
    assert_eq!(analysis.communication.compose_services[0].ports, vec!["8080:8080".to_string()]);
    assert_eq!(analysis.communication.endpoints[0].url, "http://api/users");
    assert_eq!(analysis.communication.endpoints[0].method, "GET");
    let exposed = find(&analysis.plan, "MERGE (e)-[:EXPOSED_BY]->(s)");
    assert_eq!(exposed.len(), 1);
    let row = &rows(exposed[0])[0];
    assert_eq!(text(row, "url"), "http://api/users");
    assert_eq!(text(row, "method"), "GET");
    assert_eq!(text(row, "service_name"), "api");
    assert_eq!(files[0].service_calls.len(), 1);
    assert_eq!(files[0].service_calls[0].target, "api");
    assert_eq!(files[0].service_calls[0].protocol, "http");
}

#[test]
fn a_go_method_called_from_main() {
    let sources = vec![source(
        "cmd/server.go",
        "package main\n\ntype Server struct {\n\tport int\n}\n\nfunc (s *Server) Start() {\n}\n\nfunc main() {\n\tserver := Server{port: 8080}\n\tserver.Start()\n}\n",
    )];
    let files = parse_repository(&sources);
    let server = files[0].classes.iter().find(|c| c.name == "Server").unwrap();
    assert_eq!(server.methods.len(), 1);
    assert_eq!(server.methods[0].name, "Start");
    assert_eq!(server.start_line, 3);
    assert_eq!(server.end_line, 5);
    let table = SymbolTable::from_parsed_files(&files);
    let graph = DependencyGraph::from_parsed_files(&files, &table);
    assert!(graph.nodes.contains(&NodeId::Class("cmd/server.go".to_string(), "Server".to_string())));
    assert!(graph.nodes.contains(&NodeId::Function("cmd/server.go".to_string(), "main".to_string())));
    let calls = graph.edges_of_type(EdgeType::Calls);
    assert_eq!(calls.len(), 1);
    assert_eq!(calls[0].from, NodeId::Function("cmd/server.go".to_string(), "main".to_string()));
    assert_eq!(calls[0].to, NodeId::Function("cmd/server.go".to_string(), "Start".to_string()));
}

#[test]
fn circular_inheritance_and_duplicate_class_names() {
    let sources = vec![
        source("a.py", "class A(B):\n    pass\n\nclass B(A):\n    pass\n"),
        source("b.py", "class A:\n    pass\n\nclass C(A):\n    pass\n"),
        source("c.py", "class D(A):\n    pass\n"),
    ];
    let files = parse_repository(&sources);
    let table = SymbolTable::from_parsed_files(&files);
    assert_eq!(table.classes.get("A").unwrap().len(), 2);
    let graph = DependencyGraph::from_parsed_files(&files, &table);
    let inherits = graph.edges_of_type(EdgeType::Inherits);
    let seen: Vec<(NodeId, NodeId)> = inherits.iter().map(|e| (e.from.clone(), e.to.clone())).collect();
    let class = |f: &str, n: &str| NodeId::Class(f.to_string(), n.to_string());
    assert_eq!(
        seen,
        vec![
            (class("a.py", "A"), class("a.py", "B")),
            (class("a.py", "B"), class("a.py", "A")),
            (class("b.py", "C"), class("b.py", "A")),
            (class("c.py", "D"), class("a.py", "A")),
        ]
    );
    assert_eq!(graph.stats().classes, 5);
}

#[test]
fn an_unreadable_manifest_leaves_the_catalog_empty() {
    let sources = vec![source("a.py", "import os\n\ndef f():\n    pass\n")];
    let files = parse_repository(&sources);
    let manifests = vec![
        ManifestFile { source_file: "requirements.txt".to_string(), content: "flask==2.0\n".to_string() },
        ManifestFile { source_file: "package.json".to_string(), content: "{".to_string() },
    ];
    let analysis = analyze_parsed("job", "repo", &files, &facts(manifests, sources, None), &[], &[], false);
    assert!(analysis.libraries.is_empty());
    assert_eq!(analysis.stats.files, 1);
    assert_eq!(analysis.stats.functions, 1);
    assert_eq!(find(&analysis.plan, "MERGE (f:File {id: node.id, repo_id: node.repo_id})").len(), 1);
}

#[test]
fn a_source_that_does_not_parse_is_passed_over_in_a_subset_too() {
    let mut files = Vec::new();
    assert_eq!(keep(&mut files, Attempt::Failed(ParseError::NoTree)), Some(ParseError::NoTree));
    assert_eq!(keep(&mut files, attempt(&source("b.py", "def g():\n    pass\n"))), None);
    assert_eq!(files.len(), 1);
    let subset = parse_repository_subset(&[source("x.md", ""), source("b.py", "")]);
    assert_eq!(subset.len(), 1);
    assert_eq!(subset[0].path, "b.py");
}

#[test]
fn test_exponential_backoff_calculation() {
    let test_cases = vec![
        (1, 1), // 2^0 = 1 second
        (2, 2), // 2^1 = 2 seconds
        (3, 4), // 2^2 = 4 seconds
        (4, 8), // 2^3 = 8 seconds
    ];

    for (attempt, expected_seconds) in test_cases {
        let wait_time = backoff_seconds(attempt);
        assert_eq!(
            wait_time, expected_seconds,
            "Attempt {}: expected {}s, got {}s",
            attempt, expected_seconds, wait_time
        );
    }
}

#[test]
fn test_max_retries_limit() {
    let max_retries = 4;
    let mut attempt_count = 0;

    for attempt in 1..=max_retries {
        attempt_count += 1;
        match retry_decision(attempt, max_retries) {
            RetryDecision::Wait(_) => continue,
            RetryDecision::GiveUp => break,
        }
    }

    assert_eq!(attempt_count, max_retries, "Should attempt exactly {} times", max_retries);
}

#[test]
fn test_wait_time_progression() {
    let max_retries = 4;
    let mut wait_times = Vec::new();

    for attempt in 1..=max_retries {
        if let RetryDecision::Wait(wait_time) = retry_decision(attempt, max_retries) {
            wait_times.push(wait_time);
        }
    }

    assert_eq!(wait_times.len(), 3);
    for i in 1..wait_times.len() {
        assert!(
            wait_times[i] > wait_times[i - 1],
            "Wait time should increase: {}s should be > {}s",
            wait_times[i],
            wait_times[i - 1]
        );
        assert_eq!(
            wait_times[i],
            wait_times[i - 1] * 2,
            "Wait time should double: {}s should be 2 * {}s",
            wait_times[i],
            wait_times[i - 1]
        );
    }
}

#[test]
fn test_retry_timeout_accumulation() {
    let max_retries = 4;
    let mut total_wait_time = 0u64;
    for attempt in 1..max_retries {
        total_wait_time += backoff_seconds(attempt);
    }
    assert_eq!(total_wait_time, 7);
}

#[test]
fn test_cleanup_temp_files_logic() {
    let test_cases = vec![
        ("archmind-12345", true),
        ("archmind-repo-abc", true),
        ("other-temp-file", false),
        ("my-archmind-file", false), // Should not match (doesn't start with pattern)
        ("archmind-", true),
    ];

    for (filename, should_match) in test_cases {
        let matches = is_temp_clone_name(filename);
        assert_eq!(matches, should_match, "File '{}' match should be {}", filename, should_match);
    }
}

#[test]
fn parsing_twice_gives_the_same_summary() {
    let content = "import os\nclass A(B):\n    def m(self, x):\n        self.n(x)\n        helper(x)\n";
    let first = parse_source(SourceLanguage::Python, "a.py", content).unwrap();
    let second = parse_source(SourceLanguage::Python, "a.py", content).unwrap();
    assert_eq!(format!("{:?}", first), format!("{:?}", second));
    assert_eq!(first.classes[0].methods[0].calls, vec!["n".to_string(), "helper".to_string()]);
    assert_eq!(first.classes[0].methods[0].params, vec!["self".to_string(), "x".to_string()]);
    assert_eq!(first.classes[0].methods[0].start_line, 3);
    assert_eq!(first.classes[0].methods[0].end_line, 5);
    assert_eq!(first.classes[0].methods[0].return_type, None);
}

#[test]
fn an_attempt_says_what_became_of_a_source() {
    assert!(matches!(attempt(&source("notes.txt", "fn main() {}")), Attempt::PassedOver));
    assert!(matches!(attempt(&source("Makefile", "")), Attempt::PassedOver));
    match attempt(&source("src/Main.RS", "fn main() {}")) {
        Attempt::Parsed(file) => {
            assert_eq!(file.path, "src/Main.RS");
            assert_eq!(file.language, "rust");
            assert_eq!(file.functions.len(), 1);
        },
        other => panic!("not parsed: {:?}", other),
    }
}

#[test]
fn keeping_an_attempt_appends_its_summary_or_reports_its_failure() {
    let mut files = Vec::new();
    assert_eq!(keep(&mut files, attempt(&source("a.py", "def f():\n    pass\n"))), None);
    assert_eq!(files.len(), 1);
    assert_eq!(keep(&mut files, Attempt::PassedOver), None);
    assert_eq!(files.len(), 1);
    assert_eq!(keep(&mut files, Attempt::Failed(ParseError::NoTree)), Some(ParseError::NoTree));
    assert_eq!(files.len(), 1);
    assert_eq!(keep(&mut files, attempt(&source("b.go", "package main\n"))), None);
    let paths: Vec<&str> = files.iter().map(|f| f.path.as_str()).collect();
    assert_eq!(paths, vec!["a.py", "b.go"]);
}

#[test]
fn parsed_files_follow_the_order_of_the_sources() {
    let sources = vec![
        source("z.py", ""),
        source("skip.md", ""),
        source("a.rs", ""),
        source("z.py", "x = 1"),
        source("m.go", "package m"),
    ];
    let paths: Vec<String> = parse_repository(&sources).into_iter().map(|f| f.path).collect();
    assert_eq!(paths, vec!["z.py", "a.rs", "z.py", "m.go"]);
    let subset: Vec<String> =
        parse_repository_subset(&sources).into_iter().map(|f| f.path).collect();
    assert_eq!(subset, paths);
}

#[test]
fn an_analysis_is_the_enrichment_and_then_the_plan() {
    let sources = vec![source("web/app.ts", "import x from 'left-pad';\nfetch(\"http://api/users\");\n")];
    let files = parse_repository(&sources);
    let manifests = vec![ManifestFile {
        source_file: "package.json".to_string(),
        content: r#"{"dependencies": {"left-pad": "1.3.0"}}"#.to_string(),
    }];
    let compose = "services:\n  api:\n    ports:\n      - \"80:80\"\n";
    let given = facts(manifests, sources, Some(compose));
    let enrichment = enrich(&files, &given);
    assert_eq!(enrichment.libraries.len(), 1);
    assert_eq!(enrichment.libraries[0].name, "left-pad");
    assert_eq!(enrichment.communication.endpoints.len(), 1);
    assert_eq!(enrichment.communication.compose_services.len(), 1);
    let whole = analyze_parsed("job", "repo", &files, &given, &[], &[], false);
    let planned = plan_analysis("job", "repo", &files, &given, enrichment, &[], &[], false);
    assert_eq!(planned.libraries.len(), 1);
    assert_eq!(planned.communication.endpoints[0].url, "http://api/users");
    assert_eq!(planned.plan.len(), whole.plan.len());
    assert_eq!(format!("{:?}", planned.plan), format!("{:?}", whole.plan));
    assert!(planned.patch.is_none());
}

#[test]
fn the_empty_text_parses_to_an_empty_summary() {
    for (language, path) in [
        (SourceLanguage::Rust, "a.rs"),
        (SourceLanguage::Go, "a.go"),
        (SourceLanguage::Python, "a.py"),
        (SourceLanguage::JavaScript, "a.js"),
        (SourceLanguage::TypeScript, "a.ts"),
    ] {
        let file = parse_source(language, path, "").unwrap();
        assert_eq!(file.path, path);
        assert!(file.functions.is_empty());
        assert!(file.classes.is_empty());
        assert!(file.imports.is_empty());
        assert!(file.data_tables.is_empty());
        assert!(file.service_calls.is_empty());
    }
}
