use ingestion_worker::boundary_detector::{
    ArchitecturalLayer, BoundaryDetector, BoundaryType, WorkspaceManifests,
};
use ingestion_worker::parsers::ParsedFile;

fn file(path: &str) -> ParsedFile {
    ParsedFile {
        path: path.to_string(),
        language: "typescript".to_string(),
        functions: vec![],
        classes: vec![],
        imports: vec![],
        data_tables: vec![],
        service_calls: vec![],
    }
}

fn no_manifests() -> WorkspaceManifests {
    WorkspaceManifests { package_json: None, cargo_toml: None, go_work: false }
}

#[test]
fn labels_of_kinds_and_layers() {
    assert_eq!(BoundaryType::Physical.as_str(), "physical");
    assert_eq!(BoundaryType::Logical.as_str(), "logical");
    assert_eq!(BoundaryType::Architectural.as_str(), "architectural");
    assert_eq!(ArchitecturalLayer::Presentation.as_str(), "presentation");
    assert_eq!(ArchitecturalLayer::BusinessLogic.as_str(), "business_logic");
    assert_eq!(ArchitecturalLayer::DataAccess.as_str(), "data_access");
    assert_eq!(ArchitecturalLayer::Infrastructure.as_str(), "infrastructure");
    assert_eq!(ArchitecturalLayer::Unknown.as_str(), "unknown");
}

#[test]
fn layers_are_decided_by_the_first_rule_that_fits() {
    let layer = BoundaryDetector::classify_architectural_layer;
    assert_eq!(layer("src/components/Button.ts"), ArchitecturalLayer::Presentation);
    assert_eq!(layer("src/App.TSX"), ArchitecturalLayer::Presentation);
    assert_eq!(layer("src/widget.jsx"), ArchitecturalLayer::Presentation);
    assert_eq!(layer("src/repository/users.py"), ArchitecturalLayer::DataAccess);
    assert_eq!(layer("src/config/settings.py"), ArchitecturalLayer::Infrastructure);
    assert_eq!(layer("src/domain/order.py"), ArchitecturalLayer::BusinessLogic);
    assert_eq!(layer("src/main.rs"), ArchitecturalLayer::Unknown);
    // presentation is tried before data access, data access before the rest
    assert_eq!(layer("src/views/model.py"), ArchitecturalLayer::Presentation);
    assert_eq!(layer("src/models/service.py"), ArchitecturalLayer::DataAccess);
    assert_eq!(layer("src/utils/service.py"), ArchitecturalLayer::Infrastructure);
    // "ui" inside "build" marks the presentation layer
    assert_eq!(layer("build/x.go"), ArchitecturalLayer::Presentation);
}

#[test]
fn top_level_directory() {
    let dir = BoundaryDetector::extract_top_level_dir;
    assert_eq!(dir("src/main.rs"), Some("src".to_string()));
    assert_eq!(dir("./src/main.rs"), Some("src".to_string()));
    assert_eq!(dir("././src/a/b.rs"), Some("src".to_string()));
    assert_eq!(dir(".\\src\\main.rs"), Some("src".to_string()));
    assert_eq!(dir("a\\b/c.rs"), Some("a\\b".to_string()));
    assert_eq!(dir("main.rs"), None);
    assert_eq!(dir(""), None);
    assert_eq!(dir("/etc/x"), Some("".to_string()));
}

#[test]
fn logical_boundaries_need_two_files() {
    let files = vec![file("src/a.rs"), file("docs/x.rs"), file("src/b.rs"), file("lonely.rs")];
    let found = BoundaryDetector::detect_logical_boundaries(&files);
    assert_eq!(found.len(), 1);
    assert_eq!(found[0].id, "logical_src");
    assert_eq!(found[0].name, "src");
    assert_eq!(found[0].path, "src");
    assert_eq!(found[0].boundary_type, BoundaryType::Logical);
    assert_eq!(found[0].layer, None);
    assert_eq!(found[0].file_count, 2);
    assert_eq!(found[0].files, vec!["src/a.rs".to_string(), "src/b.rs".to_string()]);
}

#[test]
fn logical_id_replaces_separators() {
    let files = vec![file("a\\b/c.rs"), file("a\\b/d.rs")];
    let found = BoundaryDetector::detect_logical_boundaries(&files);
    assert_eq!(found.len(), 1);
    assert_eq!(found[0].id, "logical_a_b");
    assert_eq!(found[0].name, "a\\b");
}

#[test]
fn architectural_boundaries_drop_unknown_and_single_files() {
    let files = vec![
        file("app/views/home.ts"),
        file("app/main.ts"),
        file("app/core.ts"),
        file("app/services/pay.ts"),
        file("app/pages/about.ts"),
        file("app/db/conn.ts"),
    ];
    let found = BoundaryDetector::detect_architectural_boundaries(&files);
    assert_eq!(found.len(), 1);
    assert_eq!(found[0].id, "architectural_presentation");
    assert_eq!(found[0].name, "Presentation Layer");
    assert_eq!(found[0].path, "presentation");
    assert_eq!(found[0].layer, Some(ArchitecturalLayer::Presentation));
    assert_eq!(found[0].boundary_type, BoundaryType::Architectural);
    assert_eq!(found[0].file_count, 2);
    assert_eq!(
        found[0].files,
        vec!["app/views/home.ts".to_string(), "app/pages/about.ts".to_string()]
    );
}

#[test]
fn architectural_boundaries_come_in_rule_order() {
    let files = vec![
        file("x/service/a.py"),
        file("x/domain/b.py"),
        file("x/dao/a.py"),
        file("x/schema/b.py"),
        file("x/helper/a.py"),
        file("x/plugin/b.py"),
    ];
    let found = BoundaryDetector::detect_architectural_boundaries(&files);
    let ids: Vec<&str> = found.iter().map(|b| b.id.as_str()).collect();
    assert_eq!(
        ids,
        vec!["architectural_data_access", "architectural_infrastructure", "architectural_business_logic"]
    );
    assert_eq!(found[2].name, "BusinessLogic Layer");
    assert_eq!(found[0].name, "DataAccess Layer");
    assert_eq!(found[1].name, "Infrastructure Layer");
}

#[test]
fn physical_boundaries_from_manifests() {
    let manifests = WorkspaceManifests {
        package_json: Some(r#"{"name": "x", "workspaces": ["packages/a", 7, "packages/b"]}"#.to_string()),
        cargo_toml: Some("[workspace]\nmembers = [\"a\"]\n".to_string()),
        go_work: true,
    };
    let found = BoundaryDetector::detect_physical_boundaries(&manifests);
    assert_eq!(found.len(), 4);
    assert_eq!(found[0].id, "physical_workspace_0");
    assert_eq!(found[0].name, "Workspace: packages/a");
    assert_eq!(found[0].path, "packages/a");
    assert_eq!(found[1].id, "physical_workspace_2");
    assert_eq!(found[1].path, "packages/b");
    assert_eq!(found[2].id, "physical_cargo_workspace");
    assert_eq!(found[2].name, "Cargo Workspace");
    assert_eq!(found[2].path, ".");
    assert_eq!(found[3].id, "physical_go_workspace");
    assert_eq!(found[3].name, "Go Workspace");
    for b in &found {
        assert_eq!(b.boundary_type, BoundaryType::Physical);
        assert_eq!(b.file_count, 0);
        assert!(b.files.is_empty());
        assert_eq!(b.layer, None);
    }
}

#[test]
fn physical_boundaries_of_many_workspaces_are_numbered_in_decimal() {
    let entries: Vec<String> = (0..12).map(|i| format!("\"p{}\"", i)).collect();
    let manifests = WorkspaceManifests {
        package_json: Some(format!("{{\"workspaces\": [{}]}}", entries.join(","))),
        cargo_toml: Some("[package]\nname = \"x\"\n".to_string()),
        go_work: false,
    };
    let found = BoundaryDetector::detect_physical_boundaries(&manifests);
    assert_eq!(found.len(), 12);
    assert_eq!(found[10].id, "physical_workspace_10");
    assert_eq!(found[11].id, "physical_workspace_11");
}

#[test]
fn a_manifest_that_is_no_json_declares_no_workspace() {
    let manifests = WorkspaceManifests {
        package_json: Some("not json".to_string()),
        cargo_toml: None,
        go_work: false,
    };
    assert!(BoundaryDetector::detect_physical_boundaries(&manifests).is_empty());
    let object = WorkspaceManifests {
        package_json: Some(r#"{"workspaces": {"packages": ["a"]}}"#.to_string()),
        cargo_toml: None,
        go_work: false,
    };
    assert!(BoundaryDetector::detect_physical_boundaries(&object).is_empty());
}

#[test]
fn boundaries_list_only_parsed_files_and_no_unknown_layer() {
    let files = vec![
        file("src/views/a.ts"),
        file("src/views/b.ts"),
        file("lib/x.ts"),
        file("lib/y.ts"),
        file("z.ts"),
    ];
    let result = BoundaryDetector::detect_boundaries(&files, &no_manifests());
    let paths: Vec<&str> = files.iter().map(|f| f.path.as_str()).collect();
    assert_eq!(result.boundaries.len(), 3);
    for b in &result.boundaries {
        assert_ne!(b.layer, Some(ArchitecturalLayer::Unknown));
        for f in &b.files {
            assert!(paths.contains(&f.as_str()));
        }
    }
    // the last boundary that lists a file owns it
    assert_eq!(
        result.file_to_boundary.get("src/views/a.ts"),
        Some(&"architectural_presentation".to_string())
    );
    assert_eq!(result.file_to_boundary.get("lib/x.ts"), Some(&"logical_lib".to_string()));
    assert_eq!(result.file_to_boundary.get("z.ts"), None);
}
