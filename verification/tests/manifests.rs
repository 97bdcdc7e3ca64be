use ingestion_worker::dependency_metadata::LibraryDependency;
use ingestion_worker::manifests::{
    collect_library_dependencies, manifest_kind, parse_cargo_toml, parse_go_mod,
    parse_package_json, parse_requirements_txt, skips_entry, sort_by_name, ManifestError,
    ManifestFile, ManifestKind,
};

fn lib(name: &str, version: Option<&str>, source: &str) -> LibraryDependency {
    LibraryDependency {
        name: name.to_string(),
        version: version.map(|v| v.to_string()),
        source_file: source.to_string(),
    }
}

#[test]
fn package_json_sections() {
    let content = r#"{
        "name": "app",
        "dependencies": {"react": "^18.0.0", "bar": "^1.0.0"},
        "devDependencies": {"jest": "29.0.0", "local": {"path": "x"}},
        "peerDependencies": [],
        "optionalDependencies": {"fsevents": "*"}
    }"#;
    let deps = parse_package_json(content, "web/package.json").unwrap();
    assert_eq!(
        deps,
        vec![
            lib("bar", Some("^1.0.0"), "web/package.json"),
            lib("react", Some("^18.0.0"), "web/package.json"),
            lib("jest", Some("29.0.0"), "web/package.json"),
            lib("local", None, "web/package.json"),
            lib("fsevents", Some("*"), "web/package.json"),
        ]
    );
    assert_eq!(parse_package_json("{}", "package.json"), Ok(vec![]));
}

#[test]
fn package_json_that_is_no_json_fails() {
    assert_eq!(parse_package_json("{not json", "package.json"), Err(ManifestError::PackageJson));
    assert_eq!(ManifestError::PackageJson.message(), "Failed to parse package.json");
}

#[test]
fn requirements_lines() {
    let content = "# comment\n\nflask==2.0.1\n  requests >= 2.25 ; python_version > '3'\nnumpy\n   # indented comment\nDjango~=4.2\n";
    let deps = parse_requirements_txt(content, "requirements.txt").unwrap();
    assert_eq!(
        deps,
        vec![
            lib("flask", Some("==2.0.1"), "requirements.txt"),
            lib("requests", Some(">= 2.25"), "requirements.txt"),
            lib("numpy", None, "requirements.txt"),
            lib("Django", Some("~=4.2"), "requirements.txt"),
        ]
    );
    assert_eq!(parse_requirements_txt("", "r"), Ok(vec![]));
}

#[test]
fn cargo_sections() {
    let content = r#"
[package]
name = "demo"
version = "0.1.0"

[dependencies]
serde = { version = "1.0", features = ["derive"] }
regex = "1"
# tokio = "1"
local = { path = "../local" }

[dev-dependencies]
mockito = "0.31"

[features]
default = "x"

[build-dependencies]
cc = "1.0"
"#;
    let deps = parse_cargo_toml(content, "Cargo.toml").unwrap();
    assert_eq!(
        deps,
        vec![
            lib("serde", Some("1.0"), "Cargo.toml"),
            lib("regex", Some("1"), "Cargo.toml"),
            lib("mockito", Some("0.31"), "Cargo.toml"),
            lib("cc", Some("1.0"), "Cargo.toml"),
        ]
    );
}

#[test]
fn go_requirements() {
    let content = "module example.com/x\n\ngo 1.21\n\nrequire github.com/pkg/errors v0.9.1\n\nrequire (\n\tgithub.com/gin-gonic/gin v1.9.0\n\tgolang.org/x/text v0.3.0 // indirect\n)\n\nreplace a b\n";
    let deps = parse_go_mod(content, "go.mod").unwrap();
    assert_eq!(
        deps,
        vec![
            lib("github.com/pkg/errors", Some("v0.9.1"), "go.mod"),
            lib("github.com/gin-gonic/gin", Some("v1.9.0"), "go.mod"),
            lib("golang.org/x/text", Some("v0.3.0"), "go.mod"),
        ]
    );
}

#[test]
fn manifest_names_and_skipped_entries() {
    assert_eq!(manifest_kind("package.json"), Some(ManifestKind::PackageJson));
    assert_eq!(manifest_kind("requirements.txt"), Some(ManifestKind::Requirements));
    assert_eq!(manifest_kind("Cargo.toml"), Some(ManifestKind::Cargo));
    assert_eq!(manifest_kind("go.mod"), Some(ManifestKind::GoMod));
    assert_eq!(manifest_kind("cargo.toml"), None);
    assert_eq!(manifest_kind("setup.py"), None);
    for name in [".git", ".env", "node_modules", "target", "dist", "build", "venv", "__pycache__"] {
        assert!(skips_entry(name), "{}", name);
    }
    for name in ["src", "builds", "targets", "", "a.b"] {
        assert!(!skips_entry(name), "{}", name);
    }
}

#[test]
fn libraries_are_sorted_by_name_and_equal_names_keep_their_order() {
    let sorted = sort_by_name(vec![
        lib("zlib", None, "a"),
        lib("alpha", Some("2"), "b"),
        lib("Zed", None, "c"),
        lib("alpha", Some("1"), "a"),
        lib("", None, "d"),
        lib("alp", None, "e"),
    ]);
    let order: Vec<(&str, &str)> =
        sorted.iter().map(|d| (d.name.as_str(), d.source_file.as_str())).collect();
    assert_eq!(order, vec![("", "d"), ("Zed", "c"), ("alp", "e"), ("alpha", "b"), ("alpha", "a"), ("zlib", "a")]);
    let mut names: Vec<String> = sorted.iter().map(|d| d.name.clone()).collect();
    let mut expected = names.clone();
    expected.sort();
    assert_eq!(names, expected);
    names.dedup();
    assert_eq!(names.len(), 5);
}

#[test]
fn the_catalog_holds_every_declaration_once_by_name() {
    let manifests = vec![
        ManifestFile {
            source_file: "web/package.json".to_string(),
            content: r#"{"dependencies": {"zod": "3", "bar": "^1.0.0"}, "devDependencies": {"bar": "^1.0.0"}}"#
                .to_string(),
        },
        ManifestFile { source_file: "notes.txt".to_string(), content: "flask==1".to_string() },
        ManifestFile { source_file: "api/requirements.txt".to_string(), content: "flask==1\nflask==1\n".to_string() },
        ManifestFile { source_file: "Cargo.toml".to_string(), content: "[dependencies]\nanyhow = \"1\"\n".to_string() },
        ManifestFile { source_file: "svc/go.mod".to_string(), content: "require a/b v1\n".to_string() },
    ];
    let deps = collect_library_dependencies(&manifests).unwrap();
    assert_eq!(
        deps,
        vec![
            lib("a/b", Some("v1"), "svc/go.mod"),
            lib("anyhow", Some("1"), "Cargo.toml"),
            lib("bar", Some("^1.0.0"), "web/package.json"),
            lib("flask", Some("==1"), "api/requirements.txt"),
            lib("zod", Some("3"), "web/package.json"),
        ]
    );
    assert_eq!(collect_library_dependencies(&[]), Ok(vec![]));
}

#[test]
fn one_unreadable_manifest_fails_the_catalog() {
    let manifests = vec![
        ManifestFile { source_file: "Cargo.toml".to_string(), content: "[dependencies]\na = \"1\"\n".to_string() },
        ManifestFile { source_file: "package.json".to_string(), content: "<html>".to_string() },
    ];
    assert_eq!(collect_library_dependencies(&manifests), Err(ManifestError::PackageJson));
}
