use ingestion_worker::neo4j_storage::{
    class_node_to_map, file_node_to_map, function_node_to_map, get_qualified_id,
    module_node_to_map,
};
use ingestion_worker::parsers::FunctionInfo;

#[test]
fn ingestion_worker_qualified_names_tests_test_qualified_id_generation() {
    let file = "src/main.rs";
    let name = "MyClass";
    // Verify format is file::name
    let expected = "src/main.rs::MyClass";

    assert_eq!(get_qualified_id(file, name), expected);
}

#[test]
fn test_qualified_id_consistency_across_files() {
    // Simulating cross-file reference
    let file1 = "src/users.rs";
    let class1 = "User";
    let id1 = get_qualified_id(file1, class1);

    let file2 = "src/auth.rs";
    let class2 = "AuthService";
    let id2 = get_qualified_id(file2, class2);

    assert_eq!(id1, "src/users.rs::User");
    assert_eq!(id2, "src/auth.rs::AuthService");

    // Ensure they are distinct
    assert_ne!(id1, id2);
}

#[test]
fn test_qualified_id_with_nested_paths() {
    let file = "apps/api/v1/handlers/user.rs";
    let func = "get_user";
    let id = get_qualified_id(file, func);

    assert_eq!(id, "apps/api/v1/handlers/user.rs::get_user");
}

#[test]
fn ingestion_worker_repo_id_tests_test_file_node_mapping_includes_repo_id() {
    let job_id = "job-123";
    let repo_id = "repo-456";
    let path = "src/main.rs";
    let language = "rust";

    let map = file_node_to_map(path, language, job_id, repo_id);

    assert_eq!(map.get("repo_id"), Some(&repo_id.to_string()));
    assert_eq!(map.get("job_id"), Some(&job_id.to_string()));
    assert_eq!(map.get("path"), Some(&path.to_string()));
    assert_eq!(map.get("id"), Some(&path.to_string()));
}

#[test]
fn ingestion_worker_repo_id_tests_test_module_node_mapping_includes_repo_id() {
    let job_id = "job-123";
    let repo_id = "repo-456";
    let name = "my_module";

    let map = module_node_to_map(name, job_id, repo_id);

    assert_eq!(map.get("repo_id"), Some(&repo_id.to_string()));
    assert_eq!(map.get("job_id"), Some(&job_id.to_string()));
    assert_eq!(map.get("name"), Some(&name.to_string()));
}

#[test]
fn ingestion_worker_repo_id_tests_test_function_node_keys_include_repo_id() {
    let job_id = "job-123";
    let repo_id = "repo-456";
    let file = "src/main.rs";

    let func = FunctionInfo {
        name: "my_func".to_string(),
        params: vec!["arg1".to_string()],
        return_type: Some("void".to_string()),
        calls: vec![],
        start_line: 10,
        end_line: 20,
    };

    let map = function_node_to_map(&func, file, job_id, repo_id);

    assert!(map.contains_key("repo_id"));
    assert!(map.contains_key("job_id"));
    assert!(map.contains_key("id"));
    assert!(map.contains_key("name"));
}

#[test]
fn ingestion_worker_repo_id_tests_test_class_node_keys_include_repo_id() {
    let job_id = "job-123";
    let repo_id = "repo-456";
    let file = "src/main.rs";
    let name = "MyClass";

    let map = class_node_to_map(name, file, 10, 20, job_id, repo_id);

    assert!(map.contains_key("repo_id"));
    assert!(map.contains_key("job_id"));
    assert!(map.contains_key("id"));
}

#[test]
fn neo4j_storage_test_file_node_mapping_includes_repo_id() {
    let job_id = "job-123";
    let repo_id = "repo-456";
    let path = "src/main.rs";
    let language = "rust";

    let map = file_node_to_map(path, language, job_id, repo_id);

    assert_eq!(map.get("repo_id"), Some(&repo_id.to_string()));
    assert_eq!(map.get("job_id"), Some(&job_id.to_string()));
    assert_eq!(map.get("path"), Some(&path.to_string()));
    assert_eq!(map.get("id"), Some(&path.to_string()));
}

#[test]
fn neo4j_storage_test_module_node_mapping_includes_repo_id() {
    let job_id = "job-123";
    let repo_id = "repo-456";
    let name = "my_module";

    let map = module_node_to_map(name, job_id, repo_id);

    assert_eq!(map.get("repo_id"), Some(&repo_id.to_string()));
    assert_eq!(map.get("job_id"), Some(&job_id.to_string()));
    assert_eq!(map.get("name"), Some(&name.to_string()));
}

#[test]
fn neo4j_storage_test_function_node_keys_include_repo_id() {
    let job_id = "job-123";
    let repo_id = "repo-456";
    let file = "src/main.rs";

    let func = FunctionInfo {
        name: "my_func".to_string(),
        params: vec!["arg1".to_string()],
        return_type: Some("void".to_string()),
        calls: vec![],
        start_line: 10,
        end_line: 20,
    };

    let map = function_node_to_map(&func, file, job_id, repo_id);

    assert!(map.contains_key("repo_id"));
    assert!(map.contains_key("job_id"));
    assert!(map.contains_key("id"));
    assert!(map.contains_key("name"));
}

#[test]
fn neo4j_storage_test_class_node_keys_include_repo_id() {
    let job_id = "job-123";
    let repo_id = "repo-456";
    let file = "src/main.rs";
    let name = "MyClass";

    let map = class_node_to_map(name, file, 10, 20, job_id, repo_id);

    assert!(map.contains_key("repo_id"));
    assert!(map.contains_key("job_id"));
    assert!(map.contains_key("id"));
}

#[test]
fn neo4j_storage_test_qualified_id_generation() {
    let file = "src/main.rs";
    let name = "MyClass";
    // Verify format is file::name
    let expected = "src/main.rs::MyClass";

    assert_eq!(get_qualified_id(file, name), expected);
}
