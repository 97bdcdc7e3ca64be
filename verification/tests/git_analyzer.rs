use ingestion_worker::git_analyzer::{
    is_code_file, sort_by_commits, CommitData, ContributorInfo, FileStats, GitAnalyzer, LineChange,
};

#[test]
fn test_is_code_file() {
    assert!(is_code_file("src/main.rs"));
    assert!(is_code_file("app.js"));
    assert!(is_code_file("component.tsx"));
    assert!(!is_code_file("README.md"));
    assert!(!is_code_file("package.json"));
    assert!(!is_code_file(".gitignore"));
}

#[test]
fn every_listed_extension_is_code() {
    for ext in [
        ".rs", ".go", ".py", ".js", ".ts", ".tsx", ".jsx", ".java", ".c", ".cpp", ".h", ".hpp",
        ".cs", ".rb", ".php", ".swift", ".kt", ".scala",
    ] {
        assert!(is_code_file(&format!("dir/file{}", ext)), "{}", ext);
    }
    assert!(is_code_file(".rs"));
    assert!(!is_code_file("rs"));
    assert!(!is_code_file("file.RS"));
    assert!(!is_code_file(""));
}

fn commit(sha: &str, email: Option<&str>, time: i64, paths: &[&str], lines: &[(&str, char)]) -> CommitData {
    CommitData {
        sha: sha.to_string(),
        author_email: email.map(|e| e.to_string()),
        author_name: email.map(|e| e.split('@').next().unwrap().to_string()),
        message: Some(format!("  change {}  \n", sha)),
        time,
        changed_paths: paths.iter().map(|p| p.to_string()).collect(),
        line_changes: lines
            .iter()
            .map(|(p, o)| LineChange { path: p.to_string(), origin: *o })
            .collect(),
    }
}

#[test]
fn file_stats_count_commits_and_lines() {
    let mut stats = FileStats::new();
    assert_eq!(stats.commit_count, 0);
    assert_eq!(stats.last_modified, 0);
    stats.update_from_commit("a@x", "a", 100);
    stats.update_from_commit("b@x", "b", 50);
    stats.update_from_commit("b@x", "b", 200);
    stats.add_lines("a@x", 3);
    stats.delete_lines("b@x", 2);
    stats.add_lines("nobody@x", 9);
    assert_eq!(stats.commit_count, 3);
    assert_eq!(stats.last_modified, 200);
    assert_eq!(stats.contributors.len(), 2);
    assert_eq!(stats.contributors[0].email, "a@x");
    assert_eq!(stats.contributors[0].commit_count, 1);
    assert_eq!(stats.contributors[0].lines_added, 3);
    assert_eq!(stats.contributors[1].commit_count, 2);
    assert_eq!(stats.contributors[1].lines_deleted, 2);

    let contribution = stats.to_contribution("src/a.rs".to_string());
    assert_eq!(contribution.file_path, "src/a.rs");
    assert_eq!(contribution.commit_count, 3);
    assert_eq!(contribution.last_modified, 200);
    assert_eq!(contribution.primary_author, "b@x");
    assert_eq!(contribution.contributors[0].email, "b@x");
    assert_eq!(contribution.contributors[1].email, "a@x");
    assert_eq!(contribution.lines_added_total, 3);
    assert_eq!(contribution.lines_deleted_total, 2);
    assert_eq!(contribution.lines_changed_total, 5);
}

#[test]
fn a_file_without_contributors_has_an_unknown_primary_author() {
    let contribution = FileStats::new().to_contribution("x.rs".to_string());
    assert_eq!(contribution.primary_author, "unknown");
    assert!(contribution.contributors.is_empty());
    assert_eq!(contribution.lines_changed_total, 0);
}

#[test]
fn contributors_are_sorted_by_commits_and_ties_keep_their_order() {
    let make = |email: &str, commits: usize| ContributorInfo {
        email: email.to_string(),
        name: email.to_string(),
        commit_count: commits,
        lines_added: 0,
        lines_deleted: 0,
    };
    let sorted = sort_by_commits(vec![make("a", 1), make("b", 3), make("c", 1), make("d", 3), make("e", 2)]);
    let order: Vec<&str> = sorted.iter().map(|c| c.email.as_str()).collect();
    assert_eq!(order, vec!["b", "d", "e", "a", "c"]);
    for pair in sorted.windows(2) {
        assert!(pair[0].commit_count >= pair[1].commit_count);
    }
}

#[test]
fn line_totals_stop_at_the_largest_count() {
    let mut stats = FileStats::new();
    stats.update_from_commit("a@x", "a", 1);
    stats.update_from_commit("b@x", "b", 1);
    stats.add_lines("a@x", usize::MAX);
    stats.add_lines("b@x", 5);
    let contribution = stats.to_contribution("x.rs".to_string());
    assert_eq!(contribution.lines_added_total, usize::MAX);
    assert_eq!(contribution.lines_changed_total, usize::MAX);
}

#[test]
fn history_with_an_initial_commit_only() {
    let analyzer = GitAnalyzer::new(vec![commit(
        "c1",
        Some("ann@x"),
        1000,
        &["src/main.rs", "README.md", "src/lib.rs"],
        &[("src/main.rs", '+'), ("src/main.rs", '+'), ("README.md", '+'), ("src/lib.rs", '+'), ("src/lib.rs", ' ')],
    )]);
    let result = analyzer.analyze_contributions();
    assert_eq!(result.total_commits, 1);
    assert_eq!(result.total_contributors, 1);
    assert_eq!(result.commits.len(), 1);
    assert_eq!(result.commits[0].sha, "c1");
    assert_eq!(result.commits[0].message, "change c1");
    assert_eq!(result.commits[0].author_email, "ann@x");
    assert_eq!(result.commits[0].author_name, "ann");
    assert_eq!(result.commits[0].authored_at, 1000);
    assert_eq!(result.commits[0].files_changed_count, 2);
    assert_eq!(
        result.commits[0].changed_files,
        vec!["src/main.rs".to_string(), "src/lib.rs".to_string()]
    );
    assert_eq!(result.files.len(), 2);
    assert!(!result.files.contains_key("README.md"));
    let main = result.files.get("src/main.rs").unwrap();
    assert_eq!(main.commit_count, 1);
    assert_eq!(main.lines_added_total, 2);
    assert_eq!(main.lines_deleted_total, 0);
    assert_eq!(main.primary_author, "ann@x");
    assert_eq!(main.last_modified, 1000);
    let lib = result.files.get("src/lib.rs").unwrap();
    assert_eq!(lib.lines_added_total, 1);
}

#[test]
fn history_counts_every_commit_but_keeps_only_the_latest_records() {
    let commits = vec![
        commit("c3", Some("bob@x"), 300, &["a.rs"], &[("a.rs", '+'), ("a.rs", '-')]),
        commit("c2", None, 200, &["a.rs", "b.py"], &[("b.py", '+')]),
        commit("c1", Some("bob@x"), 100, &["a.rs"], &[("a.rs", '+')]),
    ];
    let analyzer = GitAnalyzer::new(commits);
    let result = analyzer.analyze_contributions_with_limit(2);
    assert_eq!(result.total_commits, 3);
    assert_eq!(result.total_contributors, 2);
    assert_eq!(result.commits.len(), 2);
    assert_eq!(result.commits[0].sha, "c3");
    assert_eq!(result.commits[1].sha, "c2");
    assert_eq!(result.commits[1].author_email, "unknown");
    assert_eq!(result.commits[1].author_name, "unknown");
    let a = result.files.get("a.rs").unwrap();
    assert_eq!(a.commit_count, 3);
    assert_eq!(a.last_modified, 300);
    assert_eq!(a.primary_author, "bob@x");
    assert_eq!(a.contributors.len(), 2);
    assert_eq!(a.contributors[0].commit_count, 2);
    assert_eq!(a.contributors[0].lines_added, 2);
    assert_eq!(a.contributors[0].lines_deleted, 1);
    assert_eq!(a.contributors[1].email, "unknown");
    assert_eq!(a.lines_changed_total, 3);
    let b = result.files.get("b.py").unwrap();
    assert_eq!(b.commit_count, 1);
    assert_eq!(b.primary_author, "unknown");
    assert_eq!(b.lines_added_total, 1);

    let none = analyzer.analyze_contributions_with_limit(0);
    assert_eq!(none.total_commits, 3);
    assert!(none.commits.is_empty());
}

#[test]
fn an_empty_history_has_no_metrics() {
    let result = GitAnalyzer::new(vec![]).analyze_contributions();
    assert_eq!(result.total_commits, 0);
    assert_eq!(result.total_contributors, 0);
    assert_eq!(result.files.len(), 0);
    assert!(result.commits.is_empty());
}
