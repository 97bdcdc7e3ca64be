use ingestion_worker::transaction::{after_statement, next_action, start, Action, Progress};

fn run(plan_len: usize, fails_at: Option<usize>) -> Vec<Action> {
    let mut actions = Vec::new();
    let mut progress = start();
    loop {
        let action = next_action(plan_len, progress);
        actions.push(action);
        match action {
            Action::Run(at) => progress = after_statement(progress, fails_at != Some(at)),
            _ => return actions,
        }
    }
}

#[test]
fn a_run_without_failure_commits_once_after_the_last_statement() {
    assert_eq!(run(3, None), vec![Action::Run(0), Action::Run(1), Action::Run(2), Action::Commit]);
    assert_eq!(run(0, None), vec![Action::Commit]);
    assert_eq!(run(2, Some(5)), vec![Action::Run(0), Action::Run(1), Action::Commit]);
}

#[test]
fn the_first_failure_ends_the_run_with_a_rollback() {
    assert_eq!(run(4, Some(1)), vec![Action::Run(0), Action::Run(1), Action::Rollback]);
    assert_eq!(run(4, Some(0)), vec![Action::Run(0), Action::Rollback]);
    assert_eq!(run(4, Some(3)), vec![Action::Run(0), Action::Run(1), Action::Run(2), Action::Run(3), Action::Rollback]);
}

#[test]
fn progress_counts_statements_and_remembers_the_last_outcome() {
    assert_eq!(start(), Progress { done: 0, failed: false });
    assert_eq!(after_statement(start(), true), Progress { done: 1, failed: false });
    assert_eq!(after_statement(Progress { done: 7, failed: false }, false), Progress { done: 8, failed: true });
    assert_eq!(next_action(9, Progress { done: 8, failed: true }), Action::Rollback);
    assert_eq!(next_action(9, Progress { done: 8, failed: false }), Action::Run(8));
    assert_eq!(next_action(8, Progress { done: 8, failed: false }), Action::Commit);
}
