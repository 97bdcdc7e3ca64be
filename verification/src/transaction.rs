//! The protocol of one storing transaction: which statement of a plan runs
//! next, and when the transaction is committed or rolled back.
//!
//! Whoever talks to the graph store starts one transaction, asks
//! `next_action` what to do, does it, and reports with `after_statement`
//! how a statement went. The first failure ends the run.

use vstd::prelude::*;

verus! {

/// What the runner of a plan does next.
#[derive(Debug, Clone, Copy, PartialEq, Eq, Structural)]
pub enum Action {
    /// Run the statement at this position of the plan.
    Run(usize),
    /// Every statement ran: commit the transaction; the plan is stored.
    Commit,
    /// A statement failed: roll the transaction back and report its
    /// failure; nothing of the plan is stored.
    Rollback,
}

/// How far a run has come: how many statements ran, and whether the last
/// of them failed.
#[derive(Debug, Clone, Copy, PartialEq, Eq, Structural)]
pub struct Progress {
    pub done: usize,
    pub failed: bool,
}

/// What the runner does next: after a failure it rolls back; while
/// statements are left it runs the next one; after the last it commits.
pub open spec fn action_of(plan_len: int, done: int, failed: bool) -> Action {
    if failed {
        Action::Rollback
    } else if done < plan_len {
        Action::Run(done as usize)
    } else {
        Action::Commit
    }
}

/// The actions of a run from a point on, when the statement at `fails_at`
/// fails and no other does.
pub open spec fn run_from(plan_len: int, done: int, failed: bool, fails_at: Option<int>) -> Seq<Action>
    decreases plan_len - done,
{
    if failed {
        seq![Action::Rollback]
    } else if done < plan_len {
        seq![Action::Run(done as usize)] + run_from(
            plan_len,
            done + 1,
            fails_at == Some(done),
            fails_at,
        )
    } else {
        seq![Action::Commit]
    }
}

/// The start of a run: nothing ran, nothing failed.
pub fn start() -> (progress: Progress)
    ensures
        progress == (Progress { done: 0, failed: false }),
{
    Progress { done: 0, failed: false }
}

/// What the runner of a plan of `plan_len` statements does next.
pub fn next_action(plan_len: usize, progress: Progress) -> (action: Action)
    ensures
        action == action_of(plan_len as int, progress.done as int, progress.failed),
{
    if progress.failed {
        Action::Rollback
    } else if progress.done < plan_len {
        Action::Run(progress.done)
    } else {
        Action::Commit
    }
}

/// The progress after one more statement ran. The count stops at the
/// largest number.
pub fn after_statement(progress: Progress, succeeded: bool) -> (next: Progress)
    ensures
        next.failed == !succeeded,
        next.done == if progress.done < usize::MAX {
            progress.done + 1
        } else {
            progress.done as int
        },
{
    if progress.done < usize::MAX {
        Progress { done: progress.done + 1, failed: !succeeded }
    } else {
        Progress { done: progress.done, failed: !succeeded }
    }
}

proof fn lemma_run_from(plan_len: int, done: int, fails_at: Option<int>)
    requires
        0 <= done <= plan_len <= usize::MAX,
        fails_at matches Some(k) ==> done <= k,
    ensures
        ({
            let run = run_from(plan_len, done, false, fails_at);
            let stops = match fails_at {
                Some(k) => if k < plan_len {
                    k + 1
                } else {
                    plan_len
                },
                None => plan_len,
            };
            &&& run.len() == stops - done + 1
            &&& forall|j: int| 0 <= j < stops - done ==> run[j] == Action::Run((done + j) as usize)
            &&& run.last() == if fails_at matches Some(k) && k < plan_len {
                Action::Rollback
            } else {
                Action::Commit
            }
        }),
    decreases plan_len - done,
{
    if done < plan_len {
        let rest = run_from(plan_len, done + 1, fails_at == Some(done), fails_at);
        let run = run_from(plan_len, done, false, fails_at);
        assert(run == seq![Action::Run(done as usize)] + rest);
        if fails_at == Some(done) {
            assert(rest == seq![Action::Rollback]);
            assert(run.last() == Action::Rollback);
        } else {
            lemma_run_from(plan_len, done + 1, fails_at);
            let stops = match fails_at {
                Some(k) => if k < plan_len {
                    k + 1
                } else {
                    plan_len
                },
                None => plan_len,
            };
            assert forall|j: int| 0 <= j < stops - done implies run[j] == Action::Run(
                (done + j) as usize,
            ) by {
                if j > 0 {
                    assert(run[j] == rest[j - 1]);
                }
            }
            assert(run.last() == rest.last());
        }
    }
}

/// A run does all writes of a job in one transaction that ends once: the
/// statements run in the order of the plan; when none fails, the last
/// action is the one commit and nothing is rolled back; when the statement
/// at `k` fails, no later statement runs, the last action is the one
/// rollback, and nothing is committed.
pub proof fn law_a_run_ends_once(plan_len: int, fails_at: Option<int>)
    requires
        0 <= plan_len <= usize::MAX,
        fails_at matches Some(k) ==> 0 <= k,
    ensures
        ({
            let run = run_from(plan_len, 0, false, fails_at);
            let stops = match fails_at {
                Some(k) => if k < plan_len {
                    k + 1
                } else {
                    plan_len
                },
                None => plan_len,
            };
            &&& run.len() == stops + 1
            &&& forall|j: int| 0 <= j < stops ==> run[j] == Action::Run(j as usize)
            &&& run.last() == if fails_at matches Some(k) && k < plan_len {
                Action::Rollback
            } else {
                Action::Commit
            }
        }),
{
    lemma_run_from(plan_len, 0, fails_at);
}

} // verus!
