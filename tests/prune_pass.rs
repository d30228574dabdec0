use loki_cli::git::{git_branches, git_current_branch};
use loki_cli::prune::{PruneCoordinator, PruneDecision, PruneSummary};

fn branches(names: &[&str]) -> loki_cli::git::BranchSet {
    git_branches(names.iter().map(|s| s.to_string()).collect())
}

#[test]
fn current_branch_is_never_deleted() {
    let mut pass = PruneCoordinator::new(branches(&["main", "topic"]), String::from("main"));
    let outcome = pass.on_line(String::from(" - [deleted]         (none)     -> origin/main"));
    assert!(matches!(outcome.decision, PruneDecision::SkipCurrent(ref b) if b == "main"));
    assert!(!pass.has_pending());
    match pass.summary() {
        PruneSummary::Pruned { deleted, failed, skipped_as_current } => {
            assert!(deleted.is_empty());
            assert!(failed.is_empty());
            assert_eq!(skipped_as_current, vec![String::from("main")]);
        }
        PruneSummary::NoPrunedBranches => panic!("a pruned branch was reported"),
    }
}

#[test]
fn unknown_branch_is_never_deleted() {
    let mut pass = PruneCoordinator::new(branches(&["main"]), String::from("main"));
    let outcome = pass.on_line(String::from(" - [deleted]         (none)     -> origin/gone"));
    assert!(matches!(outcome.decision, PruneDecision::NotLocal(ref b) if b == "gone"));
    assert!(!pass.has_pending());
}

#[test]
fn known_branch_is_deleted_and_failures_are_collected() {
    let mut pass = PruneCoordinator::new(branches(&["main", "a", "b"]), String::from("main"));
    let first = pass.on_line(String::from(" - [deleted]         (none)     -> origin/a"));
    assert!(matches!(first.decision, PruneDecision::Delete(ref b) if b == "a"));
    assert_eq!(
        first.display,
        " - [deleted]         (none)     -> \u{1b}[31morigin/a\u{1b}[0m"
    );
    assert_eq!(pass.record_deletion(false), "a");
    let second = pass.on_line(String::from(" - [deleted]         (none)     -> origin/b"));
    assert!(matches!(second.decision, PruneDecision::Delete(ref b) if b == "b"));
    assert_eq!(pass.record_deletion(true), "b");
    match pass.summary() {
        PruneSummary::Pruned { deleted, failed, skipped_as_current } => {
            assert_eq!(deleted, vec![String::from("b")]);
            assert_eq!(failed, vec![String::from("a")]);
            assert!(skipped_as_current.is_empty());
        }
        PruneSummary::NoPrunedBranches => panic!("pruned branches were reported"),
    }
}

#[test]
fn no_pruned_lines_is_reported_distinctly() {
    let mut pass = PruneCoordinator::new(branches(&["main"]), String::from("main"));
    let outcome = pass.on_line(String::from("From github.com:kyle-rader/loki-cli"));
    assert!(matches!(outcome.decision, PruneDecision::PassThrough));
    assert_eq!(outcome.display, "From github.com:kyle-rader/loki-cli");
    assert!(matches!(pass.summary(), PruneSummary::NoPrunedBranches));
}

#[test]
fn current_branch_is_first_line_trimmed() {
    let lines = vec![String::from("  feature/x \n"), String::from("ignored")];
    assert_eq!(git_current_branch(&lines), Ok(String::from("feature/x")));
    assert!(git_current_branch(&Vec::new()).is_err());
}

#[test]
fn branch_set_holds_every_line() {
    let set = branches(&["main", "topic"]);
    assert!(set.contains("main"));
    assert!(set.contains("topic"));
    assert!(!set.contains("other"));
}
