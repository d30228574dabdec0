use loki_cli::fetch_line::FetchLine;
use loki_cli::pruning::{highlight_branch_name, highlight_pruned_branch_line, is_pruned_branch};

#[test]
fn try_from_pruned_line() {
    let line = String::from(" - [deleted]         (none)     -> origin/command-push");

    let subject = FetchLine::try_from(line);
    assert_eq!(subject, Ok(FetchLine::Pruned(String::from("command-push"))));
}

#[test]
fn from_pruned_line() {
    let subject = is_pruned_branch(String::from(
        " - [deleted]         (none)     -> origin/command-push",
    ));
    assert_eq!(subject, Some(String::from("command-push")));
}

fn assert_not_pruned(input: &str) {
    let line = String::from(input);
    let subject = is_pruned_branch(line);
    assert_eq!(subject, None);
}

#[test]
fn from_not_pruned_enumerating() {
    assert_not_pruned("remote: Enumerating objects: 81, done.");
}

#[test]
fn from_not_pruned_counting() {
    assert_not_pruned("remote: Counting objects: 100% (81/81), done.");
}

#[test]
fn from_not_pruned_compressing() {
    assert_not_pruned("remote: Compressing objects: 100% (41/41), done.");
}

#[test]
fn from_not_pruned_total() {
    assert_not_pruned("remote: Total 70 (delta 30), reused 57 (delta 21), pack-reused 0");
}

#[test]
fn from_not_pruned_unpacking() {
    assert_not_pruned("Unpacking objects: 100% (70/70), 17.12 KiB | 36.00 KiB/s, done.");
}

#[test]
fn from_not_pruned_from_remote() {
    assert_not_pruned("From github.com:kyle-rader/loki-cli");
}

#[test]
fn from_not_pruned_ref_update() {
    assert_not_pruned("   01c2f3a..e4b40f0  main       -> origin/main");
}

#[test]
fn from_not_pruned_new_tag() {
    assert_not_pruned(" * [new tag]         loki-cli-0.2.0 -> loki-cli-0.2.0");
}

#[test]
fn marker_without_remote_prefix_is_not_pruned() {
    assert_not_pruned(" - [deleted]         (none)     -> upstream/topic");
}

#[test]
fn marker_with_empty_branch_is_not_pruned() {
    assert_not_pruned(" - [deleted]         (none)     -> origin/");
}

#[test]
fn branch_is_taken_after_first_remote_prefix() {
    let subject = is_pruned_branch(String::from(" - [deleted] (none) -> origin/origin/x"));
    assert_eq!(subject, Some(String::from("origin/x")));
}

#[test]
fn classify_other_line_is_not_pruned() {
    let subject = FetchLine::try_from(String::from("From github.com:kyle-rader/loki-cli"));
    assert_eq!(subject, Ok(FetchLine::NotPruned));
}

#[test]
fn highlights_remote_branch_in_line() {
    let line = " - [deleted]         (none)     -> origin/command-push";
    let highlighted = highlight_pruned_branch_line(line, "command-push");
    assert!(
        highlighted.contains("\u{1b}[31morigin/command-push\u{1b}[0m"),
        "{highlighted} did not highlight the remote branch"
    );
}

#[test]
fn highlight_wraps_only_the_remote_qualified_name() {
    let line = "command-push -> origin/command-push";
    let highlighted = highlight_pruned_branch_line(line, "command-push");
    assert_eq!(
        highlighted,
        "command-push -> \u{1b}[31morigin/command-push\u{1b}[0m"
    );
}

#[test]
fn highlight_falls_back_to_bare_name() {
    let highlighted = highlight_pruned_branch_line("deleted topic here", "topic");
    assert_eq!(highlighted, "deleted \u{1b}[31mtopic\u{1b}[0m here");
}

#[test]
fn highlights_branch_name() {
    let highlighted = highlight_branch_name("feature/example");
    assert_eq!(highlighted, "\u{1b}[31mfeature/example\u{1b}[0m");
}

#[test]
fn try_from_marker_without_remote_is_not_pruned() {
    let subject = FetchLine::try_from(String::from(" - [deleted]         (none)     -> upstream/x"));
    assert_eq!(subject, Ok(FetchLine::NotPruned));
}
