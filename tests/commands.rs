use loki_cli::commands::{
    commit_commands, history_args, new_branch_commands, no_hooks_args, push_args,
    rebase_commands, GitInvocation, NO_HOOKS,
};
use loki_cli::dates::Date;
use loki_cli::timerange::{resolve_time_range, RepoStatsOptions, TimeRange};

fn strings(v: &[&str]) -> Vec<String> {
    v.iter().map(|s| s.to_string()).collect()
}

fn shape(c: &GitInvocation) -> (String, Vec<String>) {
    (c.name.clone(), c.args.clone())
}

#[test]
fn no_hooks_prefixes_the_config() {
    assert_eq!(
        no_hooks_args(&strings(&["commit", "-m", "x"])),
        Ok(strings(&["-c", NO_HOOKS, "commit", "-m", "x"]))
    );
    assert_eq!(
        no_hooks_args(&Vec::new()),
        Err(String::from("command cannot be empty."))
    );
}

#[test]
fn rebase_fetches_then_rebases() {
    let c = rebase_commands("main", true);
    assert_eq!(
        shape(&c[0]),
        (
            String::from("fetch target"),
            strings(&["-c", NO_HOOKS, "fetch", "origin", "main:main"])
        )
    );
    assert_eq!(
        shape(&c[1]),
        (String::from("rebase"), strings(&["-c", NO_HOOKS, "rebase", "-i", "main"]))
    );
    let c = rebase_commands("dev", false);
    assert_eq!(c[1].args, strings(&["-c", NO_HOOKS, "rebase", "dev"]));
}

#[test]
fn commit_stages_and_joins_message() {
    let c = commit_commands(true, true, &strings(&["fix", "the", "bug"]));
    assert_eq!(c.len(), 2);
    assert_eq!(shape(&c[0]), (String::from("add files"), strings(&["add", "--update"])));
    assert_eq!(
        shape(&c[1]),
        (String::from("commit"), strings(&["commit", "--message", "fix the bug"]))
    );
    let c = commit_commands(false, false, &Vec::new());
    assert_eq!(c.len(), 1);
    assert_eq!(c[0].args, strings(&["commit", "--message", "lk commit"]));
    let c = commit_commands(true, false, &Vec::new());
    assert_eq!(c[0].args, strings(&["add", "--all"]));
}

#[test]
fn new_branch_joins_name_with_prefix() {
    let c = new_branch_commands(&strings(&["my", "topic"]), Some("kr/")).unwrap();
    assert_eq!(
        shape(&c[0]),
        (String::from("create new branch"), strings(&["switch", "--create", "kr/my-topic"]))
    );
    assert_eq!(
        shape(&c[1]),
        (
            String::from("push to origin"),
            strings(&["push", "--set-upstream", "origin", "kr/my-topic"])
        )
    );
    assert!(new_branch_commands(&Vec::new(), None).is_err());
}

#[test]
fn push_refuses_detached_head() {
    assert_eq!(
        push_args("topic", true),
        Ok(strings(&["push", "--set-upstream", "--force-with-lease", "origin", "topic"]))
    );
    assert_eq!(
        push_args("topic", false),
        Ok(strings(&["push", "--set-upstream", "origin", "topic"]))
    );
    assert!(push_args("HEAD", false).is_err());
    assert!(push_args("Head", false).is_err());
    assert!(push_args("heads", false).is_ok());
}

#[test]
fn history_query_is_bounded_by_the_window() {
    let unbounded: TimeRange = resolve_time_range(&RepoStatsOptions::default(), 0).unwrap();
    assert_eq!(
        history_args(&unbounded),
        strings(&["log", "--first-parent", "--pretty=format:%ct%x09%an%x09%ae", "HEAD"])
    );
    let mut o = RepoStatsOptions::default();
    o.from = Some(Date::from_ymd(1969, 12, 31).unwrap());
    o.to = Some(Date::from_ymd(1970, 1, 1).unwrap());
    let r = resolve_time_range(&o, 0).unwrap();
    assert_eq!(
        history_args(&r),
        strings(&[
            "log",
            "--first-parent",
            "--pretty=format:%ct%x09%an%x09%ae",
            "--since=@-86400",
            "--until=@86399",
            "HEAD"
        ])
    );
}
