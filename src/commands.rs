use vstd::prelude::*;

use crate::text::{join, joined, signed_decimal, signed_decimal_text, string_texts};
use crate::timerange::TimeRange;

verus! {

/// Git configuration that disables every hook.
pub const NO_HOOKS: &'static str = "core.hooksPath=/dev/null";

/// One git invocation: what it is for, and its arguments.
pub struct GitInvocation {
    pub name: String,
    pub args: Vec<String>,
}

/// A `GitInvocation` as texts.
pub open spec fn invocation(g: GitInvocation) -> (Seq<char>, Seq<Seq<char>>) {
    (g.name@, string_texts(g.args@))
}

/// Arguments that run `command` with hooks disabled.
pub fn no_hooks_args(command: &Vec<String>) -> (r: Result<Vec<String>, String>)
    ensures
        match r {
            Ok(a) => command@.len() > 0 && string_texts(a@) == seq!["-c"@, NO_HOOKS@]
                + string_texts(command@),
            Err(e) => command@.len() == 0 && e@ == "command cannot be empty."@,
        },
{
    if command.len() == 0 {
        return Err(String::from_str("command cannot be empty."));
    }
    let mut args: Vec<String> = vec![String::from_str("-c"), String::from_str(NO_HOOKS)];
    let mut i: usize = 0;
    while i < command.len()
        invariant
            i <= command@.len(),
            string_texts(args@) =~= seq!["-c"@, NO_HOOKS@] + string_texts(command@).take(i as int),
        decreases command.len() - i,
    {
        let word = command[i].clone();
        let ghost before = args@;
        args.push(word);
        assert(string_texts(args@) =~= string_texts(before).push(command@[i as int]@));
        assert(string_texts(command@).take(i + 1) =~= string_texts(command@).take(i as int).push(
            command@[i as int]@,
        ));
        i = i + 1;
    }
    assert(string_texts(command@).take(i as int) =~= string_texts(command@));
    Ok(args)
}

/// Fetch `target` from origin into the local branch of that name, then rebase
/// onto it (interactively if asked), both with hooks disabled.
pub fn rebase_commands(target: &str, interactive: bool) -> (r: Vec<GitInvocation>)
    ensures
        r@.len() == 2,
        invocation(r@[0]) == ("fetch target"@, seq![
            "-c"@,
            NO_HOOKS@,
            "fetch"@,
            "origin"@,
            target@ + ":"@ + target@,
        ]),
        invocation(r@[1]) == ("rebase"@, seq!["-c"@, NO_HOOKS@, "rebase"@] + (if interactive {
            seq!["-i"@]
        } else {
            Seq::empty()
        }) + seq![target@]),
{
    let mut refspec = String::from_str(target);
    refspec.append(":");
    refspec.append(target);
    let fetch = GitInvocation {
        name: String::from_str("fetch target"),
        args: vec![
            String::from_str("-c"),
            String::from_str(NO_HOOKS),
            String::from_str("fetch"),
            String::from_str("origin"),
            refspec,
        ],
    };
    let mut args: Vec<String> = vec![
        String::from_str("-c"),
        String::from_str(NO_HOOKS),
        String::from_str("rebase"),
    ];
    if interactive {
        args.push(String::from_str("-i"));
    }
    args.push(String::from_str(target));
    let rebase = GitInvocation { name: String::from_str("rebase"), args };
    let r = vec![fetch, rebase];
    assert(invocation(r@[0]).1 =~= seq!["-c"@, NO_HOOKS@, "fetch"@, "origin"@, target@ + ":"@ + target@]);
    assert(invocation(r@[1]).1 =~= seq!["-c"@, NO_HOOKS@, "rebase"@] + (if interactive {
        seq!["-i"@]
    } else {
        Seq::empty()
    }) + seq![target@]);
    r
}

/// The commit message: the words joined by spaces, or a default.
pub open spec fn commit_message(message: Seq<Seq<char>>) -> Seq<char> {
    if message.len() == 0 {
        "lk commit"@
    } else {
        joined(message, " "@)
    }
}

/// Stage files if asked (`--update` wins over `--all`), then commit.
pub fn commit_commands(all: bool, update: bool, message: &Vec<String>) -> (r: Vec<GitInvocation>)
    ensures
        r@.len() == (if update || all { 2int } else { 1int }),
        update ==> invocation(r@[0]) == ("add files"@, seq!["add"@, "--update"@]),
        !update && all ==> invocation(r@[0]) == ("add files"@, seq!["add"@, "--all"@]),
        invocation(r@[r@.len() - 1]) == ("commit"@, seq![
            "commit"@,
            "--message"@,
            commit_message(string_texts(message@)),
        ]),
{
    let text = if message.len() == 0 {
        String::from_str("lk commit")
    } else {
        join(message, " ")
    };
    let mut commands: Vec<GitInvocation> = Vec::new();
    if update {
        commands.push(
            GitInvocation {
                name: String::from_str("add files"),
                args: vec![String::from_str("add"), String::from_str("--update")],
            },
        );
    } else if all {
        commands.push(
            GitInvocation {
                name: String::from_str("add files"),
                args: vec![String::from_str("add"), String::from_str("--all")],
            },
        );
    }
    let ghost before = commands@;
    commands.push(
        GitInvocation {
            name: String::from_str("commit"),
            args: vec![String::from_str("commit"), String::from_str("--message"), text],
        },
    );
    proof {
        if update || all {
            assert(commands@[0] == before[0]);
            assert(invocation(commands@[0]).1 =~= seq!["add"@, if update {
                "--update"@
            } else {
                "--all"@
            }]);
        }
        assert(invocation(commands@[commands@.len() - 1]).1 =~= seq![
            "commit"@,
            "--message"@,
            commit_message(string_texts(message@)),
        ]);
    }
    commands
}

/// The name of a new branch: the optional prefix, then the words joined by dashes.
pub open spec fn branch_name(name: Seq<Seq<char>>, prefix: Option<Seq<char>>) -> Seq<char> {
    match prefix {
        Some(p) => p + joined(name, "-"@),
        None => joined(name, "-"@),
    }
}

/// Create a branch from the words of `name` (after `prefix`) and push it to
/// origin, tracking it.
pub fn new_branch_commands(name: &Vec<String>, prefix: Option<&str>) -> (r: Result<
    Vec<GitInvocation>,
    String,
>)
    ensures
        match r {
            Ok(c) => {
                let b = branch_name(
                    string_texts(name@),
                    match prefix {
                        Some(p) => Some(p@),
                        None => None,
                    },
                );
                &&& name@.len() > 0
                &&& c@.len() == 2
                &&& invocation(c@[0]) == ("create new branch"@, seq!["switch"@, "--create"@, b])
                &&& invocation(c@[1]) == ("push to origin"@, seq![
                    "push"@,
                    "--set-upstream"@,
                    "origin"@,
                    b,
                ])
            },
            Err(e) => name@.len() == 0 && e@ == "name cannot be empty."@,
        },
{
    if name.len() == 0 {
        return Err(String::from_str("name cannot be empty."));
    }
    let joined_name = join(name, "-");
    let branch = match prefix {
        Some(p) => {
            let mut b = String::from_str(p);
            b.append(joined_name.as_str());
            b
        },
        None => joined_name,
    };
    let create = GitInvocation {
        name: String::from_str("create new branch"),
        args: vec![String::from_str("switch"), String::from_str("--create"), branch.clone()],
    };
    let push = GitInvocation {
        name: String::from_str("push to origin"),
        args: vec![
            String::from_str("push"),
            String::from_str("--set-upstream"),
            String::from_str("origin"),
            branch,
        ],
    };
    let r = vec![create, push];
    let ghost b = branch_name(
        string_texts(name@),
        match prefix {
            Some(p) => Some(p@),
            None => None,
        },
    );
    assert(invocation(r@[0]).1 =~= seq!["switch"@, "--create"@, b]);
    assert(invocation(r@[1]).1 =~= seq!["push"@, "--set-upstream"@, "origin"@, b]);
    Ok(r)
}

/// `HEAD` in any letter case: what the current branch reads as when detached.
pub open spec fn is_detached_head(s: Seq<char>) -> bool {
    &&& s.len() == 4
    &&& (s[0] == 'h' || s[0] == 'H')
    &&& (s[1] == 'e' || s[1] == 'E')
    &&& (s[2] == 'a' || s[2] == 'A')
    &&& (s[3] == 'd' || s[3] == 'D')
}

/// Arguments that push `current_branch` to origin, tracking it, with
/// `--force-with-lease` if forced; a detached HEAD has nothing to push.
pub fn push_args(current_branch: &str, force: bool) -> (r: Result<Vec<String>, String>)
    ensures
        match r {
            Ok(a) => !is_detached_head(current_branch@) && string_texts(a@) == seq![
                "push"@,
                "--set-upstream"@,
            ] + (if force {
                seq!["--force-with-lease"@]
            } else {
                Seq::empty()
            }) + seq!["origin"@, current_branch@],
            Err(e) => is_detached_head(current_branch@) && e@
                == "HEAD is currently detached, no branch to push!"@,
        },
{
    let cs = crate::text::chars_of(current_branch);
    if cs.len() == 4 && (cs[0] == 'h' || cs[0] == 'H') && (cs[1] == 'e' || cs[1] == 'E') && (cs[2]
        == 'a' || cs[2] == 'A') && (cs[3] == 'd' || cs[3] == 'D') {
        return Err(String::from_str("HEAD is currently detached, no branch to push!"));
    }
    let mut args: Vec<String> = vec![String::from_str("push"), String::from_str("--set-upstream")];
    if force {
        args.push(String::from_str("--force-with-lease"));
    }
    args.push(String::from_str("origin"));
    args.push(String::from_str(current_branch));
    assert(string_texts(args@) =~= seq!["push"@, "--set-upstream"@] + (if force {
        seq!["--force-with-lease"@]
    } else {
        Seq::empty()
    }) + seq!["origin"@, current_branch@]);
    Ok(args)
}

/// The history query of a statistics run: first-parent commits as
/// `<timestamp>\t<name>\t<email>` lines, bounded by the window.
pub open spec fn history_query(range: crate::timerange::RangeModel) -> Seq<Seq<char>> {
    seq!["log"@, "--first-parent"@, "--pretty=format:%ct%x09%an%x09%ae"@] + (match range.start_ts {
        Some(s) => seq!["--since=@"@ + signed_decimal_text(s)],
        None => Seq::empty(),
    }) + (if range.end_is_latest {
        Seq::empty()
    } else {
        seq!["--until=@"@ + signed_decimal_text(range.end_ts)]
    }) + seq!["HEAD"@]
}

/// Arguments of the history query for `range`.
pub fn history_args(range: &TimeRange) -> (r: Vec<String>)
    ensures
        string_texts(r@) == history_query(range@),
{
    let mut args: Vec<String> = vec![
        String::from_str("log"),
        String::from_str("--first-parent"),
        String::from_str("--pretty=format:%ct%x09%an%x09%ae"),
    ];
    if let Some(start) = range.start_ts {
        let mut a = String::from_str("--since=@");
        a.append(signed_decimal(start).as_str());
        args.push(a);
    }
    if !range.end_is_latest {
        let mut a = String::from_str("--until=@");
        a.append(signed_decimal(range.end_ts).as_str());
        args.push(a);
    }
    args.push(String::from_str("HEAD"));
    assert(string_texts(args@) =~= history_query(range@));
    args
}

} // verus!
