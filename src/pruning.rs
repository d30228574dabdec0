use vstd::prelude::*;

use crate::text::{
    chars_of, contains_seq, find, first_occurrence, has_prefix, matches_at, occurs_at, replace_all,
    replaced,
};

verus! {

/// The remote prefix in front of a remote-tracking branch name.
pub const ORIGIN: &'static str = "origin/";

/// How a fetch reports a remote-tracking branch that it pruned.
pub const DELETED: &'static str = " - [deleted]";

/// Display marker that starts red text.
pub const RED: &'static str = "\u{1b}[31m";

/// Display marker that resets the text style.
pub const RESET: &'static str = "\u{1b}[0m";

/// The remote prefix, as a text.
pub open spec fn origin_token() -> Seq<char> {
    seq!['o', 'r', 'i', 'g', 'i', 'n', '/']
}

/// The deleted-ref marker, as a text.
pub open spec fn deleted_marker() -> Seq<char> {
    seq![' ', '-', ' ', '[', 'd', 'e', 'l', 'e', 't', 'e', 'd', ']']
}

/// The start-red display marker, as a text.
pub open spec fn red_marker() -> Seq<char> {
    seq!['\u{1b}', '[', '3', '1', 'm']
}

/// The reset display marker, as a text.
pub open spec fn reset_marker() -> Seq<char> {
    seq!['\u{1b}', '[', '0', 'm']
}

/// The branch that a fetch output line reports as pruned: the line starts with
/// the deleted marker, and the branch is what follows the first remote prefix,
/// which must not be empty.
pub open spec fn pruned_branch(line: Seq<char>) -> Option<Seq<char>> {
    if has_prefix(line, deleted_marker()) && contains_seq(line, origin_token()) {
        let rest = line.skip(first_occurrence(line, origin_token()) + origin_token().len());
        if rest.len() > 0 {
            Some(rest)
        } else {
            None
        }
    } else {
        None
    }
}

/// `text` wrapped in the red and reset markers.
pub open spec fn red(text: Seq<char>) -> Seq<char> {
    red_marker() + text + reset_marker()
}

/// A fetch line with the pruned branch marked: every occurrence of the
/// remote-qualified name if there is one, else every occurrence of the bare name.
pub open spec fn highlighted_line(line: Seq<char>, branch: Seq<char>) -> Seq<char> {
    let remote = origin_token() + branch;
    if contains_seq(line, remote) {
        replaced(line, remote, red(remote))
    } else {
        replaced(line, branch, red(branch))
    }
}

/// The branch name that `s` reports as pruned, if it is such a line.
pub fn is_pruned_branch(s: String) -> (r: Option<String>)
    ensures
        match r {
            Some(b) => pruned_branch(s@) == Some(b@),
            None => pruned_branch(s@) is None,
        },
{
    proof {
        reveal_strlit(" - [deleted]");
        reveal_strlit("origin/");
    }
    assert(DELETED@ =~= deleted_marker());
    assert(ORIGIN@ =~= origin_token());
    let line = chars_of(s.as_str());
    let marker = chars_of(DELETED);
    let origin = chars_of(ORIGIN);
    if !matches_at(&line, &marker, 0) {
        return None;
    }
    match find(&line, &origin) {
        None => None,
        Some(ix) => {
            assert(occurs_at(line@, origin@, ix as int));
            assert(ix + origin.len() <= line.len());
            let start = ix + origin.len();
            if start == line.len() {
                None
            } else {
                let b = s.as_str().substring_char(start, line.len());
                Some(b.to_owned())
            }
        },
    }
}

/// `line` with the pruned `branch` highlighted: the remote-qualified name where
/// it occurs, otherwise the bare name.
pub fn highlight_pruned_branch_line(line: &str, branch: &str) -> (r: String)
    ensures
        r@ == highlighted_line(line@, branch@),
{
    proof {
        reveal_strlit("origin/");
        reveal_strlit("\u{1b}[31m");
        reveal_strlit("\u{1b}[0m");
    }
    assert(ORIGIN@ =~= origin_token());
    let mut remote = String::from_str(ORIGIN);
    remote.append(branch);
    assert(remote@ =~= origin_token() + branch@);
    let highlighted_remote = highlight_branch_name(remote.as_str());
    let line_chars = chars_of(line);
    let remote_chars = chars_of(remote.as_str());
    if find(&line_chars, &remote_chars).is_some() {
        replace_all(line, remote.as_str(), highlighted_remote.as_str())
    } else {
        let highlighted_branch = highlight_branch_name(branch);
        replace_all(line, branch, highlighted_branch.as_str())
    }
}

/// `branch` between the red and reset markers.
pub fn highlight_branch_name(branch: &str) -> (r: String)
    ensures
        r@ == red(branch@),
{
    proof {
        reveal_strlit("\u{1b}[31m");
        reveal_strlit("\u{1b}[0m");
    }
    assert(RED@ =~= red_marker());
    assert(RESET@ =~= reset_marker());
    let mut out = String::from_str(RED);
    out.append(branch);
    out.append(RESET);
    out
}

} // verus!

verus! {

/// A line that does not start with the deleted marker never reports a pruned
/// branch, and a reported branch is never empty.
pub proof fn lemma_unmarked_line_not_pruned(line: Seq<char>)
    ensures
        !has_prefix(line, deleted_marker()) ==> pruned_branch(line) is None,
        pruned_branch(line) matches Some(b) ==> b.len() > 0,
{
}

} // verus!
