use vstd::prelude::*;

use crate::authors::StringHashMap;
use crate::text::{trim_of, trim_str};

verus! {

/// The local branch names known when a pruning pass starts.
pub struct BranchSet {
    names: StringHashMap<()>,
}

impl View for BranchSet {
    type V = Set<Seq<char>>;

    closed spec fn view(&self) -> Set<Seq<char>> {
        self.names@.dom()
    }
}

impl BranchSet {
    /// Whether `name` is a known branch.
    pub fn contains(&self, name: &str) -> (r: bool)
        ensures
            r == self@.contains(name@),
    {
        self.names.contains_key(name)
    }
}

/// The texts of a list of lines, as a set.
pub open spec fn line_set(lines: Seq<String>) -> Set<Seq<char>> {
    Set::new(|t: Seq<char>| exists|i: int| 0 <= i < lines.len() && lines[i]@ == t)
}

/// The current branch, from the output of `rev-parse --abbrev-ref HEAD`: its
/// first line, trimmed.
pub fn git_current_branch(lines: &Vec<String>) -> (r: Result<String, String>)
    ensures
        match r {
            Ok(b) => lines@.len() > 0 && b@ == trim_of(lines@[0]@),
            Err(e) => lines@.len() == 0 && e@ == "No output from git rev-parse"@,
        },
{
    if lines.len() == 0 {
        return Err(String::from_str("No output from git rev-parse"));
    }
    Ok(trim_str(lines[0].as_str()).to_owned())
}

/// The set of local branches, from the output of `branch --format=%(refname:short)`:
/// one name per line.
pub fn git_branches(lines: Vec<String>) -> (r: BranchSet)
    ensures
        r@ == line_set(lines@),
{
    let mut names: StringHashMap<()> = StringHashMap::new();
    let mut i: usize = 0;
    while i < lines.len()
        invariant
            i <= lines@.len(),
            names@.dom() =~= Set::new(
                |t: Seq<char>| exists|j: int| 0 <= j < i && lines@[j]@ == t,
            ),
        decreases lines.len() - i,
    {
        names.insert(lines[i].clone(), ());
        proof {
            assert forall|t: Seq<char>| names@.dom().contains(t) <==> (exists|j: int|
                0 <= j < i + 1 && lines@[j]@ == t) by {
                if t == lines@[i as int]@ {
                    assert(lines@[i as int]@ == t);
                }
            }
        }
        i = i + 1;
    }
    assert(names@.dom() =~= line_set(lines@));
    BranchSet { names }
}

} // verus!
