use vstd::prelude::*;

use crate::pruning::{is_pruned_branch, pruned_branch};

verus! {

/// One line of fetch output, classified.
#[derive(Debug, PartialEq, Eq, Clone)]
pub enum FetchLine {
    /// The line reports that this remote branch was pruned.
    Pruned(String),
    /// Any other line.
    NotPruned,
}

impl View for FetchLine {
    type V = Option<Seq<char>>;

    open spec fn view(&self) -> Option<Seq<char>> {
        match self {
            FetchLine::Pruned(b) => Some(b@),
            FetchLine::NotPruned => None,
        }
    }
}

impl FetchLine {
    /// Classifies one line of fetch output.
    pub fn classify(line: String) -> (r: FetchLine)
        ensures
            r@ == pruned_branch(line@),
    {
        match is_pruned_branch(line) {
            Some(b) => FetchLine::Pruned(b),
            None => FetchLine::NotPruned,
        }
    }
}

impl TryFrom<String> for FetchLine {
    type Error = String;

    /// Classifies one line of fetch output; every line has a classification, so
    /// this never fails.
    fn try_from(value: String) -> (r: Result<Self, Self::Error>)
        ensures
            r matches Ok(f) && f@ == pruned_branch(value@),
    {
        Ok(FetchLine::classify(value))
    }
}

/// What `try_from` returns is stated over views, in its own `ensures`; no value
/// is claimed here at the level of `String`s, which spec code cannot build.
impl vstd::std_specs::convert::TryFromSpecImpl<String> for FetchLine {
    open spec fn obeys_try_from_spec() -> bool {
        false
    }

    open spec fn try_from_spec(v: String) -> Result<Self, String> {
        Err(v)
    }
}

} // verus!
