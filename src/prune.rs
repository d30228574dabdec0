use vstd::prelude::*;

use crate::git::BranchSet;
use crate::pruning::{
    highlight_pruned_branch_line, highlighted_line, is_pruned_branch, pruned_branch,
};
use crate::text::string_texts;

verus! {

/// What a pruning pass does about one line of fetch output.
pub enum PruneDecision {
    /// Not a pruning line: shown as it is.
    PassThrough,
    /// A pruned branch that exists locally: delete it.
    Delete(String),
    /// The pruned branch is the one checked out: it is kept.
    SkipCurrent(String),
    /// The pruned branch does not exist locally: nothing to do.
    NotLocal(String),
}

/// A `PruneDecision` with its branch name as a text.
pub enum DecisionModel {
    PassThrough,
    Delete(Seq<char>),
    SkipCurrent(Seq<char>),
    NotLocal(Seq<char>),
}

impl View for PruneDecision {
    type V = DecisionModel;

    open spec fn view(&self) -> DecisionModel {
        match self {
            PruneDecision::PassThrough => DecisionModel::PassThrough,
            PruneDecision::Delete(b) => DecisionModel::Delete(b@),
            PruneDecision::SkipCurrent(b) => DecisionModel::SkipCurrent(b@),
            PruneDecision::NotLocal(b) => DecisionModel::NotLocal(b@),
        }
    }
}

/// The decision for a fetch output line: the checked-out branch is never
/// deleted, and only branches known locally are.
pub open spec fn decision_for(line: Seq<char>, known: Set<Seq<char>>, current: Seq<char>) -> DecisionModel {
    match pruned_branch(line) {
        None => DecisionModel::PassThrough,
        Some(b) => if b == current {
            DecisionModel::SkipCurrent(b)
        } else if known.contains(b) {
            DecisionModel::Delete(b)
        } else {
            DecisionModel::NotLocal(b)
        },
    }
}

/// How a fetch output line is shown: a pruning line with its branch highlighted,
/// any other as it is.
pub open spec fn shown_line(line: Seq<char>) -> Seq<char> {
    match pruned_branch(line) {
        None => line,
        Some(b) => highlighted_line(line, b),
    }
}

/// One line of fetch output: how to show it, and what to do about it.
pub struct LineOutcome {
    pub display: String,
    pub decision: PruneDecision,
}

/// The state of a pruning pass, as mathematical values.
pub struct PruneModel {
    pub known: Set<Seq<char>>,
    pub current: Seq<char>,
    /// Some line reported a pruned branch.
    pub any_pruned: bool,
    /// A deletion decided and not yet reported back.
    pub pending: Option<Seq<char>>,
    pub deleted: Seq<Seq<char>>,
    pub failed: Seq<Seq<char>>,
    pub skipped: Seq<Seq<char>>,
}

impl PruneModel {
    /// Every branch that was or is being deleted is known and not the current one.
    pub open spec fn wf(self) -> bool {
        &&& forall|i: int| 0 <= i < self.deleted.len() ==> self.known.contains(
            #[trigger] self.deleted[i],
        ) && self.deleted[i] != self.current
        &&& forall|i: int| 0 <= i < self.failed.len() ==> self.known.contains(
            #[trigger] self.failed[i],
        ) && self.failed[i] != self.current
        &&& match self.pending {
            Some(b) => self.known.contains(b) && b != self.current,
            None => true,
        }
    }

    /// The state after deciding about `line`.
    pub open spec fn after_line(self, line: Seq<char>) -> PruneModel {
        match decision_for(line, self.known, self.current) {
            DecisionModel::PassThrough => self,
            DecisionModel::Delete(b) => PruneModel { any_pruned: true, pending: Some(b), ..self },
            DecisionModel::SkipCurrent(b) => PruneModel {
                any_pruned: true,
                skipped: self.skipped.push(b),
                ..self
            },
            DecisionModel::NotLocal(b) => PruneModel { any_pruned: true, ..self },
        }
    }
}

/// The outcome of a pruning pass.
pub enum PruneSummary {
    /// No line reported a pruned branch.
    NoPrunedBranches,
    /// Some did: what was deleted, what failed to delete, and what was kept
    /// because it is checked out.
    Pruned { deleted: Vec<String>, failed: Vec<String>, skipped_as_current: Vec<String> },
}

/// Decides, line by line, which local branches a fetch with pruning lets go.
pub struct PruneCoordinator {
    known: BranchSet,
    current: String,
    any_pruned: bool,
    pending: Option<String>,
    deleted: Vec<String>,
    failed: Vec<String>,
    skipped: Vec<String>,
}

impl View for PruneCoordinator {
    type V = PruneModel;

    closed spec fn view(&self) -> PruneModel {
        PruneModel {
            known: self.known@,
            current: self.current@,
            any_pruned: self.any_pruned,
            pending: match &self.pending {
                Some(b) => Some(b@),
                None => None,
            },
            deleted: string_texts(self.deleted@),
            failed: string_texts(self.failed@),
            skipped: string_texts(self.skipped@),
        }
    }
}

impl PruneCoordinator {
    /// A pass over one snapshot of the local branches and the current branch.
    pub fn new(known: BranchSet, current: String) -> (r: PruneCoordinator)
        ensures
            r@.wf(),
            r@.known == known@,
            r@.current == current@,
            !r@.any_pruned,
            r@.pending is None,
            r@.deleted.len() == 0 && r@.failed.len() == 0 && r@.skipped.len() == 0,
    {
        PruneCoordinator {
            known,
            current,
            any_pruned: false,
            pending: None,
            deleted: Vec::new(),
            failed: Vec::new(),
            skipped: Vec::new(),
        }
    }

    /// Whether a deletion awaits its result.
    pub fn has_pending(&self) -> (r: bool)
        ensures
            r == self@.pending is Some,
    {
        self.pending.is_some()
    }

    /// Classifies one fetch output line, says how to show it and what to do.
    pub fn on_line(&mut self, line: String) -> (r: LineOutcome)
        requires
            old(self)@.wf(),
            old(self)@.pending is None,
        ensures
            final(self)@.wf(),
            r.decision@ == decision_for(line@, old(self)@.known, old(self)@.current),
            r.display@ == shown_line(line@),
            final(self)@ == old(self)@.after_line(line@),
    {
        let shown = line.clone();
        match is_pruned_branch(line) {
            None => LineOutcome { display: shown, decision: PruneDecision::PassThrough },
            Some(branch) => {
                let display = highlight_pruned_branch_line(shown.as_str(), branch.as_str());
                self.any_pruned = true;
                if branch == self.current {
                    let ghost s0 = self.skipped@;
                    self.skipped.push(branch.clone());
                    assert(string_texts(self.skipped@) =~= string_texts(s0).push(branch@));
                    LineOutcome { display, decision: PruneDecision::SkipCurrent(branch) }
                } else if self.known.contains(branch.as_str()) {
                    self.pending = Some(branch.clone());
                    LineOutcome { display, decision: PruneDecision::Delete(branch) }
                } else {
                    LineOutcome { display, decision: PruneDecision::NotLocal(branch) }
                }
            },
        }
    }

    /// Records whether the pending deletion succeeded; a failure is kept for the
    /// report and does not stop the pass.
    pub fn record_deletion(&mut self, succeeded: bool) -> (r: String)
        requires
            old(self)@.wf(),
            old(self)@.pending is Some,
        ensures
            final(self)@.wf(),
            r@ == old(self)@.pending->0,
            final(self)@ == (if succeeded {
                PruneModel {
                    pending: None,
                    deleted: old(self)@.deleted.push(old(self)@.pending->0),
                    ..old(self)@
                }
            } else {
                PruneModel {
                    pending: None,
                    failed: old(self)@.failed.push(old(self)@.pending->0),
                    ..old(self)@
                }
            }),
    {
        let branch = match self.pending.take() {
            Some(b) => b,
            None => String::new(),
        };
        if succeeded {
            let ghost d0 = self.deleted@;
            self.deleted.push(branch.clone());
            assert(string_texts(self.deleted@) =~= string_texts(d0).push(branch@));
        } else {
            let ghost f0 = self.failed@;
            self.failed.push(branch.clone());
            assert(string_texts(self.failed@) =~= string_texts(f0).push(branch@));
        }
        branch
    }

    /// The outcome of the pass: `NoPrunedBranches` exactly when no line reported
    /// a pruned branch.
    pub fn summary(&self) -> (r: PruneSummary)
        ensures
            match r {
                PruneSummary::NoPrunedBranches => !self@.any_pruned,
                PruneSummary::Pruned { deleted, failed, skipped_as_current } => self@.any_pruned
                    && string_texts(deleted@) == self@.deleted && string_texts(failed@)
                    == self@.failed && string_texts(skipped_as_current@) == self@.skipped,
            },
    {
        if !self.any_pruned {
            return PruneSummary::NoPrunedBranches;
        }
        PruneSummary::Pruned {
            deleted: self.deleted.clone(),
            failed: self.failed.clone(),
            skipped_as_current: self.skipped.clone(),
        }
    }
}

/// A pruning pass never deletes the checked-out branch, nor a branch that is not
/// in the snapshot of local branches.
pub proof fn lemma_never_deletes_current_or_unknown(
    line: Seq<char>,
    known: Set<Seq<char>>,
    current: Seq<char>,
)
    ensures
        decision_for(line, known, current) matches DecisionModel::Delete(b) ==> b != current
            && known.contains(b),
        pruned_branch(line) == Some(current) ==> decision_for(line, known, current)
            == DecisionModel::SkipCurrent(current),
        pruned_branch(line) matches Some(b) && !known.contains(b) ==> !(decision_for(
            line,
            known,
            current,
        ) is Delete),
{
}

} // verus!
