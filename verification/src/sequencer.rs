//! The sequencer: runs an ordered action list, recording exactly one outcome
//! line per action, in order, and never aborting early.

use vstd::prelude::*;

use crate::data::Action;
use crate::outcome::{sequence_entry, spec_sequence_entry, ActionOutcome};

verus! {

/// The outcome lines of a completed run over the given per-action results.
pub open spec fn spec_run_outcomes(results: Seq<ActionOutcome>) -> Seq<Seq<char>> {
    results.map_values(|o: ActionOutcome| spec_sequence_entry(o))
}

/// One sequencer invocation in progress: the actions to run and the outcome
/// lines recorded so far. The next action to run is the one at position
/// `outcomes.len()`.
pub struct Sequencer {
    pub actions: Vec<Action>,
    pub outcomes: Vec<String>,
}

impl Sequencer {
    /// At most one outcome has been recorded per action.
    pub open spec fn wf(self) -> bool {
        self.outcomes@.len() <= self.actions@.len()
    }

    /// All actions have been run.
    pub open spec fn spec_done(self) -> bool {
        self.outcomes@.len() == self.actions@.len()
    }

    /// Starts a run of `actions`: nothing recorded yet.
    pub fn new(actions: Vec<Action>) -> (s: Sequencer)
        ensures
            s.wf(),
            s.actions@ == actions@,
            s.outcomes@.len() == 0,
    {
        Sequencer { actions, outcomes: Vec::new() }
    }

    /// Whether all actions have been run.
    pub fn is_done(&self) -> (r: bool)
        requires
            self.wf(),
        ensures
            r == self.spec_done(),
    {
        self.outcomes.len() == self.actions.len()
    }

    /// The next action to run.
    pub fn next_action(&self) -> (a: &Action)
        requires
            self.wf(),
            !self.spec_done(),
        ensures
            *a == self.actions@[self.outcomes@.len() as int],
    {
        &self.actions[self.outcomes.len()]
    }

    /// Records the outcome of the action just run and moves to the next one.
    /// An error outcome is recorded like any other: the sequence goes on.
    pub fn record(&mut self, o: &ActionOutcome)
        requires
            old(self).wf(),
            !old(self).spec_done(),
        ensures
            final(self).wf(),
            final(self).actions@ == old(self).actions@,
            final(self).outcomes@.len() == old(self).outcomes@.len() + 1,
            final(self).outcomes@.map_values(|s: String| s@) == old(self).outcomes@.map_values(
                |s: String| s@,
            ).push(spec_sequence_entry(*o)),
    {
        let line = sequence_entry(o);
        self.outcomes.push(line);
        proof {
            assert(final(self).outcomes@.map_values(|s: String| s@) =~= old(
                self,
            ).outcomes@.map_values(|s: String| s@).push(spec_sequence_entry(*o)));
        }
    }
}

/// Runs the whole list of per-action results through the sequencer's
/// recording rule. One line per result, in order.
pub fn collect_outcomes(results: &Vec<ActionOutcome>) -> (lines: Vec<String>)
    ensures
        lines@.len() == results@.len(),
        forall|i: int|
            0 <= i < results@.len() ==> lines@[i]@ == spec_sequence_entry(
                #[trigger] results@[i],
            ),
{
    let mut lines: Vec<String> = Vec::new();
    let mut i: usize = 0;
    while i < results.len()
        invariant
            0 <= i <= results@.len(),
            lines@.len() == i,
            forall|k: int|
                0 <= k < i ==> lines@[k]@ == spec_sequence_entry(#[trigger] results@[k]),
        decreases results@.len() - i,
    {
        lines.push(sequence_entry(&results[i]));
        i += 1;
    }
    lines
}

/// For any list of per-action results of length N — however many of them are
/// errors — the run's outcome list has length N, and the line at each
/// position renders exactly that position's result.
pub proof fn lemma_sequencer_preserves_length_and_order(results: Seq<ActionOutcome>)
    ensures
        spec_run_outcomes(results).len() == results.len(),
        forall|i: int|
            0 <= i < results.len() ==> spec_run_outcomes(results)[i] == spec_sequence_entry(
                #[trigger] results[i],
            ),
{
}

} // verus!
