//! How much of a table is shown, and how a step moves on.
//!
//! Row 0 of a table is always shown. The other cells, the data cells, are
//! revealed one by one, row after row and from left to right within a row.

use vstd::prelude::*;

verus! {

/// How far the walk through the data cells has come.
#[derive(Clone, Copy, Debug, PartialEq, Eq, Structural)]
pub enum RevealState {
    /// Nothing has been computed yet.
    NotStarted,
    /// The first so many data cells are shown; the last of them was
    /// revealed most recently.
    PartiallyRevealed(usize),
    /// Every cell is shown.
    AllRevealed,
}

/// The number of data cells of a table for `items` items and the given
/// capacity: all cells but those of row 0.
pub open spec fn total_cells(items: nat, capacity: nat) -> nat {
    items * (capacity + 1)
}

impl RevealState {
    /// A count of revealed cells is at least 1 and at most `total`.
    pub open spec fn wf(self, total: usize) -> bool {
        self matches RevealState::PartiallyRevealed(r) ==> 1 <= r <= total
    }

    /// The state that one step leads to, in a table of `total` data cells:
    /// the walk begins, or begins again, with one cell; it goes on by one
    /// cell; and it ends, with everything shown, when the count would pass
    /// `total`.
    pub open spec fn after_step(self, total: usize) -> RevealState {
        match self {
            RevealState::NotStarted => RevealState::PartiallyRevealed(1),
            RevealState::PartiallyRevealed(r) => if r + 1 > total {
                RevealState::AllRevealed
            } else {
                RevealState::PartiallyRevealed((r + 1) as usize)
            },
            RevealState::AllRevealed => RevealState::PartiallyRevealed(1),
        }
    }

    /// The state after `k` steps.
    pub open spec fn after_steps(self, total: usize, k: nat) -> RevealState
        decreases k,
    {
        if k == 0 {
            self
        } else {
            self.after_steps(total, (k - 1) as nat).after_step(total)
        }
    }

    /// The number of data cells that are shown, of `total`.
    pub open spec fn shown(self, total: usize) -> usize {
        match self {
            RevealState::NotStarted => 0,
            RevealState::PartiallyRevealed(r) => r,
            RevealState::AllRevealed => total,
        }
    }

    /// Takes one step in a table of `total` data cells.
    pub fn step(self, total: usize) -> (next: RevealState)
        ensures
            next == self.after_step(total),
            total >= 1 ==> next.wf(total),
            next != RevealState::NotStarted,
    {
        match self {
            RevealState::NotStarted => RevealState::PartiallyRevealed(1),
            RevealState::PartiallyRevealed(r) => if r >= total {
                RevealState::AllRevealed
            } else {
                RevealState::PartiallyRevealed(r + 1)
            },
            RevealState::AllRevealed => RevealState::PartiallyRevealed(1),
        }
    }

    /// Counts the data cells that are shown, of `total`.
    pub fn count_shown(self, total: usize) -> (done: usize)
        ensures
            done == self.shown(total),
            self.wf(total) ==> done <= total,
    {
        match self {
            RevealState::NotStarted => 0,
            RevealState::PartiallyRevealed(r) => r,
            RevealState::AllRevealed => total,
        }
    }
}

/// From the start, the `k`-th step shows exactly `k` cells, for every `k`
/// up to `total`; the step after that shows everything; and one step more
/// begins again with one cell.
pub proof fn lemma_walk(total: usize, k: nat)
    requires
        total >= 1,
        1 <= k <= total + 2,
    ensures
        k <= total ==> RevealState::NotStarted.after_steps(total, k)
            == RevealState::PartiallyRevealed(k as usize),
        k == total + 1 ==> RevealState::NotStarted.after_steps(total, k)
            == RevealState::AllRevealed,
        k == total + 2 ==> RevealState::NotStarted.after_steps(total, k)
            == RevealState::PartiallyRevealed(1),
    decreases k,
{
    if k > 1 {
        lemma_walk(total, (k - 1) as nat);
    } else {
        assert(RevealState::NotStarted.after_steps(total, 0) == RevealState::NotStarted);
    }
}

/// A step adds exactly one to the count of shown cells while the walk has
/// not shown them all, and never leaves the range of valid counts.
pub proof fn lemma_step_counts(state: RevealState, total: usize)
    requires
        total >= 1,
        state.wf(total),
    ensures
        state.after_step(total).wf(total),
        state matches RevealState::PartiallyRevealed(r) ==> (r < total ==> state.after_step(
            total,
        ) == RevealState::PartiallyRevealed((r + 1) as usize)),
        state == RevealState::PartiallyRevealed(total) ==> state.after_step(total)
            == RevealState::AllRevealed,
{
}

} // verus!
