//! How far the walk has come, in numbers and in words.

use crate::reveal_state::RevealState;
use crate::text::{decimal, to_decimal};
use vstd::prelude::*;

verus! {

/// The share of the data cells that is shown.
#[derive(Clone, Debug, PartialEq, Eq)]
pub struct Progress {
    /// The number of data cells that are shown.
    pub done: usize,
    /// The number of data cells.
    pub total: usize,
    /// `done` in hundredths of `total`, rounded down.
    pub percent: usize,
    /// What to write beside the bar.
    pub label: String,
}

/// `done` in hundredths of `total`, rounded down; 0 where there is no cell.
pub open spec fn percent_of(done: nat, total: nat) -> nat {
    if total > 0 {
        done * 100 / total
    } else {
        0
    }
}

/// The words for `done` of `total` cells: nothing where there is no cell,
/// a mark of completion when all are shown, the two counts otherwise.
pub open spec fn label_of(done: nat, total: nat) -> Seq<char> {
    if total == 0 {
        Seq::empty()
    } else if done >= total {
        "✓ Complete"@
    } else {
        decimal(done) + " / "@ + decimal(total) + " cells"@
    }
}

/// Reports how much of a table of `total` data cells is shown in `state`.
pub fn progress(state: RevealState, total: usize) -> (p: Progress)
    requires
        state.wf(total),
    ensures
        p.done == state.shown(total),
        p.total == total,
        p.percent == percent_of(p.done as nat, total as nat),
        p.percent <= 100,
        p.label@ == label_of(p.done as nat, total as nat),
{
    let done = state.count_shown(total);
    let percent: usize = if total > 0 {
        assert(done * 100 / (total as int) <= 100) by (nonlinear_arith)
            requires
                0 <= done <= total,
                total > 0,
        ;
        ((done as u128) * 100 / (total as u128)) as usize
    } else {
        0
    };
    let label = if total == 0 {
        String::new()
    } else if done >= total {
        String::from_str("✓ Complete")
    } else {
        to_decimal(done).concat(" / ").concat(to_decimal(total).as_str()).concat(" cells")
    };
    Progress { done, total, percent, label }
}

} // verus!
