//! What a single cell of the table looks like under a reveal state.

use crate::knapsack::{best_value, is_table, lemma_grid_rows, takes_item};
use crate::reveal_state::{total_cells, RevealState};
use crate::text::{decimal, to_decimal};
use vstd::arithmetic::div_mod::{lemma_fundamental_div_mod, lemma_fundamental_div_mod_converse};
use vstd::prelude::*;

verus! {

/// The kinds of cell that are drawn differently.
#[derive(Clone, Copy, Debug, PartialEq, Eq, Structural)]
pub enum CellClass {
    /// A cell of row 0, the row for no items.
    Base,
    /// A data cell that is not shown yet.
    Hidden,
    /// The data cell that was revealed most recently.
    Active,
    /// A shown data cell on the path that leads back from the last cell to
    /// the items of an optimal choice. Looking at a cell never gives this
    /// kind; `CellView::on_path` does.
    Backtrack,
    /// A shown data cell whose value comes from taking the row's item.
    Took,
    /// Any other shown data cell.
    Normal,
}

/// What is needed to draw one cell.
#[derive(Clone, Copy, Debug, PartialEq, Eq, Structural)]
pub struct CellView {
    /// The value in the cell, shown or not.
    pub value: usize,
    /// Whether the cell is shown.
    pub visible: bool,
    /// The kind of the cell.
    pub classification: CellClass,
}

/// The place of the data cell in row `row >= 1`, column `col` in the order
/// of revealing, counted from 0.
pub open spec fn linear_index(row: int, col: int, capacity: int) -> int {
    (row - 1) * (capacity + 1) + col
}

/// Whether the data cell with the given place is shown.
pub open spec fn is_visible(state: RevealState, linear: int) -> bool {
    match state {
        RevealState::NotStarted => false,
        RevealState::PartiallyRevealed(r) => linear < r,
        RevealState::AllRevealed => true,
    }
}

/// Whether the data cell with the given place is the one revealed most
/// recently.
pub open spec fn is_active(state: RevealState, linear: int) -> bool {
    state matches RevealState::PartiallyRevealed(r) && linear == r - 1
}

/// Whether the value in row `row >= 1`, column `col` comes from taking the
/// row's item: the item fits, the value is the value without it at the
/// capacity that is left plus its benefit, and that is strictly more than
/// the value above. On a tie the cell counts as a skip.
pub open spec fn took(
    table: Seq<Seq<usize>>,
    weights: Seq<usize>,
    benefits: Seq<usize>,
    row: int,
    col: int,
) -> bool {
    let w = weights[row - 1];
    &&& w <= col
    &&& table[row][col] == table[row - 1][col - w] + benefits[row - 1]
    &&& table[row][col] > table[row - 1][col]
}

/// The kind of the cell in row `row`, column `col`: row 0 is `Base`; a data
/// cell is `Hidden` unless shown, else `Active` if it is the active one,
/// else `Took` if the item was taken, else `Normal`.
pub open spec fn classification(
    table: Seq<Seq<usize>>,
    weights: Seq<usize>,
    benefits: Seq<usize>,
    state: RevealState,
    capacity: int,
    row: int,
    col: int,
) -> CellClass {
    let linear = linear_index(row, col, capacity);
    if row == 0 {
        CellClass::Base
    } else if !is_visible(state, linear) {
        CellClass::Hidden
    } else if is_active(state, linear) {
        CellClass::Active
    } else if took(table, weights, benefits, row, col) {
        CellClass::Took
    } else {
        CellClass::Normal
    }
}

/// The cell in row `row`, column `col`: its value, whether it is shown
/// (row 0 always is), and its kind.
pub open spec fn cell_view(
    table: Seq<Seq<usize>>,
    weights: Seq<usize>,
    benefits: Seq<usize>,
    state: RevealState,
    capacity: int,
    row: int,
    col: int,
) -> CellView {
    CellView {
        value: table[row][col],
        visible: row == 0 || is_visible(state, linear_index(row, col, capacity)),
        classification: classification(table, weights, benefits, state, capacity, row, col),
    }
}

/// The kind of a cell once it is known to lie on the path back: a shown
/// cell that is not the active one becomes `Backtrack`; any other keeps its
/// kind.
pub open spec fn kind_on_path(kind: CellClass) -> CellClass {
    if kind == CellClass::Took || kind == CellClass::Normal {
        CellClass::Backtrack
    } else {
        kind
    }
}

/// What is written into a cell: the numeral of its value if it is shown,
/// nothing otherwise.
pub open spec fn cell_text(cell: CellView) -> Seq<char> {
    if cell.visible {
        decimal(cell.value as nat)
    } else {
        Seq::empty()
    }
}

impl CellView {
    /// The same cell, marked as lying on the path back. Hidden cells stay
    /// hidden and the active cell stays active.
    pub fn on_path(self) -> (cell: CellView)
        ensures
            cell.value == self.value,
            cell.visible == self.visible,
            cell.classification == kind_on_path(self.classification),
    {
        let classification = match self.classification {
            CellClass::Took => CellClass::Backtrack,
            CellClass::Normal => CellClass::Backtrack,
            kind => kind,
        };
        CellView { value: self.value, visible: self.visible, classification }
    }

    /// The text to write into the cell.
    pub fn text(&self) -> (text: String)
        ensures
            text@ == cell_text(*self),
    {
        if self.visible {
            to_decimal(self.value)
        } else {
            String::new()
        }
    }
}

/// The data cells of a table are numbered without gaps: each has a place
/// below the number of data cells, and row and column can be read back from
/// the place.
pub proof fn lemma_linear_index_in_range(items: int, capacity: int, row: int, col: int)
    requires
        capacity >= 0,
        1 <= row <= items,
        0 <= col <= capacity,
    ensures
        0 <= linear_index(row, col, capacity) < total_cells(items as nat, capacity as nat),
        linear_index(row, col, capacity) / (capacity + 1) == row - 1,
        linear_index(row, col, capacity) % (capacity + 1) == col,
{
    let width = capacity + 1;
    assert((row - 1) * width >= 0) by (nonlinear_arith)
        requires
            row >= 1,
            width >= 1,
    ;
    assert((row - 1) * width + width <= items * width) by (nonlinear_arith)
        requires
            row <= items,
            width >= 1,
    ;
    lemma_fundamental_div_mod_converse(linear_index(row, col, capacity), width, row - 1, col);
}

/// Every place below the number of data cells belongs to exactly one data
/// cell, whose row and column are the quotient, plus one, and the remainder
/// of the place by the width of a row.
pub proof fn lemma_place_has_one_cell(items: int, capacity: int, place: int)
    requires
        capacity >= 0,
        items >= 0,
        0 <= place < total_cells(items as nat, capacity as nat),
    ensures
        1 <= place / (capacity + 1) + 1 <= items,
        0 <= place % (capacity + 1) <= capacity,
        linear_index(place / (capacity + 1) + 1, place % (capacity + 1), capacity) == place,
        forall|row: int, col: int|
            1 <= row <= items && 0 <= col <= capacity && #[trigger] linear_index(
                row,
                col,
                capacity,
            ) == place ==> row == place / (capacity + 1) + 1 && col == place % (capacity + 1),
{
    let width = capacity + 1;
    let q = place / width;
    let r = place % width;
    lemma_fundamental_div_mod(place, width);
    assert(width * q == q * width) by (nonlinear_arith);
    assert(q >= 0) by (nonlinear_arith)
        requires
            place >= 0,
            width >= 1,
            q == place / width,
    ;
    assert(q < items) by (nonlinear_arith)
        requires
            q * width + r == place,
            place < items * width,
            r >= 0,
            width >= 1,
    ;
    assert forall|row: int, col: int|
        1 <= row <= items && 0 <= col <= capacity && #[trigger] linear_index(row, col, capacity)
            == place implies row == q + 1 && col == r by {
        lemma_linear_index_in_range(items, capacity, row, col);
    }
}

/// What is shown and how. Of the data cells exactly those whose place is
/// below the count of the walk are shown, all when everything is revealed,
/// none before the walk. A cell that is not shown is `Hidden`; one that is
/// shown is of exactly one of the kinds `Active`, `Took` and `Normal`:
/// `Active` if it was revealed last, else `Took` if its item was taken, else
/// `Normal`.
pub proof fn lemma_kinds_of_data_cells(
    table: Seq<Seq<usize>>,
    weights: Seq<usize>,
    benefits: Seq<usize>,
    state: RevealState,
    capacity: int,
    row: int,
    col: int,
)
    requires
        row >= 1,
    ensures
        ({
            let cell = cell_view(table, weights, benefits, state, capacity, row, col);
            let place = linear_index(row, col, capacity);
            let active = is_active(state, place);
            let taken = took(table, weights, benefits, row, col);
            &&& state matches RevealState::PartiallyRevealed(r) ==> (cell.visible <==> place < r)
            &&& state == RevealState::AllRevealed ==> cell.visible
            &&& state == RevealState::NotStarted ==> !cell.visible
            &&& cell.classification == CellClass::Hidden <==> !cell.visible
            &&& cell.classification == CellClass::Active <==> active
            &&& cell.classification == CellClass::Took <==> cell.visible && !active && taken
            &&& cell.classification == CellClass::Normal <==> cell.visible && !active && !taken
            &&& cell.classification != CellClass::Base
            &&& cell.classification != CellClass::Backtrack
        }),
{
}

/// While the walk is under way exactly one cell is `Active`, the data cell
/// whose place is the count of shown cells less one; before the walk and
/// when everything is shown, none is.
pub proof fn lemma_one_active_cell(
    table: Seq<Seq<usize>>,
    weights: Seq<usize>,
    benefits: Seq<usize>,
    state: RevealState,
    items: int,
    capacity: int,
)
    requires
        capacity >= 0,
        items >= 0,
        total_cells(items as nat, capacity as nat) <= usize::MAX,
        state.wf(total_cells(items as nat, capacity as nat) as usize),
    ensures
        state matches RevealState::PartiallyRevealed(r) ==> {
            let row = (r - 1) / (capacity + 1) + 1;
            let col = (r - 1) % (capacity + 1);
            &&& 1 <= row <= items
            &&& 0 <= col <= capacity
            &&& forall|i: int, c: int|
                0 <= i <= items && 0 <= c <= capacity ==> (#[trigger] classification(
                    table,
                    weights,
                    benefits,
                    state,
                    capacity,
                    i,
                    c,
                ) == CellClass::Active <==> i == row && c == col)
        },
        !(state is PartiallyRevealed) ==> forall|i: int, c: int|
            #[trigger] classification(table, weights, benefits, state, capacity, i, c)
                != CellClass::Active,
{
    if let RevealState::PartiallyRevealed(r) = state {
        lemma_place_has_one_cell(items, capacity, r - 1);
        let row = (r - 1) / (capacity + 1) + 1;
        let col = (r - 1) % (capacity + 1);
        assert forall|i: int, c: int| 0 <= i <= items && 0 <= c <= capacity implies (
        #[trigger] classification(table, weights, benefits, state, capacity, i, c)
            == CellClass::Active <==> i == row && c == col) by {
            if i >= 1 {
                lemma_kinds_of_data_cells(table, weights, benefits, state, capacity, i, c);
            }
        }
    }
}

/// In the table of an instance a cell took its item exactly where the
/// optimum includes the item.
pub proof fn lemma_took_means_item_taken(
    table: Seq<Seq<usize>>,
    weights: Seq<usize>,
    benefits: Seq<usize>,
    capacity: nat,
    row: int,
    col: int,
)
    requires
        is_table(table, weights, benefits, capacity),
        1 <= row <= weights.len(),
        0 <= col <= capacity,
    ensures
        took(table, weights, benefits, row, col) == takes_item(
            weights,
            benefits,
            row as nat,
            col as nat,
        ),
{
}

/// Tells whether the value in row `row`, column `col` of the table of an
/// instance comes from taking the row's item.
pub fn took_item(
    table: &Vec<Vec<usize>>,
    weights: &[usize],
    benefits: &[usize],
    capacity: usize,
    row: usize,
    col: usize,
) -> (r: bool)
    requires
        weights@.len() == benefits@.len(),
        is_table(table.deep_view(), weights@, benefits@, capacity as nat),
        1 <= row <= weights@.len(),
        col <= capacity,
    ensures
        r == took(table.deep_view(), weights@, benefits@, row as int, col as int),
        r == takes_item(weights@, benefits@, row as nat, col as nat),
{
    proof {
        lemma_grid_rows(*table);
        lemma_took_means_item_taken(
            table.deep_view(),
            weights@,
            benefits@,
            capacity as nat,
            row as int,
            col as int,
        );
    }
    let w = weights[row - 1];
    let value = table[row][col];
    w <= col && value == table[row - 1][col - w] + benefits[row - 1] && value > table[row - 1][col]
}

/// Looks at the cell in row `row`, column `col` of the table of an
/// instance under the given reveal state.
pub fn classify(
    table: &Vec<Vec<usize>>,
    weights: &[usize],
    benefits: &[usize],
    capacity: usize,
    state: RevealState,
    row: usize,
    col: usize,
) -> (cell: CellView)
    requires
        weights@.len() == benefits@.len(),
        is_table(table.deep_view(), weights@, benefits@, capacity as nat),
        total_cells(weights@.len(), capacity as nat) <= usize::MAX,
        row <= weights@.len(),
        col <= capacity,
    ensures
        cell == cell_view(
            table.deep_view(),
            weights@,
            benefits@,
            state,
            capacity as int,
            row as int,
            col as int,
        ),
        row == 0 ==> cell.value == 0 && cell.visible && cell.classification == CellClass::Base,
        row >= 1 && !cell.visible ==> cell.classification == CellClass::Hidden,
        row >= 1 && cell.visible ==> cell.classification == CellClass::Active
            || cell.classification == CellClass::Took || cell.classification == CellClass::Normal,
{
    proof {
        lemma_grid_rows(*table);
    }
    let value = table[row][col];
    if row == 0 {
        return CellView { value, visible: true, classification: CellClass::Base };
    }
    proof {
        lemma_linear_index_in_range(
            weights@.len() as int,
            capacity as int,
            row as int,
            col as int,
        );
        assert(capacity + 1 <= weights@.len() * (capacity + 1)) by (nonlinear_arith)
            requires
                weights@.len() >= 1,
                capacity >= 0,
        ;
    }
    let linear = (row - 1) * (capacity + 1) + col;
    let (visible, active) = match state {
        RevealState::NotStarted => (false, false),
        RevealState::PartiallyRevealed(r) => (linear < r, r >= 1 && linear == r - 1),
        RevealState::AllRevealed => (true, false),
    };
    let classification = if !visible {
        CellClass::Hidden
    } else if active {
        CellClass::Active
    } else if took_item(table, weights, benefits, capacity, row, col) {
        CellClass::Took
    } else {
        CellClass::Normal
    };
    CellView { value, visible, classification }
}

} // verus!
