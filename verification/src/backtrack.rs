//! The way back through a table: from the last cell up to row 0, marking
//! the cells whose item was taken. The marked rows name the items of an
//! optimal choice.

use crate::cell::{took, took_item};
use crate::knapsack::{best_value, is_table};
use vstd::prelude::*;

verus! {

/// The cells that the way back marks when it starts in row `row`, column
/// `col`, first cell first. In a row above 0 whose cell took its item the
/// cell is marked and the way goes on one row up, to the left by the item's
/// weight; otherwise it goes straight up. It ends in row 0.
pub open spec fn path_from(
    table: Seq<Seq<usize>>,
    weights: Seq<usize>,
    benefits: Seq<usize>,
    row: usize,
    col: usize,
) -> Seq<(usize, usize)>
    decreases row,
{
    if row == 0 {
        Seq::empty()
    } else if took(table, weights, benefits, row as int, col as int) {
        seq![(row, col)] + path_from(
            table,
            weights,
            benefits,
            (row - 1) as usize,
            (col - weights[row - 1]) as usize,
        )
    } else {
        path_from(table, weights, benefits, (row - 1) as usize, col)
    }
}

/// The sum of `values` over the items that the cells of `path` stand for:
/// the cell in row `i` stands for item `i`, whose value is `values[i - 1]`.
pub open spec fn path_sum(values: Seq<usize>, path: Seq<(usize, usize)>) -> nat
    decreases path.len(),
{
    if path.len() == 0 {
        0
    } else {
        values[path[0].0 - 1] as nat + path_sum(values, path.drop_first())
    }
}

/// What the way back finds in the table of an instance. Its cells lie in
/// rows from `row` down to 1, each row higher up than the one before, so no
/// item is named twice. The items named weigh no more than `col`, and their
/// benefits add up to the value in the cell where the way started: they are
/// an optimal choice.
pub proof fn lemma_path_is_optimal_choice(
    table: Seq<Seq<usize>>,
    weights: Seq<usize>,
    benefits: Seq<usize>,
    capacity: nat,
    row: usize,
    col: usize,
)
    requires
        is_table(table, weights, benefits, capacity),
        weights.len() == benefits.len(),
        row <= weights.len(),
        col <= capacity,
    ensures
        ({
            let path = path_from(table, weights, benefits, row, col);
            &&& path.len() <= row
            &&& forall|k: int| 0 <= k < path.len() ==> 1 <= (#[trigger] path[k]).0 <= row
            &&& forall|j: int, k: int|
                0 <= j < k < path.len() ==> (#[trigger] path[j]).0 > (#[trigger] path[k]).0
            &&& forall|k: int|
                0 <= k < path.len() ==> took(
                    table,
                    weights,
                    benefits,
                    (#[trigger] path[k]).0 as int,
                    path[k].1 as int,
                )
            &&& path_sum(weights, path) <= col
            &&& path_sum(benefits, path) == table[row as int][col as int]
            &&& path_sum(benefits, path) == best_value(weights, benefits, row as nat, col as nat)
        }),
    decreases row,
{
    let path = path_from(table, weights, benefits, row, col);
    if row > 0 {
        let above = (row - 1) as usize;
        if took(table, weights, benefits, row as int, col as int) {
            let left = (col - weights[row - 1]) as usize;
            let rest = path_from(table, weights, benefits, above, left);
            lemma_path_is_optimal_choice(table, weights, benefits, capacity, above, left);
            assert(path.drop_first() =~= rest);
        } else {
            lemma_path_is_optimal_choice(table, weights, benefits, capacity, above, col);
        }
    }
}

/// Walks back through the table of an instance from its last cell and
/// returns the cells it marks, first cell first.
pub fn backtrack_path(
    table: &Vec<Vec<usize>>,
    weights: &[usize],
    benefits: &[usize],
    capacity: usize,
) -> (path: Vec<(usize, usize)>)
    requires
        weights@.len() == benefits@.len(),
        is_table(table.deep_view(), weights@, benefits@, capacity as nat),
    ensures
        path@ == path_from(
            table.deep_view(),
            weights@,
            benefits@,
            weights@.len() as usize,
            capacity,
        ),
{
    let ghost grid = table.deep_view();
    let n = weights.len();
    let mut path: Vec<(usize, usize)> = Vec::new();
    let mut row = n;
    let mut col = capacity;
    while row > 0
        invariant
            n == weights@.len(),
            weights@.len() == benefits@.len(),
            grid == table.deep_view(),
            is_table(grid, weights@, benefits@, capacity as nat),
            row <= n,
            col <= capacity,
            path@ + path_from(grid, weights@, benefits@, row, col) == path_from(
                grid,
                weights@,
                benefits@,
                n,
                capacity,
            ),
        decreases row,
    {
        if took_item(table, weights, benefits, capacity, row, col) {
            path.push((row, col));
            col = col - weights[row - 1];
        }
        row = row - 1;
    }
    path
}

} // verus!
