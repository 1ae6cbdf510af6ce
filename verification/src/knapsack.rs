//! The 0/1 knapsack dynamic programme: its mathematical meaning and the
//! routine that fills the dense table.
//!
//! Items are numbered from 1 in the table (row `i` speaks of the first `i`
//! items) and from 0 in the weight and benefit sequences, so row `i` adds
//! the item with weight `weights[i - 1]` and benefit `benefits[i - 1]`.

use vstd::prelude::*;

verus! {

/// The value the recurrence assigns to row `i`, column `c`: the best total
/// benefit when only the first `i` items may be used and their weights may
/// add up to at most `c`.
pub open spec fn best_value(weights: Seq<usize>, benefits: Seq<usize>, i: nat, c: nat) -> nat
    decreases i,
{
    if i == 0 {
        0
    } else {
        let skip = best_value(weights, benefits, (i - 1) as nat, c);
        let w = weights[i - 1] as nat;
        if w > c {
            skip
        } else {
            let take = (best_value(weights, benefits, (i - 1) as nat, (c - w) as nat)
                + benefits[i - 1]) as nat;
            if take > skip {
                take
            } else {
                skip
            }
        }
    }
}

/// The sum of `values[k]` over the positions `k` that `chosen` marks.
/// `chosen` decides on the first `chosen.len()` items.
pub open spec fn chosen_sum(values: Seq<usize>, chosen: Seq<bool>) -> nat
    decreases chosen.len(),
{
    if chosen.len() == 0 {
        0
    } else {
        let rest = chosen_sum(values, chosen.drop_last());
        if chosen.last() {
            (rest + values[chosen.len() - 1]) as nat
        } else {
            rest
        }
    }
}

/// `chosen` decides on exactly the first `i` items and what it takes weighs
/// at most `c`.
pub open spec fn feasible(weights: Seq<usize>, chosen: Seq<bool>, i: nat, c: nat) -> bool {
    chosen.len() == i && chosen_sum(weights, chosen) <= c
}

/// `v` is the optimum of the knapsack problem on the first `i` items with
/// capacity `c`: some feasible choice reaches it and none exceeds it.
pub open spec fn is_optimum(
    weights: Seq<usize>,
    benefits: Seq<usize>,
    i: nat,
    c: nat,
    v: nat,
) -> bool {
    &&& exists|chosen: Seq<bool>|
        feasible(weights, chosen, i, c) && #[trigger] chosen_sum(benefits, chosen) == v
    &&& forall|chosen: Seq<bool>|
        feasible(weights, chosen, i, c) ==> #[trigger] chosen_sum(benefits, chosen) <= v
}

/// Whether the optimum at row `i >= 1`, column `c` includes item `i`: the
/// item fits and taking it is strictly better than leaving it out.
pub open spec fn takes_item(weights: Seq<usize>, benefits: Seq<usize>, i: nat, c: nat) -> bool {
    let w = weights[i - 1] as nat;
    &&& i >= 1
    &&& w <= c
    &&& best_value(weights, benefits, (i - 1) as nat, (c - w) as nat) + benefits[i - 1]
        > best_value(weights, benefits, (i - 1) as nat, c)
}

/// A choice among the first `i` items that reaches `best_value`: it takes
/// item `i` exactly where taking is strictly better than skipping.
pub open spec fn best_choice(weights: Seq<usize>, benefits: Seq<usize>, i: nat, c: nat) -> Seq<
    bool,
>
    decreases i,
{
    if i == 0 {
        Seq::empty()
    } else {
        let w = weights[i - 1] as nat;
        if takes_item(weights, benefits, i, c) {
            best_choice(weights, benefits, (i - 1) as nat, (c - w) as nat).push(true)
        } else {
            best_choice(weights, benefits, (i - 1) as nat, c).push(false)
        }
    }
}

/// `grid` is the dense table of the instance: one row for each count of
/// items from 0 to `weights.len()`, one column for each capacity from 0 to
/// `capacity`, each cell holding `best_value` for its row and column.
pub open spec fn is_table(
    grid: Seq<Seq<usize>>,
    weights: Seq<usize>,
    benefits: Seq<usize>,
    capacity: nat,
) -> bool {
    &&& grid.len() == weights.len() + 1
    &&& forall|i: int| 0 <= i < grid.len() ==> (#[trigger] grid[i]).len() == capacity + 1
    &&& forall|i: int, c: int|
        0 <= i < grid.len() && 0 <= c <= capacity ==> #[trigger] grid[i][c] == best_value(
            weights,
            benefits,
            i as nat,
            c as nat,
        )
}

/// The table of an instance, written out: cell by cell the value of the
/// recurrence.
pub open spec fn table_of(weights: Seq<usize>, benefits: Seq<usize>, capacity: nat) -> Seq<
    Seq<usize>,
> {
    Seq::new(
        weights.len() + 1,
        |i: int|
            Seq::new(
                capacity + 1,
                |c: int| best_value(weights, benefits, i as nat, c as nat) as usize,
            ),
    )
}

/// The sum of all of `values`.
pub open spec fn total(values: Seq<usize>) -> nat
    decreases values.len(),
{
    if values.len() == 0 {
        0
    } else {
        total(values.drop_last()) + values.last() as nat
    }
}

/// Adding an item never lowers the best value.
pub proof fn lemma_best_value_grows_with_items(
    weights: Seq<usize>,
    benefits: Seq<usize>,
    i: nat,
    j: nat,
    c: nat,
)
    requires
        i <= j,
    ensures
        best_value(weights, benefits, i, c) <= best_value(weights, benefits, j, c),
    decreases j,
{
    if i < j {
        lemma_best_value_grows_with_items(weights, benefits, i, (j - 1) as nat, c);
    }
}

/// A larger capacity never lowers the best value.
pub proof fn lemma_best_value_grows_with_capacity(
    weights: Seq<usize>,
    benefits: Seq<usize>,
    i: nat,
    c: nat,
    d: nat,
)
    requires
        c <= d,
    ensures
        best_value(weights, benefits, i, c) <= best_value(weights, benefits, i, d),
    decreases i,
{
    if i > 0 {
        let w = weights[i - 1] as nat;
        lemma_best_value_grows_with_capacity(weights, benefits, (i - 1) as nat, c, d);
        if w <= c {
            lemma_best_value_grows_with_capacity(
                weights,
                benefits,
                (i - 1) as nat,
                (c - w) as nat,
                (d - w) as nat,
            );
        }
    }
}

/// No feasible choice is worth more than `best_value`.
pub proof fn lemma_best_value_bounds_every_choice(
    weights: Seq<usize>,
    benefits: Seq<usize>,
    chosen: Seq<bool>,
    c: nat,
)
    requires
        chosen_sum(weights, chosen) <= c,
    ensures
        chosen_sum(benefits, chosen) <= best_value(weights, benefits, chosen.len(), c),
    decreases chosen.len(),
{
    if chosen.len() > 0 {
        let i = chosen.len();
        let rest = chosen.drop_last();
        if chosen.last() {
            let w = weights[i - 1] as nat;
            lemma_best_value_bounds_every_choice(weights, benefits, rest, (c - w) as nat);
        } else {
            lemma_best_value_bounds_every_choice(weights, benefits, rest, c);
        }
    }
}

/// `best_choice` is feasible and worth exactly `best_value`.
pub proof fn lemma_best_choice_reaches_best_value(
    weights: Seq<usize>,
    benefits: Seq<usize>,
    i: nat,
    c: nat,
)
    ensures
        feasible(weights, best_choice(weights, benefits, i, c), i, c),
        chosen_sum(benefits, best_choice(weights, benefits, i, c)) == best_value(
            weights,
            benefits,
            i,
            c,
        ),
    decreases i,
{
    if i > 0 {
        let w = weights[i - 1] as nat;
        let chosen = best_choice(weights, benefits, i, c);
        if takes_item(weights, benefits, i, c) {
            let rest = best_choice(weights, benefits, (i - 1) as nat, (c - w) as nat);
            lemma_best_choice_reaches_best_value(weights, benefits, (i - 1) as nat, (c - w) as nat);
            assert(chosen.drop_last() =~= rest);
        } else {
            let rest = best_choice(weights, benefits, (i - 1) as nat, c);
            lemma_best_choice_reaches_best_value(weights, benefits, (i - 1) as nat, c);
            assert(chosen.drop_last() =~= rest);
        }
    }
}

/// The recurrence computes the optimum: `best_value` is reached by a
/// feasible choice of the first `i` items and exceeded by none.
pub proof fn lemma_best_value_is_optimum(
    weights: Seq<usize>,
    benefits: Seq<usize>,
    i: nat,
    c: nat,
)
    ensures
        is_optimum(weights, benefits, i, c, best_value(weights, benefits, i, c)),
{
    lemma_best_choice_reaches_best_value(weights, benefits, i, c);
    assert forall|chosen: Seq<bool>| feasible(weights, chosen, i, c) implies #[trigger] chosen_sum(
        benefits,
        chosen,
    ) <= best_value(weights, benefits, i, c) by {
        lemma_best_value_bounds_every_choice(weights, benefits, chosen, c);
    }
}

/// A prefix adds up to no more than the whole.
proof fn lemma_total_prefix(values: Seq<usize>, k: int)
    requires
        0 <= k <= values.len(),
    ensures
        total(values.subrange(0, k)) <= total(values),
    decreases values.len(),
{
    if k == values.len() {
        assert(values.subrange(0, k) =~= values);
    } else {
        lemma_total_prefix(values.drop_last(), k);
        assert(values.drop_last().subrange(0, k) =~= values.subrange(0, k));
    }
}

/// No value of the table exceeds the benefits taken together.
pub proof fn lemma_best_value_within_total(
    weights: Seq<usize>,
    benefits: Seq<usize>,
    i: nat,
    c: nat,
)
    requires
        i <= benefits.len(),
    ensures
        best_value(weights, benefits, i, c) <= total(benefits.subrange(0, i as int)),
        total(benefits.subrange(0, i as int)) <= total(benefits),
    decreases i,
{
    if i > 0 {
        lemma_best_value_within_total(weights, benefits, (i - 1) as nat, c);
        let w = weights[i - 1] as nat;
        if w <= c {
            lemma_best_value_within_total(weights, benefits, (i - 1) as nat, (c - w) as nat);
        }
        assert(benefits.subrange(0, i as int).drop_last() =~= benefits.subrange(0, i - 1));
    }
    lemma_total_prefix(benefits, i as int);
}

/// `table_of` is the table, provided its values fit in a `usize`.
pub proof fn lemma_table_of_is_table(weights: Seq<usize>, benefits: Seq<usize>, capacity: nat)
    requires
        best_value(weights, benefits, weights.len(), capacity) <= usize::MAX,
    ensures
        is_table(table_of(weights, benefits, capacity), weights, benefits, capacity),
{
    let grid = table_of(weights, benefits, capacity);
    assert forall|i: int, c: int|
        0 <= i < grid.len() && 0 <= c <= capacity implies #[trigger] grid[i][c] == best_value(
        weights,
        benefits,
        i as nat,
        c as nat,
    ) by {
        lemma_best_value_grows_with_items(weights, benefits, i as nat, weights.len(), c as nat);
        lemma_best_value_grows_with_capacity(
            weights,
            benefits,
            weights.len(),
            c as nat,
            capacity,
        );
    }
}

/// A table is what `table_of` writes out.
pub proof fn lemma_table_is_written_out(
    grid: Seq<Seq<usize>>,
    weights: Seq<usize>,
    benefits: Seq<usize>,
    capacity: nat,
)
    requires
        is_table(grid, weights, benefits, capacity),
    ensures
        grid == table_of(weights, benefits, capacity),
{
    let written = table_of(weights, benefits, capacity);
    assert forall|i: int| 0 <= i < grid.len() implies grid[i] =~= written[i] by {
        assert forall|c: int| 0 <= c < grid[i].len() implies grid[i][c] == written[i][c] by {}
    }
    assert(grid =~= written);
}

/// An instance has one table only: two grids that are its table are equal,
/// cell by cell. So the same capacity and items always give the same table.
pub proof fn lemma_table_unique(
    first: Seq<Seq<usize>>,
    second: Seq<Seq<usize>>,
    weights: Seq<usize>,
    benefits: Seq<usize>,
    capacity: nat,
)
    requires
        is_table(first, weights, benefits, capacity),
        is_table(second, weights, benefits, capacity),
    ensures
        first == second,
{
    lemma_table_is_written_out(first, weights, benefits, capacity);
    lemma_table_is_written_out(second, weights, benefits, capacity);
}

/// In a table row 0 is all zeros, no value shrinks from one row to the
/// next, and every cell holds the optimum for its row and column.
pub proof fn lemma_table_properties(
    grid: Seq<Seq<usize>>,
    weights: Seq<usize>,
    benefits: Seq<usize>,
    capacity: nat,
)
    requires
        is_table(grid, weights, benefits, capacity),
    ensures
        forall|c: int| 0 <= c <= capacity ==> #[trigger] grid[0][c] == 0,
        forall|i: int, c: int|
            1 <= i <= weights.len() && 0 <= c <= capacity ==> #[trigger] grid[i][c] >= grid[i
                - 1][c],
        forall|i: int, c: int|
            0 <= i <= weights.len() && 0 <= c <= capacity ==> is_optimum(
                weights,
                benefits,
                i as nat,
                c as nat,
                #[trigger] grid[i][c] as nat,
            ),
{
    assert forall|i: int, c: int|
        0 <= i <= weights.len() && 0 <= c <= capacity implies is_optimum(
        weights,
        benefits,
        i as nat,
        c as nat,
        #[trigger] grid[i][c] as nat,
    ) by {
        lemma_best_value_is_optimum(weights, benefits, i as nat, c as nat);
    }
}

/// The rows of a vector of vectors, seen as a grid, are the views of its
/// rows.
pub proof fn lemma_grid_rows(table: Vec<Vec<usize>>)
    ensures
        table.deep_view().len() == table@.len(),
        forall|i: int| 0 <= i < table@.len() ==> table.deep_view()[i] == (#[trigger] table@[i])@,
{
    assert forall|i: int| 0 <= i < table@.len() implies table.deep_view()[i] =~= (
    #[trigger] table@[i])@ by {}
}

/// Row 0 of a table: `capacity + 1` zeros.
fn zero_row(capacity: usize) -> (row: Vec<usize>)
    requires
        capacity < usize::MAX,
    ensures
        row@.len() == capacity + 1,
        forall|k: int| 0 <= k <= capacity ==> row@[k] == 0,
{
    let mut row: Vec<usize> = Vec::new();
    let mut c: usize = 0;
    while c <= capacity
        invariant
            capacity < usize::MAX,
            c <= capacity + 1,
            row@.len() == c,
            forall|k: int| 0 <= k < c ==> row@[k] == 0,
        decreases capacity + 1 - c,
    {
        row.push(0);
        c += 1;
    }
    row
}

/// The row below `above`, which is row `done` of the table: the row that
/// adds item `done + 1`. `None` where a value of that row is beyond a
/// `usize`, which is so exactly if its last value is.
fn next_row(
    above: &Vec<usize>,
    weights: &[usize],
    benefits: &[usize],
    done: usize,
    capacity: usize,
) -> (r: Option<Vec<usize>>)
    requires
        weights@.len() == benefits@.len(),
        done < weights@.len(),
        capacity < usize::MAX,
        above@.len() == capacity + 1,
        forall|k: int|
            0 <= k <= capacity ==> #[trigger] above@[k] == best_value(
                weights@,
                benefits@,
                done as nat,
                k as nat,
            ),
    ensures
        r is Some <==> best_value(weights@, benefits@, (done + 1) as nat, capacity as nat)
            <= usize::MAX,
        r matches Some(row) ==> {
            &&& row@.len() == capacity + 1
            &&& forall|k: int|
                0 <= k <= capacity ==> #[trigger] row@[k] == best_value(
                    weights@,
                    benefits@,
                    (done + 1) as nat,
                    k as nat,
                )
        },
{
    let w = weights[done];
    let b = benefits[done];
    let mut row: Vec<usize> = Vec::new();
    let mut c: usize = 0;
    while c <= capacity
        invariant
            weights@.len() == benefits@.len(),
            done < weights@.len(),
            capacity < usize::MAX,
            w == weights@[done as int],
            b == benefits@[done as int],
            above@.len() == capacity + 1,
            forall|k: int|
                0 <= k <= capacity ==> #[trigger] above@[k] == best_value(
                    weights@,
                    benefits@,
                    done as nat,
                    k as nat,
                ),
            c <= capacity + 1,
            row@.len() == c,
            forall|k: int|
                0 <= k < c ==> #[trigger] row@[k] == best_value(
                    weights@,
                    benefits@,
                    (done + 1) as nat,
                    k as nat,
                ),
        decreases capacity + 1 - c,
    {
        let skip = above[c];
        let value = if w > c {
            skip
        } else {
            match above[c - w].checked_add(b) {
                Some(take) => if take > skip {
                    take
                } else {
                    skip
                },
                None => {
                    proof {
                        lemma_best_value_grows_with_capacity(
                            weights@,
                            benefits@,
                            (done + 1) as nat,
                            c as nat,
                            capacity as nat,
                        );
                    }
                    return None;
                },
            }
        };
        row.push(value);
        c += 1;
    }
    assert(row@[capacity as int] == best_value(
        weights@,
        benefits@,
        (done + 1) as nat,
        capacity as nat,
    ));
    Some(row)
}

/// Whether all of `values` together fit in a `usize`.
fn total_fits(values: &[usize]) -> (r: bool)
    ensures
        r == (total(values@) <= usize::MAX),
{
    let mut sum: usize = 0;
    let mut k: usize = 0;
    while k < values.len()
        invariant
            k <= values@.len(),
            sum == total(values@.subrange(0, k as int)),
        decreases values@.len() - k,
    {
        assert(values@.subrange(0, k + 1).drop_last() =~= values@.subrange(0, k as int));
        match sum.checked_add(values[k]) {
            Some(s) => {
                sum = s;
            },
            None => {
                proof {
                    lemma_total_prefix(values@, k + 1);
                }
                return false;
            },
        }
        k += 1;
    }
    assert(values@.subrange(0, k as int) =~= values@);
    true
}

/// Tells whether every value of the table fits in a `usize`, which is so
/// exactly if the optimum in its last cell does. Where all benefits
/// together fit, so does the optimum, and nothing more is looked at.
/// Otherwise the recurrence is run row by row, keeping one row.
pub fn optimum_fits(capacity: usize, weights: &[usize], benefits: &[usize]) -> (r: bool)
    requires
        weights@.len() == benefits@.len(),
        capacity < usize::MAX,
    ensures
        r == (best_value(weights@, benefits@, weights@.len(), capacity as nat) <= usize::MAX),
{
    let n = weights.len();
    if total_fits(benefits) {
        proof {
            lemma_best_value_within_total(weights@, benefits@, n as nat, capacity as nat);
        }
        return true;
    }
    let mut above = zero_row(capacity);
    let mut done: usize = 0;
    while done < n
        invariant
            n == weights@.len(),
            n == benefits@.len(),
            capacity < usize::MAX,
            done <= n,
            above@.len() == capacity + 1,
            forall|k: int|
                0 <= k <= capacity ==> #[trigger] above@[k] == best_value(
                    weights@,
                    benefits@,
                    done as nat,
                    k as nat,
                ),
        decreases n - done,
    {
        match next_row(&above, weights, benefits, done, capacity) {
            Some(row) => {
                above = row;
            },
            None => {
                proof {
                    lemma_best_value_grows_with_items(
                        weights@,
                        benefits@,
                        (done + 1) as nat,
                        n as nat,
                        capacity as nat,
                    );
                }
                return false;
            },
        }
        done += 1;
    }
    assert(above@[capacity as int] == best_value(weights@, benefits@, n as nat, capacity as nat));
    true
}

/// Fills the table of the knapsack problem with the given capacity and
/// items: `weights.len() + 1` rows of `capacity + 1` cells, the cell in row
/// `i`, column `c` holding the optimum for the first `i` items under
/// capacity `c`. Row 0 is all zeros and no value shrinks from one row to the
/// next.
///
/// The table must be representable: `capacity + 1` columns, and a final
/// value that fits in a `usize`; `optimum_fits` tells whether it does.
pub fn knapsack_table(capacity: usize, weights: &[usize], benefits: &[usize]) -> (table: Vec<
    Vec<usize>,
>)
    requires
        weights.len() == benefits.len(),
        capacity < usize::MAX,
        best_value(weights@, benefits@, weights.len() as nat, capacity as nat) <= usize::MAX,
    ensures
        is_table(table.deep_view(), weights@, benefits@, capacity as nat),
        table.deep_view().len() == table@.len(),
        forall|i: int| 0 <= i < table@.len() ==> table.deep_view()[i] == (#[trigger] table@[i])@,
        forall|c: int| 0 <= c <= capacity ==> #[trigger] table.deep_view()[0][c] == 0,
        forall|i: int, c: int|
            1 <= i <= weights.len() && 0 <= c <= capacity ==> #[trigger] table.deep_view()[i][c]
                >= table.deep_view()[i - 1][c],
        forall|i: int, c: int|
            0 <= i <= weights.len() && 0 <= c <= capacity ==> is_optimum(
                weights@,
                benefits@,
                i as nat,
                c as nat,
                #[trigger] table.deep_view()[i][c] as nat,
            ),
{
    let n = weights.len();
    let mut table: Vec<Vec<usize>> = Vec::new();
    table.push(zero_row(capacity));
    let mut done: usize = 0;
    while done < n
        invariant
            n == weights.len(),
            n == benefits.len(),
            capacity < usize::MAX,
            best_value(weights@, benefits@, n as nat, capacity as nat) <= usize::MAX,
            done <= n,
            table@.len() == done + 1,
            forall|i: int| 0 <= i <= done ==> (#[trigger] table@[i])@.len() == capacity + 1,
            forall|i: int, k: int|
                0 <= i <= done && 0 <= k <= capacity ==> #[trigger] table@[i]@[k] == best_value(
                    weights@,
                    benefits@,
                    i as nat,
                    k as nat,
                ),
        decreases n - done,
    {
        proof {
            lemma_best_value_grows_with_items(
                weights@,
                benefits@,
                (done + 1) as nat,
                n as nat,
                capacity as nat,
            );
        }
        let row = next_row(&table[done], weights, benefits, done, capacity).unwrap();
        table.push(row);
        done += 1;
    }
    proof {
        lemma_grid_rows(table);
        lemma_table_properties(table.deep_view(), weights@, benefits@, capacity as nat);
    }
    table
}

} // verus!
