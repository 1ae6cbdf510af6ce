use mochila::knapsack::{knapsack_table, optimum_fits};

fn brute_force(capacity: usize, weights: &[usize], benefits: &[usize]) -> usize {
    let n = weights.len();
    let mut best = 0;
    for mask in 0u32..(1u32 << n) {
        let mut weight = 0;
        let mut benefit = 0;
        for k in 0..n {
            if mask & (1 << k) != 0 {
                weight += weights[k];
                benefit += benefits[k];
            }
        }
        if weight <= capacity && benefit > best {
            best = benefit;
        }
    }
    best
}

#[test]
fn example_table_is_as_computed_by_hand() {
    let table = knapsack_table(6, &[2, 3, 4], &[3, 4, 5]);
    let expected: Vec<Vec<usize>> = vec![
        vec![0, 0, 0, 0, 0, 0, 0],
        vec![0, 0, 3, 3, 3, 3, 3],
        vec![0, 0, 3, 4, 4, 7, 7],
        vec![0, 0, 3, 4, 5, 7, 8],
    ];
    assert_eq!(table, expected);
}

#[test]
fn example_final_cell_is_the_optimum() {
    let table = knapsack_table(6, &[2, 3, 4], &[3, 4, 5]);
    assert_eq!(table[3][6], 8);
    assert_eq!(table[3][6], brute_force(6, &[2, 3, 4], &[3, 4, 5]));
}

#[test]
fn table_has_a_row_per_item_count_and_a_column_per_capacity() {
    let table = knapsack_table(9, &[4, 1, 7, 2, 2], &[10, 1, 3, 8, 8]);
    assert_eq!(table.len(), 6);
    for row in &table {
        assert_eq!(row.len(), 10);
    }
}

#[test]
fn row_zero_is_all_zeros() {
    let table = knapsack_table(9, &[4, 1, 7, 2, 2], &[10, 1, 3, 8, 8]);
    assert_eq!(table[0], vec![0usize; 10]);
}

#[test]
fn values_never_shrink_down_a_column_nor_along_a_row() {
    let table = knapsack_table(9, &[4, 1, 7, 2, 2], &[10, 1, 3, 8, 8]);
    for i in 1..table.len() {
        for c in 0..table[i].len() {
            assert!(table[i][c] >= table[i - 1][c]);
            if c > 0 {
                assert!(table[i][c] >= table[i][c - 1]);
            }
        }
    }
}

#[test]
fn no_items_give_a_single_zero_row() {
    let table = knapsack_table(4, &[], &[]);
    assert_eq!(table, vec![vec![0usize; 5]]);
}

#[test]
fn capacity_zero_gives_one_column() {
    let table = knapsack_table(0, &[0, 1], &[6, 9]);
    assert_eq!(table, vec![vec![0usize], vec![6], vec![6]]);
}

#[test]
fn an_item_of_weight_zero_is_always_taken() {
    let table = knapsack_table(2, &[0], &[7]);
    assert_eq!(table[1], vec![7, 7, 7]);
}

#[test]
fn an_item_too_heavy_for_the_knapsack_is_never_taken() {
    let table = knapsack_table(3, &[4, 2], &[100, 1]);
    assert_eq!(table[1], vec![0, 0, 0, 0]);
    assert_eq!(table[2], vec![0, 0, 1, 1]);
}

#[test]
fn same_input_gives_the_same_table() {
    let first = knapsack_table(11, &[3, 5, 5, 1], &[2, 9, 9, 1]);
    let second = knapsack_table(11, &[3, 5, 5, 1], &[2, 9, 9, 1]);
    assert_eq!(first, second);
}

#[test]
fn every_cell_is_the_brute_force_optimum() {
    let weights = [3usize, 1, 4, 1, 5, 9, 2, 6];
    let benefits = [2usize, 7, 1, 8, 2, 8, 1, 8];
    let capacity = 12;
    let table = knapsack_table(capacity, &weights, &benefits);
    for i in 0..=weights.len() {
        for c in 0..=capacity {
            assert_eq!(table[i][c], brute_force(c, &weights[..i], &benefits[..i]));
        }
    }
}

#[test]
fn final_cell_is_the_brute_force_optimum_on_many_instances() {
    let mut seed: u64 = 0x2545F4914F6CDD1D;
    let mut next = move |bound: u64| -> usize {
        seed ^= seed << 13;
        seed ^= seed >> 7;
        seed ^= seed << 17;
        (seed % bound) as usize
    };
    for _ in 0..60 {
        let n = 1 + next(10);
        let capacity = 1 + next(30);
        let weights: Vec<usize> = (0..n).map(|_| next(12)).collect();
        let benefits: Vec<usize> = (0..n).map(|_| next(50)).collect();
        let table = knapsack_table(capacity, &weights, &benefits);
        assert_eq!(table[n][capacity], brute_force(capacity, &weights, &benefits));
    }
}

#[test]
fn values_up_to_the_largest_number_are_held() {
    let table = knapsack_table(2, &[1, 1, 5], &[usize::MAX - 1, 1, usize::MAX]);
    assert_eq!(table[3][2], usize::MAX);
}

#[test]
fn the_optimum_fits_where_no_sum_passes_the_largest_number() {
    assert!(optimum_fits(6, &[2, 3, 4], &[3, 4, 5]));
    assert!(optimum_fits(4, &[], &[]));
    assert!(optimum_fits(1, &[5, 5], &[usize::MAX, usize::MAX]));
    assert!(optimum_fits(3, &[2, 2], &[usize::MAX, usize::MAX]));
    assert!(optimum_fits(2, &[1, 1], &[usize::MAX - 1, 1]));
    assert!(optimum_fits(0, &[0], &[usize::MAX]));
}

#[test]
fn the_optimum_does_not_fit_where_a_sum_passes_the_largest_number() {
    assert!(!optimum_fits(4, &[2, 2], &[usize::MAX, usize::MAX]));
    assert!(!optimum_fits(2, &[1, 1], &[usize::MAX, 1]));
    assert!(!optimum_fits(0, &[0, 0], &[usize::MAX, 1]));
    assert!(!optimum_fits(2, &[0, 0, 9], &[usize::MAX, 1, 0]));
}

#[test]
fn a_table_of_items_that_do_not_fit_is_all_zeros() {
    let table = knapsack_table(1, &[5, 5], &[usize::MAX, usize::MAX]);
    assert_eq!(table, vec![vec![0usize, 0], vec![0, 0], vec![0, 0]]);
}
