use mochila::backtrack::backtrack_path;
use mochila::cell::{CellClass, CellView};
use mochila::instance::ProblemInstance;
use mochila::knapsack::knapsack_table;
use mochila::session::Session;

#[test]
fn the_way_back_marks_the_cells_whose_item_was_taken() {
    let weights = [2usize, 3, 4];
    let benefits = [3usize, 4, 5];
    let table = knapsack_table(6, &weights, &benefits);
    assert_eq!(backtrack_path(&table, &weights, &benefits, 6), vec![(3, 6), (1, 2)]);
}

#[test]
fn the_way_back_goes_straight_up_on_a_tie() {
    let weights = [1usize, 1];
    let benefits = [5usize, 5];
    let table = knapsack_table(1, &weights, &benefits);
    assert_eq!(backtrack_path(&table, &weights, &benefits, 1), vec![(1, 1)]);
}

#[test]
fn the_way_back_marks_nothing_where_nothing_fits() {
    let weights = [5usize, 7];
    let benefits = [1usize, 1];
    let table = knapsack_table(4, &weights, &benefits);
    assert_eq!(backtrack_path(&table, &weights, &benefits, 4), Vec::new());
}

#[test]
fn the_way_back_through_a_table_without_items_is_empty() {
    let table = knapsack_table(4, &[], &[]);
    assert_eq!(backtrack_path(&table, &[], &[], 4), Vec::new());
}

#[test]
fn the_marked_items_are_an_optimal_choice() {
    let mut seed: u64 = 0x9E3779B97F4A7C15;
    let mut next = move |bound: u64| -> usize {
        seed ^= seed << 13;
        seed ^= seed >> 7;
        seed ^= seed << 17;
        (seed % bound) as usize
    };
    for _ in 0..60 {
        let n = 1 + next(10);
        let capacity = 1 + next(30);
        let weights: Vec<usize> = (0..n).map(|_| next(12)).collect();
        let benefits: Vec<usize> = (0..n).map(|_| next(50)).collect();
        let table = knapsack_table(capacity, &weights, &benefits);
        let path = backtrack_path(&table, &weights, &benefits, capacity);
        let weight: usize = path.iter().map(|&(row, _)| weights[row - 1]).sum();
        let benefit: usize = path.iter().map(|&(row, _)| benefits[row - 1]).sum();
        assert!(weight <= capacity);
        assert_eq!(benefit, table[n][capacity]);
        for pair in path.windows(2) {
            assert!(pair[0].0 > pair[1].0);
        }
    }
}

#[test]
fn a_session_walks_back_through_its_table() {
    let mut session = Session::new();
    session.solve(ProblemInstance::new(6, vec![2, 3, 4], vec![3, 4, 5]).unwrap());
    assert_eq!(session.backtrack_path(), vec![(3, 6), (1, 2)]);
}

#[test]
fn a_cell_on_the_path_is_marked_unless_hidden_or_active() {
    let cell =
        |classification: CellClass, visible: bool| CellView { value: 8, visible, classification };
    assert_eq!(cell(CellClass::Took, true).on_path(), cell(CellClass::Backtrack, true));
    assert_eq!(cell(CellClass::Normal, true).on_path(), cell(CellClass::Backtrack, true));
    assert_eq!(cell(CellClass::Active, true).on_path(), cell(CellClass::Active, true));
    assert_eq!(cell(CellClass::Hidden, false).on_path(), cell(CellClass::Hidden, false));
    assert_eq!(cell(CellClass::Base, true).on_path(), cell(CellClass::Base, true));
    assert_eq!(cell(CellClass::Backtrack, true).on_path(), cell(CellClass::Backtrack, true));
}
