use mochila::instance::{validate, InputError, Item, ProblemInstance};

#[test]
fn a_valid_form_gives_the_instance() {
    let instance = validate("6", "2, 3, 4", "3, 4, 5").unwrap();
    assert_eq!(instance.capacity(), 6);
    assert_eq!(instance.len(), 3);
    assert_eq!(instance.weights(), &vec![2, 3, 4]);
    assert_eq!(instance.benefits(), &vec![3, 4, 5]);
    assert_eq!(instance.item(1), Item { weight: 2, benefit: 3 });
    assert_eq!(instance.item(3), Item { weight: 4, benefit: 5 });
}

#[test]
fn capacity_text_zero_is_invalid() {
    assert_eq!(validate("0", "2,3,4", "3,4,5").unwrap_err(), InputError::InvalidCapacity);
}

#[test]
fn capacity_text_that_is_no_number_is_invalid() {
    assert_eq!(validate("", "2,3,4", "3,4,5").unwrap_err(), InputError::InvalidCapacity);
    assert_eq!(validate("six", "2,3,4", "3,4,5").unwrap_err(), InputError::InvalidCapacity);
    assert_eq!(validate("-6", "2,3,4", "3,4,5").unwrap_err(), InputError::InvalidCapacity);
    assert_eq!(validate("6.0", "2,3,4", "3,4,5").unwrap_err(), InputError::InvalidCapacity);
}

#[test]
fn capacity_text_is_trimmed() {
    assert_eq!(validate(" 6 ", "1", "1").unwrap().capacity(), 6);
}

#[test]
fn a_bad_weight_is_named() {
    assert_eq!(
        validate("6", "2,x,4", "3,4,5").unwrap_err(),
        InputError::InvalidWeightToken(String::from("x"))
    );
}

#[test]
fn a_bad_benefit_is_named() {
    assert_eq!(
        validate("6", "2,3,4", "3, 4 5 ,z").unwrap_err(),
        InputError::InvalidBenefitToken(String::from("4 5"))
    );
}

#[test]
fn empty_weights_text_is_a_bad_weight() {
    assert_eq!(
        validate("6", "", "3,4,5").unwrap_err(),
        InputError::InvalidWeightToken(String::new())
    );
}

#[test]
fn unequal_counts_are_reported_with_both_counts() {
    assert_eq!(validate("6", "1,2", "1,2,3").unwrap_err(), InputError::LengthMismatch(2, 3));
    assert_eq!(validate("6", "1,2,3", "1").unwrap_err(), InputError::LengthMismatch(3, 1));
}

#[test]
fn the_capacity_is_looked_at_first_then_weights_then_benefits() {
    assert_eq!(validate("0", "x", "y").unwrap_err(), InputError::InvalidCapacity);
    assert_eq!(
        validate("1", "x", "y").unwrap_err(),
        InputError::InvalidWeightToken(String::from("x"))
    );
    assert_eq!(
        validate("1", "1,2", "y").unwrap_err(),
        InputError::InvalidBenefitToken(String::from("y"))
    );
}

#[test]
fn values_are_held_against_the_rules_in_order() {
    assert_eq!(ProblemInstance::new(0, vec![], vec![1]).unwrap_err(), InputError::InvalidCapacity);
    assert_eq!(ProblemInstance::new(1, vec![], vec![1]).unwrap_err(), InputError::EmptyWeights);
    assert_eq!(ProblemInstance::new(1, vec![], vec![]).unwrap_err(), InputError::EmptyWeights);
    assert_eq!(
        ProblemInstance::new(1, vec![1], vec![]).unwrap_err(),
        InputError::LengthMismatch(1, 0)
    );
    assert!(ProblemInstance::new(1, vec![1], vec![1]).is_ok());
}

#[test]
fn a_table_beyond_counting_is_too_large() {
    assert_eq!(
        ProblemInstance::new(usize::MAX, vec![1], vec![1]).unwrap_err(),
        InputError::TooLarge
    );
    assert_eq!(
        ProblemInstance::new(usize::MAX / 2, vec![1], vec![1]).unwrap_err(),
        InputError::TooLarge
    );
    assert!(ProblemInstance::new(usize::MAX / 2 - 1, vec![1], vec![1]).is_ok());
}

#[test]
fn an_optimum_beyond_the_largest_number_is_too_large() {
    assert_eq!(
        ProblemInstance::new(3, vec![1, 1], vec![usize::MAX, 1]).unwrap_err(),
        InputError::TooLarge
    );
    assert!(ProblemInstance::new(3, vec![1, 1], vec![usize::MAX - 1, 1]).is_ok());
}

#[test]
fn a_form_whose_table_is_beyond_counting_is_too_large() {
    let capacity = usize::MAX.to_string();
    assert_eq!(validate(&capacity, "1", "1").unwrap_err(), InputError::TooLarge);
}

#[test]
fn each_error_has_its_message() {
    assert_eq!(InputError::InvalidCapacity.message(), "Capacity (m) must be a positive integer.");
    assert_eq!(
        InputError::InvalidWeightToken(String::from("x")).message(),
        "Weights: 'x' is not a valid positive integer"
    );
    assert_eq!(
        InputError::InvalidBenefitToken(String::from("4 5")).message(),
        "Benefits: '4 5' is not a valid positive integer"
    );
    assert_eq!(InputError::EmptyWeights.message(), "Enter at least one weight.");
    assert_eq!(
        InputError::LengthMismatch(2, 13).message(),
        "Number of weights (2) must equal number of benefits (13)."
    );
    assert_eq!(InputError::TooLarge.message(), "The table for this input is too large.");
}

#[test]
fn an_instance_fills_its_table() {
    let instance = ProblemInstance::new(6, vec![2, 3, 4], vec![3, 4, 5]).unwrap();
    let table = instance.table();
    assert_eq!(table.len(), 4);
    assert_eq!(table[3], vec![0, 0, 3, 4, 5, 7, 8]);
}

#[test]
fn the_largest_benefits_that_fit_give_a_table() {
    let instance = ProblemInstance::new(2, vec![1, 1], vec![usize::MAX - 1, 1]).unwrap();
    assert_eq!(instance.table()[2][2], usize::MAX);
}

#[test]
fn benefits_of_items_that_do_not_fit_do_not_count() {
    let instance = ProblemInstance::new(1, vec![5, 5], vec![usize::MAX, usize::MAX]).unwrap();
    assert_eq!(instance.table(), vec![vec![0usize, 0], vec![0, 0], vec![0, 0]]);
}

#[test]
fn benefits_that_are_never_taken_together_do_not_count() {
    let instance = ProblemInstance::new(3, vec![2, 2], vec![usize::MAX, usize::MAX]).unwrap();
    assert_eq!(instance.table()[2], vec![0, 0, usize::MAX, usize::MAX]);
    assert_eq!(
        ProblemInstance::new(4, vec![2, 2], vec![usize::MAX, usize::MAX]).unwrap_err(),
        InputError::TooLarge
    );
}

#[test]
fn an_overflow_in_an_early_row_is_too_large() {
    assert_eq!(
        ProblemInstance::new(2, vec![0, 0, 9], vec![usize::MAX, 1, 0]).unwrap_err(),
        InputError::TooLarge
    );
}

#[test]
fn a_form_with_huge_benefits_that_do_not_fit_is_valid() {
    let largest = usize::MAX.to_string();
    let benefits = format!("{}, {}", largest, largest);
    let instance = validate("1", "5,5", &benefits).unwrap();
    assert_eq!(instance.benefits(), &vec![usize::MAX, usize::MAX]);
}
