//! Problem instances and the rules that form input must meet to become one.

use crate::knapsack::{
    best_value, is_table, knapsack_table, lemma_best_value_grows_with_capacity,
    lemma_best_value_grows_with_items, lemma_table_is_written_out, optimum_fits, table_of,
};
use crate::reveal_state::total_cells;
use crate::text::{
    decimal, lemma_parsed_list_nonempty, parse_list, parse_number, parsed_list, parsed_usize,
    to_decimal, trim,
};
use vstd::prelude::*;

verus! {

/// One thing that may go into the knapsack.
#[derive(Clone, Copy, Debug, PartialEq, Eq, Structural)]
pub struct Item {
    /// What it takes of the capacity.
    pub weight: usize,
    /// What it is worth.
    pub benefit: usize,
}

/// Why input was turned down.
#[derive(Clone, Debug, PartialEq, Eq)]
pub enum InputError {
    /// The capacity is not a number, or is zero.
    InvalidCapacity,
    /// A piece of the weights text is not a number; the piece, trimmed.
    InvalidWeightToken(String),
    /// A piece of the benefits text is not a number; the piece, trimmed.
    InvalidBenefitToken(String),
    /// There is no item.
    EmptyWeights,
    /// The counts of weights and of benefits, which differ.
    LengthMismatch(usize, usize),
    /// The table would have more cells than a `usize` can count, or the
    /// optimum in its last cell exceeds what a `usize` can hold.
    TooLarge,
}

/// An `InputError` with its texts as character sequences.
pub enum InputErrorView {
    InvalidCapacity,
    InvalidWeightToken(Seq<char>),
    InvalidBenefitToken(Seq<char>),
    EmptyWeights,
    LengthMismatch(usize, usize),
    TooLarge,
}

impl View for InputError {
    type V = InputErrorView;

    open spec fn view(&self) -> InputErrorView {
        match *self {
            InputError::InvalidCapacity => InputErrorView::InvalidCapacity,
            InputError::InvalidWeightToken(token) => InputErrorView::InvalidWeightToken(token@),
            InputError::InvalidBenefitToken(token) => InputErrorView::InvalidBenefitToken(token@),
            InputError::EmptyWeights => InputErrorView::EmptyWeights,
            InputError::LengthMismatch(w, b) => InputErrorView::LengthMismatch(w, b),
            InputError::TooLarge => InputErrorView::TooLarge,
        }
    }
}

/// The text shown for an error.
pub open spec fn message_of(e: InputErrorView) -> Seq<char> {
    match e {
        InputErrorView::InvalidCapacity => "Capacity (m) must be a positive integer."@,
        InputErrorView::InvalidWeightToken(token) => "Weights: '"@ + token
            + "' is not a valid positive integer"@,
        InputErrorView::InvalidBenefitToken(token) => "Benefits: '"@ + token
            + "' is not a valid positive integer"@,
        InputErrorView::EmptyWeights => "Enter at least one weight."@,
        InputErrorView::LengthMismatch(w, b) => "Number of weights ("@ + decimal(w as nat)
            + ") must equal number of benefits ("@ + decimal(b as nat) + ")."@,
        InputErrorView::TooLarge => "The table for this input is too large."@,
    }
}

impl InputError {
    /// A sentence that tells the user what to correct.
    pub fn message(&self) -> (text: String)
        ensures
            text@ == message_of(self@),
    {
        match self {
            InputError::InvalidCapacity => String::from_str(
                "Capacity (m) must be a positive integer.",
            ),
            InputError::InvalidWeightToken(token) => String::from_str("Weights: '").concat(
                token.as_str(),
            ).concat("' is not a valid positive integer"),
            InputError::InvalidBenefitToken(token) => String::from_str("Benefits: '").concat(
                token.as_str(),
            ).concat("' is not a valid positive integer"),
            InputError::EmptyWeights => String::from_str("Enter at least one weight."),
            InputError::LengthMismatch(w, b) => String::from_str("Number of weights (").concat(
                to_decimal(*w).as_str(),
            ).concat(") must equal number of benefits (").concat(to_decimal(*b).as_str()).concat(
                ").",
            ),
            InputError::TooLarge => String::from_str("The table for this input is too large."),
        }
    }
}

/// The table of the instance can be held: a `usize` can count its cells,
/// baseline row included, and can hold the optimum in its last cell, hence
/// every value in the table.
pub open spec fn fits(capacity: nat, weights: Seq<usize>, benefits: Seq<usize>) -> bool {
    &&& (weights.len() + 1) * (capacity + 1) <= usize::MAX
    &&& best_value(weights, benefits, weights.len(), capacity) <= usize::MAX
}

/// The first rule that the values break, if any: a capacity of zero, no
/// item, unequal counts, a size beyond `fits`.
pub open spec fn rule_broken(capacity: nat, weights: Seq<usize>, benefits: Seq<usize>) -> Option<
    InputErrorView,
> {
    if capacity == 0 {
        Some(InputErrorView::InvalidCapacity)
    } else if weights.len() == 0 {
        Some(InputErrorView::EmptyWeights)
    } else if weights.len() != benefits.len() {
        Some(InputErrorView::LengthMismatch(weights.len() as usize, benefits.len() as usize))
    } else if !fits(capacity, weights, benefits) {
        Some(InputErrorView::TooLarge)
    } else {
        None
    }
}

/// What a problem instance is made of.
pub struct InstanceView {
    /// The capacity of the knapsack.
    pub capacity: nat,
    /// The weights of the items, in order.
    pub weights: Seq<usize>,
    /// The benefits of the items, in the same order.
    pub benefits: Seq<usize>,
}

/// What the three texts of a form denote: the instance, or the first error
/// met when the capacity, the weights and the benefits are read in this
/// order and the values are then held against the rules.
pub open spec fn validated(capacity: Seq<char>, weights: Seq<char>, benefits: Seq<char>) -> Result<
    InstanceView,
    InputErrorView,
> {
    match parsed_usize(trim(capacity)) {
        None => Err(InputErrorView::InvalidCapacity),
        Some(c) => if c == 0 {
            Err(InputErrorView::InvalidCapacity)
        } else {
            match parsed_list(weights) {
                Err(token) => Err(InputErrorView::InvalidWeightToken(token)),
                Ok(ws) => match parsed_list(benefits) {
                    Err(token) => Err(InputErrorView::InvalidBenefitToken(token)),
                    Ok(bs) => match rule_broken(c as nat, ws, bs) {
                        Some(e) => Err(e),
                        None => Ok(InstanceView { capacity: c as nat, weights: ws, benefits: bs }),
                    },
                },
            }
        },
    }
}

/// Text never gives `EmptyWeights`: a list read from text has at least one
/// number, and weights text that holds none, such as the empty text, has a
/// piece that is not a number. Only `ProblemInstance::new` can find that
/// there is no item.
pub proof fn lemma_text_is_never_empty(capacity: Seq<char>, weights: Seq<char>, benefits: Seq<char>)
    ensures
        !(validated(capacity, weights, benefits) matches Err(InputErrorView::EmptyWeights)),
        validated(capacity, weights, benefits) matches Ok(instance) ==> instance.weights.len() >= 1,
{
    lemma_parsed_list_nonempty(weights);
}

/// A knapsack problem that meets every rule: a positive capacity and at
/// least one item, each with a weight and a benefit, of a size that `fits`.
#[derive(Clone, Debug)]
pub struct ProblemInstance {
    capacity: usize,
    weights: Vec<usize>,
    benefits: Vec<usize>,
}

impl View for ProblemInstance {
    type V = InstanceView;

    closed spec fn view(&self) -> InstanceView {
        InstanceView {
            capacity: self.capacity as nat,
            weights: self.weights@,
            benefits: self.benefits@,
        }
    }
}

/// What `fits` is for: the table has a column beyond index `capacity`, a
/// `usize` can count its data cells, and every value in it is a `usize`.
pub proof fn lemma_fits_bounds(capacity: nat, weights: Seq<usize>, benefits: Seq<usize>)
    requires
        fits(capacity, weights, benefits),
    ensures
        capacity < usize::MAX,
        weights.len() < usize::MAX,
        total_cells(weights.len(), capacity) <= usize::MAX,
        forall|i: nat, c: nat|
            i <= weights.len() && c <= capacity ==> #[trigger] best_value(weights, benefits, i, c)
                <= usize::MAX,
{
    let n = weights.len();
    assert(capacity + 1 <= (n + 1) * (capacity + 1) && n + 1 <= (n + 1) * (capacity + 1) && n * (
        capacity + 1) <= (n + 1) * (capacity + 1)) by (nonlinear_arith);
    assert forall|i: nat, c: nat| i <= weights.len() && c <= capacity implies #[trigger] best_value(
        weights,
        benefits,
        i,
        c,
    ) <= usize::MAX by {
        lemma_best_value_grows_with_items(weights, benefits, i, n, c);
        lemma_best_value_grows_with_capacity(weights, benefits, n, c, capacity);
    }
}

/// Whether a `usize` can count the cells of a grid of `rows + 1` rows and
/// `capacity + 1` columns.
fn grid_fits(rows: usize, capacity: usize) -> (r: bool)
    ensures
        r == ((rows + 1) * (capacity + 1) <= usize::MAX),
{
    if rows == usize::MAX || capacity == usize::MAX {
        assert((rows + 1) * (capacity + 1) > usize::MAX) by (nonlinear_arith)
            requires
                rows == usize::MAX || capacity == usize::MAX,
                rows >= 0,
                capacity >= 0,
        ;
        return false;
    }
    (rows + 1).checked_mul(capacity + 1).is_some()
}

impl ProblemInstance {
    /// The rules that `new` and `validate` establish.
    pub open spec fn wf(&self) -> bool {
        rule_broken(self@.capacity, self@.weights, self@.benefits) is None
    }

    /// Makes an instance of a capacity and the items' weights and benefits,
    /// or names the first rule that they break.
    pub fn new(capacity: usize, weights: Vec<usize>, benefits: Vec<usize>) -> (r: Result<
        ProblemInstance,
        InputError,
    >)
        ensures
            match r {
                Ok(instance) => {
                    &&& rule_broken(capacity as nat, weights@, benefits@) is None
                    &&& instance.wf()
                    &&& instance@.capacity == capacity
                    &&& instance@.weights == weights@
                    &&& instance@.benefits == benefits@
                },
                Err(e) => rule_broken(capacity as nat, weights@, benefits@) == Some(e@),
            },
    {
        if capacity == 0 {
            return Err(InputError::InvalidCapacity);
        }
        if weights.len() == 0 {
            return Err(InputError::EmptyWeights);
        }
        if weights.len() != benefits.len() {
            return Err(InputError::LengthMismatch(weights.len(), benefits.len()));
        }
        if !grid_fits(weights.len(), capacity) {
            return Err(InputError::TooLarge);
        }
        assert(capacity + 1 <= (weights.len() + 1) * (capacity + 1)) by (nonlinear_arith);
        if !optimum_fits(capacity, weights.as_slice(), benefits.as_slice()) {
            return Err(InputError::TooLarge);
        }
        Ok(ProblemInstance { capacity, weights, benefits })
    }

    /// The capacity of the knapsack.
    pub fn capacity(&self) -> (c: usize)
        ensures
            c == self@.capacity,
    {
        self.capacity
    }

    /// The number of items.
    pub fn len(&self) -> (n: usize)
        ensures
            n == self@.weights.len(),
    {
        self.weights.len()
    }

    /// The weights of the items, in order.
    pub fn weights(&self) -> (w: &Vec<usize>)
        ensures
            w@ == self@.weights,
    {
        &self.weights
    }

    /// The benefits of the items, in order.
    pub fn benefits(&self) -> (b: &Vec<usize>)
        ensures
            b@ == self@.benefits,
    {
        &self.benefits
    }

    /// Fills the table of the instance: see `knapsack_table`. An instance
    /// that meets the rules always has one.
    pub fn table(&self) -> (table: Vec<Vec<usize>>)
        requires
            self.wf(),
        ensures
            is_table(table.deep_view(), self@.weights, self@.benefits, self@.capacity),
            table.deep_view() == table_of(self@.weights, self@.benefits, self@.capacity),
    {
        proof {
            lemma_fits_bounds(self@.capacity, self@.weights, self@.benefits);
        }
        let table = knapsack_table(
            self.capacity,
            self.weights.as_slice(),
            self.benefits.as_slice(),
        );
        proof {
            lemma_table_is_written_out(
                table.deep_view(),
                self@.weights,
                self@.benefits,
                self@.capacity,
            );
        }
        table
    }

    /// The item that row `row` of the table adds, rows counted from 1.
    pub fn item(&self, row: usize) -> (item: Item)
        requires
            self.wf(),
            1 <= row <= self@.weights.len(),
        ensures
            item.weight == self@.weights[row - 1],
            item.benefit == self@.benefits[row - 1],
    {
        Item { weight: self.weights[row - 1], benefit: self.benefits[row - 1] }
    }
}

/// Reads the three texts of a form and makes the instance they denote, or
/// returns the first error: the capacity is read first, then the weights,
/// then the benefits, and the values are then held against the rules.
pub fn validate(capacity: &str, weights: &str, benefits: &str) -> (r: Result<
    ProblemInstance,
    InputError,
>)
    ensures
        match r {
            Ok(instance) => instance.wf() && validated(capacity@, weights@, benefits@) == Ok::<
                InstanceView,
                InputErrorView,
            >(instance@),
            Err(e) => validated(capacity@, weights@, benefits@) == Err::<
                InstanceView,
                InputErrorView,
            >(e@),
        },
{
    let c = match parse_number(capacity) {
        Some(c) => c,
        None => {
            return Err(InputError::InvalidCapacity);
        },
    };
    if c == 0 {
        return Err(InputError::InvalidCapacity);
    }
    let ws = match parse_list(weights) {
        Ok(ws) => ws,
        Err(token) => {
            return Err(InputError::InvalidWeightToken(token));
        },
    };
    let bs = match parse_list(benefits) {
        Ok(bs) => bs,
        Err(token) => {
            return Err(InputError::InvalidBenefitToken(token));
        },
    };
    ProblemInstance::new(c, ws, bs)
}

} // verus!
