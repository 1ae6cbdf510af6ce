//! A step-by-step engine for the 0/1 knapsack dynamic programme.
//!
//! The library fills the table of the dynamic programme for a capacity and a
//! list of items, and reveals it cell by cell. It decides, for every cell,
//! whether it is hidden, the cell revealed last, a cell whose item was
//! taken, or an ordinary value, and it reports how far the walk has come.
//! Drawing is left to the caller.
//!
//! - [`text`] reads numbers and comma-separated lists from form text and
//!   writes numbers.
//! - [`instance`] holds a problem that meets the rules, and the errors for
//!   input that does not.
//! - [`knapsack`] says what the table means and fills it.
//! - [`reveal_state`] is the walk through the cells.
//! - [`cell`] looks at one cell under a state of the walk.
//! - [`backtrack`] finds the items of an optimal choice in a table.
//! - [`progress`] reports the share of cells that is shown.
//! - [`session`] ties them together: the state behind the two commands,
//!   solve and step.
//!
//! Every function is verified against its contract; the contracts speak of
//! sequences and numbers, through the view of each type.

pub mod backtrack;
pub mod cell;
pub mod instance;
pub mod knapsack;
pub mod progress;
pub mod reveal_state;
pub mod session;
pub mod text;

pub use crate::cell::{CellClass, CellView};
pub use crate::instance::{InputError, Item, ProblemInstance};
pub use crate::progress::Progress;
pub use crate::reveal_state::RevealState;
pub use crate::session::Session;
