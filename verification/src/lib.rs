//! Determinant Mutual Information payments for peer prediction.
//!
//! Agents answer a shared list of tasks with one of `choice_n` categories each.
//! For every ordered pair of agents the library counts, on each half of the
//! task list, how often each pair of categories occurs together. The
//! determinants of these two count tables, multiplied, score the pair; the
//! scores of an agent, scaled by a combinatorial factor, are its payments.
//!
//! Everything here is integer work. What the library computes is proved
//! against its contract; what `ndarray` and `factorial` compute is taken on
//! trust, each call behind a small function that says what is taken. The
//! determinants and the running sums are floating point and left to the caller.

pub mod combinatorics;
pub mod dmi;
pub mod error;
pub mod matrix;
pub mod mechanism;
pub mod payments;

pub use dmi::{Engine, DMI};
pub use error::DMIError;
pub use matrix::Matrix;
