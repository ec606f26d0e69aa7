//! A string calculator: sums the numbers written in a delimited string, with
//! custom separators, newline separators, rejection of negative numbers and
//! an upper bound on the values that count.

pub mod calculator;
pub mod laws;
pub mod numeric;
pub mod text;

pub use calculator::{CalcError, StringCalculator};
pub use numeric::NumericSummable;
