//! Computation core of a token wrap/unwrap front-end: a fixed-point amount
//! codec, the pair resolver, the wrapper lookup, the fee/output quote, and a
//! session that holds the current selection and recomputes its quote.

pub mod numerals;
pub mod pair;
pub mod quote;
pub mod session;
pub mod uint;
pub mod units;
