//! Longest Collatz chain below a bound, computed four ways.
//!
//! The chain of a starting value is the list of values visited by repeating the
//! Collatz step (halve an even value, otherwise triple it and add one) until 1 is
//! reached. The step works on machine words and wraps on overflow, so the model
//! in [`chain`] is stated over `usize` and not over the mathematical integers.
//!
//! Whether every chain reaches 1 is not known, and with wrapping some do not.
//! The functions that walk a chain to its end therefore ask that it has one;
//! [`get_collatz_within`] and [`chains_fit`] ask nothing and can be used to
//! find out.

pub mod brute;
pub mod chain;
pub mod laws;
pub mod longest;
pub mod memo;
pub mod parallel;

pub use brute::p014_brute;
pub use chain::{get_collatz, get_collatz_sequence, get_collatz_within, step};
pub use longest::chains_fit;
pub use memo::{dense_cache, p014_map, p014_vect, sparse_cache};
pub use parallel::p014_parallel;
