//! Pairwise trace-total engine over labeled sequences.
//!
//! A dataset is an ordered collection of sequences of categorical labels.
//! For every unordered pair of sequences the engine multiplies together a
//! per-position compatibility factor over a chosen set of probe positions
//! and sums the products into a single scalar, the trace total.
//!
//! The three factors of the rule are 0.5, 5.0 and -4.0: every factor is half
//! an integer, so a product of `m` factors is an integer divided by `2^m`.
//! The engine therefore carries each factor doubled (1, 10 or -8) and
//! computes the total exactly in integer arithmetic; the result is returned
//! as a numerator together with the number of halvings that scale it back.

pub mod factor;
pub mod engine;
pub mod laws;

pub use factor::rho_elt_process;
pub use engine::{get_trace, perform_trace_calculation, Trace, TraceError};
