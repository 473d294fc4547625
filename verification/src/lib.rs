//! Tolerance checks for test code.
//!
//! A [`MCAPTester`] compares measured values with expected ones, records
//! whether any comparison failed, and hands back the diagnostic text of each
//! failure so that one test can report all of its mismatches before it stops.
//!
//! Numbers reach this crate as the bit patterns of IEEE-754 binary64 values
//! (`f64::to_bits`). The crate orders such patterns and never does
//! arithmetic on them: the caller supplies the difference between a
//! measurement and its expectation, and the crate decides whether that
//! difference is within the tolerance.

pub mod binary64;
pub mod decimal;
pub mod diagnostic;
pub mod comparison;
pub mod tester;

pub use comparison::Comparison;
pub use diagnostic::Mismatch;
pub use tester::{MCAPTester, Status};
