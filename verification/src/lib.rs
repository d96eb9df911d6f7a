//! Calendar arithmetic and duration breakdowns.
//!
//! The crate answers questions about dates: how far apart two dates are, what
//! date lies a duration away from another, how a number of days reads in
//! years, months, weeks and days, and what the calendar says of a date.
//!
//! - [`calendar`] is the Gregorian calendar as a mathematical model; every
//!   contract of the crate is stated over it.
//! - [`date`] holds the executable dates. Their computations are done by
//!   `chrono`, behind functions that state what they rely on.
//! - [`text`] reads and writes numbers and words.
//! - [`parser`] reads durations such as "3 weeks", and resolves date
//!   expressions.
//! - [`types`] holds the breakdowns and the answers of the operations.
//! - [`tools`] holds the operations.
//!
//! The clock of the host and the resolver of natural language are not part
//! of the crate: an operation that needs the current date takes it as an
//! argument, and one that takes a date expression takes with it what the
//! resolver found for that expression.

pub mod calendar;
pub mod date;
pub mod parser;
pub mod text;
pub mod tools;
pub mod types;
