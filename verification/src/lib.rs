//! Monthly aggregation engine for an employee / therapy record keeper.
//!
//! The library takes the three record tables (employees, performance
//! entries, therapy rates) as plain in-memory values and computes the
//! per-month rollups: total hours, work days, fixed monthly cost, and the
//! income generated from therapy session counts priced by the therapy
//! rate table. All decimal quantities are carried as fixed-point integers
//! (hundredths); the storage layer converts at the boundary.

pub mod lex;
pub mod model;
pub mod price;
pub mod rate;
pub mod sums;
pub mod aggregate;
pub mod laws;
