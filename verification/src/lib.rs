//! Helpers for solving daily two-part puzzles: the contract a day's solution
//! meets, the rules by which a run picks its input and its parts, line-based
//! input parsing, and a table-driven test harness with readable reports.

pub mod alloclog;
pub mod aocday;
pub mod day;
pub mod error_handling;
pub mod inputs;
pub mod paint;
pub mod parsing;
pub mod running;
pub mod scaffold;
pub mod testing;
pub mod text;
pub mod tree_node;

pub use aocday::{AoCDay, DayPart};
pub use error_handling::DayError;
pub use running::{run_day, run_day_with_input};
pub use testing::{run_test, test_runner};
