//! Directory scan engine: for each top-level entry of a directory, the size
//! of everything below it, and the lines of its files where they are asked
//! for, with every failure recorded and none of them stopping the scan.
//!
//! The file system, the threads and the terminal stay with the caller. The
//! library takes what the file system said as plain values and decides:
//!
//! - `file_system::line_count` counts the lines of a file from its chunks;
//! - `file_system::read` makes the entry of a subtree, adds up its sizes and
//!   records its failures;
//! - `file_system::pool` and `utils::sync` say which entry a worker starts on
//!   next, and keep the number of workers under the limit;
//! - `stats` and `report` fold the results into totals, in any order;
//! - `file_system::sort`, `filter`, `config` and `output` order, choose and
//!   show the entries.
//!
//! Every function states in its contract what it returns, and Verus proves
//! that it does.

pub mod config;
pub mod file_system;
pub mod filter;
pub mod output;
pub mod report;
pub mod stats;
pub mod units;
pub mod utils;
