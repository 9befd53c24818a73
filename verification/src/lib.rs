//! A verified core for a personal daily journaling tool.
//!
//! The library keeps a "today" log file and a monthly archive as plain
//! text.  Closing a day appends the day's notes to the monthly file and
//! carries unfinished task lines forward into a fresh file for tomorrow;
//! opening a day creates the daily file from a template or re-dates it.
//! All of that text manipulation is specified and verified here; reading
//! and writing the files themselves is left to the surrounding binary.

pub mod config;
pub mod date;
pub mod fmt;
pub mod laws;
pub mod lines;
pub mod rotate;
pub mod today;
