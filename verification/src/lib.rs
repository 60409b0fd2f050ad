//! todork: a scanner for TODO, FIXME, HACK and other annotation comments.
//!
//! The library holds the logic of the tool: matching tags on a line,
//! scanning a file's contents, resolving the command line into a
//! configuration, parsing `git blame --porcelain` output, ordering and
//! limiting findings, and laying out the text, table and GitHub Actions
//! reports.  Reading files, walking directories, running `git` and writing
//! to the terminal are left to the program around it.

pub mod exit_code;
pub mod formatter;
pub mod blame;
pub mod cli;
pub mod config;
pub mod error;
pub mod matcher;
pub mod order;
pub mod report;
pub mod scanner;
pub mod text;
pub mod upgrade;
