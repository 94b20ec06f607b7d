//! The decisions of a command line client for `blackd`, Black's server mode:
//! which files to format, what to ask of the server, and what to do with its answer.

pub mod config;
pub mod error;
pub mod filter;
pub mod format;
pub mod limits;
pub mod plan;
pub mod project;
pub mod text;
pub mod walk;
