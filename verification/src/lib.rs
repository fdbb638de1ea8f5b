//! Scanner for org-mode task files: walks text already read from disk,
//! classifies lines that carry a task together with a scheduling marker,
//! and parses the timestamp token embedded in each such line.
//!
//! The crate is a library of pure functions: callers hand it file contents
//! and path names as plain strings and receive task records back.  All file
//! and directory I/O stays with the caller.

pub mod date;
pub mod parse;
pub mod scan;
pub mod text;
pub mod todo;
