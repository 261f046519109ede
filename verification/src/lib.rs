//! Fits a staged diff into a token budget by letting the user drop files,
//! and offers the small helpers that the prompt around it needs: counting
//! the terminal rows a text occupies and choosing one message among several.
//!
//! Nothing here reads, prints or asks. [`adaptions`] and [`util`] hold the
//! decisions; what they wait for is measured, asked and shown by the caller.
//! [`patch`] and [`graphemes`] are the boundaries to the crates that parse
//! diffs and segment text, [`headers`] says which texts the parser is handed,
//! and [`records`] holds the files of a patch as plain values.

pub mod adaptions;
pub mod cancel;
pub mod graphemes;
pub mod headers;
pub mod patch;
pub mod records;
pub mod util;
