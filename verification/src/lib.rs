//! Counting lines, words, bytes and characters of texts, and laying the
//! counts out in aligned columns.

pub mod cli;
pub mod counter;
pub mod formatter;
pub mod options;
pub mod report;
pub mod text;
