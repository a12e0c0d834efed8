//! Date-driven splitting of rotated log files.
//!
//! The library classifies a log file by the shape of its first line,
//! extracts a calendar date from each line of the file, and plans how the
//! lines are re-split into per-date output files, which files are
//! eligible, and where each file's output goes.  Reading, writing and
//! deleting the files themselves is left to the caller, who carries out
//! the plans the library computes.

pub mod dates;
pub mod format;
pub mod parser;
pub mod paths;
pub mod processor;
pub mod splitter;
pub mod text;
