//! Core logic of a `head`-style utility: which part of each input is shown
//! (its first lines, or its first bytes decoded leniently), how the inputs of
//! one run are framed by headers, how a token names its input, and how the
//! options of a run combine.

pub mod bytes;
pub mod input;
pub mod lines;
pub mod options;
pub mod report;
