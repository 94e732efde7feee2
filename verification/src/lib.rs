//! Line, word and character counting for text.
//!
//! A text is reduced to a record of three tallies; records combine by
//! field-wise addition, so the sum over several inputs can be kept as a
//! running total. The driver decides what a run over several inputs reports.

pub mod counts;
pub mod driver;
pub mod render;
pub mod scan;
pub mod text;

pub use counts::FileInfo;
pub use driver::{resolve_inputs, run, Entry, Report, Selection, Source, Tally};
pub use scan::count_words;
