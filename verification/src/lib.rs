//! Extraction of structured numeric records from a human-authored tabular
//! report and from the titles of its published editions.
//!
//! Two pipelines share one normalization primitive: a digit normalizer that
//! maps full-width digit glyphs to ASCII digits, a narrow roman-numeral
//! decoder for phase levels, a phase parser that chooses between the two
//! numeral systems, a date extractor for natural-language title strings, and
//! a record extractor over a fixed grid layout.

pub mod date;
pub mod digits;
pub mod errors;
pub mod phase;
pub mod record;
pub mod report;
pub mod roman;
pub mod scan;

pub use digits::to_half_digits;
pub use phase::parse_phase;
pub use roman::parse_roman_numerals;
