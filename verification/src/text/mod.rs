//! Text as bytes: comparison, search, slicing, lines, trimming, numbers.

pub mod ascii;
pub mod bytes;
pub mod chars;
pub mod decimal;
pub mod lines;
pub mod trim;
