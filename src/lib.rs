//! Locale-independent Unicode case conversion with an ASCII fast path.
//!
//! Text is converted by a two-state engine: a leading run of ASCII bytes is
//! found in fixed-size chunks and transcoded byte for byte, and the remainder
//! is mapped one scalar value at a time, with the Greek final-sigma rule
//! applied when lowercasing.
pub mod ascii;
pub mod convert;
pub mod laws;
pub mod sigma;
pub mod unicode;

pub use ascii::{ascii_prefix_len, is_ascii};
pub use convert::{to_lowercase, to_lowercase_upfront, to_uppercase, to_uppercase_upfront};
pub use sigma::sigma_form;
