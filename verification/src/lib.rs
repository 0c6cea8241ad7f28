//! A fuzzy matcher over Unicode text: it decides whether the characters of a
//! pattern occur, in order though not necessarily contiguously, within a
//! subject string. Comparison is by whole Unicode scalar value, never by
//! storage byte, and is exact: no case folding, no normalization, no grapheme
//! clustering.

pub mod laws;
pub mod matching;

pub use matching::chars_match;
pub use matching::chars_of;
pub use matching::fuzzy_search_match;
