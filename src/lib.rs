//! Lays a string out as three aligned rows of markup: its grapheme clusters,
//! its code points with their Unicode names, and its UTF-8 bytes.
//!
//! Each cluster and code point cell spans as many columns as it has bytes, so
//! the three rows line up when stacked. An ASCII digit or letter is shown
//! without its name; a code point that the name tables do not know shows `?`.
use vstd::prelude::*;

pub mod digits;
pub mod escape;
pub mod unicode;
pub mod decompose;
pub mod render;
pub mod spans;

pub use escape::{entity_escape_char, html_escape};
pub use render::{segment_table, version};
