//! Text as sequences of characters.
//!
//! Every grammar in this crate is stated over `Seq<char>`, the view of a `str`.
//! Executable code turns a `str` into a `Vec<char>` once and then works on
//! character slices, so an index in the code is an index in the specification.

pub mod bytes;
pub mod chars;
pub mod class;
pub mod laws;
pub mod map;
pub mod number;
pub mod order;
pub mod search;
pub mod split;
