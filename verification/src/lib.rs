//! A `FOR EACH` loop node for a query-language syntax tree, and its canonical
//! text.
//!
//! A loop binds one or more iteration variables to ranges and carries a body
//! whose elements are either leaves or further loops, to any depth. Every
//! node is turned into text by a verified function whose contract gives the
//! text exactly, as a sequence of characters.

pub mod cloning;
pub mod embed;
pub mod for_each;
pub mod laws;
pub mod layout;
pub mod render;
pub mod select;

pub use embed::{ConstructForEach, ToForEach};
pub use for_each::{ForEach, ForEachOr, LoopRange};
pub use render::{display_comma_separated, Render};
pub use select::SelectItem;
