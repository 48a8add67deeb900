//! A string that keeps short contents inside the value itself and moves them
//! to an owned, growable heap buffer once they outgrow the inline space.

pub mod heap;
pub mod inline;
pub mod laws;
pub mod short;
pub mod text;

pub use heap::Heap;
pub use inline::{Inline, INLINE_CAPACITY};
pub use short::ShortString;
