//! A compact, immutable UTF-8 string value with an inline small-string form
//! and a reference-counted heap form, plus a conversion to NUL-terminated
//! bytes that avoids copies where ownership allows it.

pub mod bytes;
pub mod heap;
pub mod laws;
pub mod roc_str;
pub mod small;

pub use roc_str::{InteriorNulError, RocStr};
