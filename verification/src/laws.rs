//! What the operations of the library promise, stated over their inputs and results.
//!
//! Each law says what a result must be, or how two results relate, in terms of the bytes,
//! texts and entries that went in and of what the outside primitives give.
pub mod courses;
pub mod layout;
pub mod payloads;
pub mod records;
pub mod texts;
