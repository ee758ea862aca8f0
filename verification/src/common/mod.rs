//! Small verified helpers shared by the server modules: text building, text
//! order and sorted lists, and byte-level searching.

pub mod bytes;
pub mod order;
pub mod text;
