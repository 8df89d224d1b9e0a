//! A URL shortener's core: short codes are allocated for URLs, resolved
//! back to them, and visits are counted, with every operation specified
//! over a mathematical model of the record table.

pub mod code;
pub mod error;
pub mod handler;
pub mod laws;
pub mod srv;
pub mod store;
mod text;
