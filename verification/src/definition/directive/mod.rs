//! What a directive declares.

pub mod definition;
pub mod scope;
