//! Events that a run emits for those who watch it.

pub mod channel;
