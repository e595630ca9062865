//! The live table as the writer leaves it: a model in memory, what holds
//! of every write to it, and the read operations on it.

pub mod laws;
pub mod query;
pub mod table;
