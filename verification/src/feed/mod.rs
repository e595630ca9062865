//! From the bytes of the feed to canonical records.

pub mod decode;
pub mod fold;
pub mod merge;
pub mod prefecture;
pub mod record;
