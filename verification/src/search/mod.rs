//! The address search: normal form, candidates, terms and accumulation.

pub mod engine;
pub mod normalize;
