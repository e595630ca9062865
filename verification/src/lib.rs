//! Core logic of the postal-code worker: building canonical records from the
//! feed, planning the versioned write, and preparing address searches.

pub mod api;
pub mod audit;
pub mod cache;
pub mod config;
pub mod constants;
pub mod feed;
pub mod files;
pub mod models;
pub mod numbers;
pub mod rollback;
pub mod scheduler;
pub mod search;
pub mod service;
pub mod statements;
pub mod store;
pub mod text;
pub mod timestamp;
pub mod whitespace;
pub mod writer;
