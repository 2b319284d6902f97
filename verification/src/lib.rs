//! OnlineSim client library.
pub mod text;
pub mod json;
pub mod outside;
pub mod error;
pub mod config;
pub mod builder;
pub mod types;
pub mod util;
pub mod wait_code;
pub mod mock;
pub mod api;
