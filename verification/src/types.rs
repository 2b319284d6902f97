//! Data types of the OnlineSim API.
pub mod free;
pub mod numbers;
pub mod rent;
pub mod webhook;
