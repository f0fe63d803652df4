//! Sentinel: system resource monitoring, with its decision logic verified.

pub mod alert;
pub mod cli;
pub mod collector;
pub mod config;
pub mod models;
pub mod numeric;
pub mod persistence;
pub mod text;
