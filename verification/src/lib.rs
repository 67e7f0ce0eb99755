//! Verified core of Shatter, a cleanup tool for developer repositories.
pub mod text;
pub mod fspath;
pub mod error;
pub mod domain;
pub mod config;
pub mod rules;
pub mod results;
pub mod storage;
pub mod state;
pub mod delete;
pub mod discovery;
pub mod scan;
pub mod cli;
pub mod version;
pub mod upgrade;
pub mod view;
pub mod keys;
pub mod laws;
