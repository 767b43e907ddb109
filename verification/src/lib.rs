//! A bulk download engine: range planning, resume journal, progress
//! accounting, transport policy and file-name resolution, each with a
//! machine-checked contract.

pub mod blocking;
pub mod commands;
pub mod config;
pub mod coordinator;
pub mod errors;
pub mod headers;
pub mod journal;
pub mod models;
pub mod name;
pub mod planner;
pub mod progress;
pub mod text;
pub mod transport;
pub mod trusted;
pub mod worker;
