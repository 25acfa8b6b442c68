//! Velos: the wire protocol, configuration rules and log analysis of a
//! process supervisor, with machine-checked contracts.

pub mod client;
pub mod cluster;
pub mod codec;
pub mod config;
pub mod error;
pub mod filters;
pub mod gateway;
pub mod listener;
pub mod log_engine;
pub mod log_sink;
pub mod mcp;
pub mod metrics;
pub mod monitor;
pub mod order;
pub mod outside;
pub mod process;
pub mod protocol;
pub mod render;
pub mod resolve;
pub mod runner;
pub mod schedule;
pub mod start;
pub mod state;
pub mod startup;
pub mod supervisor;
pub mod table;
pub mod text;
pub mod watch;
pub mod wire;

pub use error::VelosError;
pub use process::{ProcessConfig, ProcessStatus};
pub use protocol::LogEntry;
