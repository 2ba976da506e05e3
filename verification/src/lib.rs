//! Discovery and execution service for MCP tool servers: the decisions, messages and reports.

pub mod answers;
pub mod args;
pub mod config;
pub mod error;
pub mod json;
pub mod loader;
pub mod logs;
pub mod registry;
pub mod session;
pub mod startup;
pub mod table;
pub mod text;
pub mod tools;
