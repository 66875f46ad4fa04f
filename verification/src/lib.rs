//! A verified core for an MCP server that drives Neovim instances.
pub mod client;
pub mod documents;
pub mod error;
pub mod http_compat;
pub mod keyed;
pub mod logging;
pub mod notifications;
pub mod text;
pub mod server;
pub mod startup;
pub mod targets;
