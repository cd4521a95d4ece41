//! The decisions of an authentication proxy for MCP servers, proved to meet their contracts.
//!
//! The proxy forwards requests to upstream MCP servers and injects credentials into them. Under the
//! name of a profile, a client sees and calls only the tools that the profile allows. What has to
//! be done outside (reading a file, running a command, sending a request) is returned as a value
//! that says so, and what came of it is handed back.
pub mod auth;
pub mod config;
pub mod credential;
pub mod json;
pub mod mcp_logging;
pub mod name_map;
pub mod proxy;
pub mod settings;
pub mod storage;
pub mod text;
pub mod tool_cache;
