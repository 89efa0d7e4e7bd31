//! A debugging-automation library for LLDB: the argument handling, safety
//! checks, formatting and session bookkeeping behind a set of debugging
//! tools served over the Model Context Protocol.

pub mod text;
pub mod json;
pub mod bytes;
pub mod error;
pub mod lldb_manager;
pub mod tools;
pub mod mcp_server;
