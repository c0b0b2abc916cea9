//! The Codex agent for ACP clients: how it serves a client, and how it lets a session use the
//! MCP servers that the client owns.

pub mod agent;
pub mod foreign;
pub mod json;
pub mod launch;
pub mod mcp_acp_bridge;
pub mod rpc_error;
