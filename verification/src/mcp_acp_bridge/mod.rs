//! MCP servers that the ACP client owns, offered to a session as stdio servers.

pub mod bridge;
pub mod mcp_server;
