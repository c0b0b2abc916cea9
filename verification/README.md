# codex-acp

An agent for ACP clients, and a bridge by which its sessions use the MCP servers that the
client owns.

- `src/` is the library. What it decides and computes is stated in contracts and proved with
  Verus.
  - `agent.rs`: how the agent serves a client, and how an operation is carried out.
  - `mcp_acp_bridge/bridge.rs`: the bridge, which relays each call to the client.
  - `mcp_acp_bridge/mcp_server.rs`: the stdio MCP server of a session, in front of the bridge.
  - `launch.rs`: what the program is started as.
  - `json.rs`, `rpc_error.rs`: JSON values and JSON-RPC errors.
  - `foreign.rs`: what is taken on trust of the crates underneath.
- `app/` is the program around it: sockets, stdio, environment and the ACP connection.
- `tests/` runs the library.
