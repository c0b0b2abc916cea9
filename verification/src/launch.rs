//! What the program is started as.

use vstd::prelude::*;

verus! {

/// What the program is started as.
#[derive(Debug, Clone, Copy, PartialEq, Eq)]
pub enum Mode {
    /// The stdio MCP server through which a session uses the client's files.
    FsMcp,
    /// The stdio MCP server through which a session uses an MCP server of the client.
    McpBridge,
    /// The agent itself.
    Agent,
}

/// What the program is started as when this is its first argument.
pub open spec fn mode_for(argument: Option<Seq<char>>) -> Mode {
    if argument == Some("--acp-fs-mcp"@) {
        Mode::FsMcp
    } else if argument == Some("--acp-mcp-bridge"@) {
        Mode::McpBridge
    } else {
        Mode::Agent
    }
}

/// What the program is started as when this is its first argument.
pub fn select_mode(argument: Option<String>) -> (mode: Mode)
    ensures
        mode == mode_for(
            match argument {
                Some(text) => Some(text@),
                None => None,
            },
        ),
        mode is FsMcp <==> (argument matches Some(text) && text@ == "--acp-fs-mcp"@),
        mode is McpBridge <==> (argument matches Some(text) && text@ == "--acp-mcp-bridge"@),
{
    proof {
        lemma_switches_differ();
    }
    match argument {
        Some(text) => if text == "--acp-fs-mcp".to_owned() {
            Mode::FsMcp
        } else if text == "--acp-mcp-bridge".to_owned() {
            Mode::McpBridge
        } else {
            Mode::Agent
        },
        None => Mode::Agent,
    }
}

/// The two switches are not the same text.
proof fn lemma_switches_differ()
    ensures
        "--acp-fs-mcp"@ != "--acp-mcp-bridge"@,
{
    reveal_strlit("--acp-fs-mcp");
    reveal_strlit("--acp-mcp-bridge");
    assert("--acp-fs-mcp"@.len() != "--acp-mcp-bridge"@.len());
}

/// Each of the two MCP servers is started by its own switch and by nothing else; with any other
/// first argument, and without one, it is the agent that is started.
pub proof fn lemma_switches_select_the_mode(argument: Option<Seq<char>>)
    ensures
        mode_for(argument) is FsMcp <==> argument == Some("--acp-fs-mcp"@),
        mode_for(argument) is McpBridge <==> argument == Some("--acp-mcp-bridge"@),
        mode_for(argument) is Agent <==> argument != Some("--acp-fs-mcp"@) && argument != Some(
            "--acp-mcp-bridge"@,
        ),
{
    lemma_switches_differ();
}

} // verus!
