//! What the tool-call server says of itself.
use vstd::prelude::*;

verus! {

/// The protocol version that the server speaks.
pub const MCP_VERSION: &'static str = "2024-11-05";

/// The name, version and capabilities of the server.
#[derive(Debug, Clone)]
pub struct ServerInfo {
    pub name: String,
    pub version: String,
    pub protocol_version: String,
    pub capabilities: ServerCapabilities,
}

/// What the server offers.
#[derive(Debug, Clone, Copy, PartialEq, Eq, Structural)]
pub struct ServerCapabilities {
    pub tools: bool,
    pub resources: bool,
    pub prompts: bool,
    pub logging: bool,
}

impl Default for ServerCapabilities {
    /// Tools and logging, no resources and no prompts.
    fn default() -> (r: Self)
        ensures
            r == (ServerCapabilities { tools: true, resources: false, prompts: false, logging: true }),
    {
        ServerCapabilities { tools: true, resources: false, prompts: false, logging: true }
    }
}

} // verus!
