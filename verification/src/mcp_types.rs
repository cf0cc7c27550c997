//! The generic tool-invocation protocol's handshake and result types.

use vstd::prelude::*;

verus! {

/// What the server can do.
#[derive(Debug, Clone)]
pub struct ServerCapabilities {
    pub tools: Option<ToolsCapability>,
    pub resources: Option<ResourcesCapability>,
}

/// Tool-listing capability.
#[derive(Debug, Clone, Copy)]
pub struct ToolsCapability {
    pub list_changed: Option<bool>,
}

/// Resource-listing capability.
#[derive(Debug, Clone, Copy)]
pub struct ResourcesCapability {
    pub list_changed: Option<bool>,
}

/// The server's identity in the handshake.
#[derive(Debug, Clone)]
pub struct ServerInfo {
    pub name: String,
    pub version: String,
    pub instructions: Option<String>,
}

/// What the client sends to initialize.
#[derive(Debug, Clone)]
pub struct InitializeParams {
    pub protocol_version: String,
    pub capabilities: ClientCapabilities,
    pub client_info: ClientInfo,
}

/// What the client can do.
#[derive(Debug, Clone)]
pub struct ClientCapabilities {
    pub tools: Option<ToolsClientCapability>,
    pub resources: Option<ResourcesClientCapability>,
}

/// The client's tool capability.
#[derive(Debug, Clone, Copy)]
pub struct ToolsClientCapability {
    pub list_changed: Option<bool>,
}

/// The client's resource capability.
#[derive(Debug, Clone, Copy)]
pub struct ResourcesClientCapability {
    pub list_changed: Option<bool>,
}

/// The client's identity in the handshake.
#[derive(Debug, Clone)]
pub struct ClientInfo {
    pub name: String,
    pub version: String,
}

/// The server's answer to initialization.
#[derive(Debug, Clone)]
pub struct InitializeResult {
    pub protocol_version: String,
    pub capabilities: ServerCapabilities,
    pub server_info: ServerInfo,
    pub instructions: Option<String>,
}

/// A tool call's result: content blocks and an optional error flag.
#[derive(Debug, Clone)]
pub struct ToolCallResult {
    pub content: Vec<ToolCallContent>,
    pub is_error: Option<bool>,
}

/// One typed content block of a tool call's result.
#[derive(Debug, Clone)]
pub struct ToolCallContent {
    pub content_type: String,
    pub text: String,
}

} // verus!
