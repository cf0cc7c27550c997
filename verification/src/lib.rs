//! Exposes an HTTP API described by an interface document as callable tools:
//! converts the document's operations and schemas into tool definitions, and
//! maps tool-call arguments back onto concrete HTTP requests.

pub mod atlassian;
pub mod auth;
pub mod bridge;
pub mod chars;
pub mod cli;
pub mod convert;
pub mod execute;
pub mod github;
pub mod gmail;
pub mod json;
pub mod mcp_types;
pub mod model;
pub mod operation;
pub mod telegram;
pub mod upload;

use vstd::prelude::*;

verus! {

/// Hard upper bound on a tool name, in characters.
pub const TOOL_NAME_LIMIT: usize = 64;

/// Truncates a tool name to the protocol's length limit; names at or under
/// the limit are returned unchanged.
pub fn truncate_tool_name(name: &str) -> (r: String)
    ensures
        name@.len() <= TOOL_NAME_LIMIT as nat ==> r@ == name@,
        name@.len() > TOOL_NAME_LIMIT as nat ==> r@ == name@.subrange(0, TOOL_NAME_LIMIT as int),
{
    let len = name.unicode_len();
    if len <= TOOL_NAME_LIMIT {
        name.to_owned()
    } else {
        let t = name.substring_char(0, TOOL_NAME_LIMIT);
        assert(t@ =~= name@.subrange(0, TOOL_NAME_LIMIT as int));
        t.to_owned()
    }
}

} // verus!
