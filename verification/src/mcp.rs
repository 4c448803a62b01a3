//! The MCP tool client.
use vstd::prelude::*;

verus! {

/// The client through which tools are called.
pub struct McpClientImpl;

impl McpClientImpl {
    /// Calls a tool; for now every call answers `mock`.
    pub fn call_tool(&self, _name: &str, _args: String) -> (r: Result<String, String>)
        ensures
            r matches Ok(o) && o@ == "mock"@,
    {
        Ok("mock".to_owned())
    }
}

} // verus!
