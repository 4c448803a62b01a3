//! The demo WebAssembly scanner plugin's rule: network probing tools run from
//! the terminal are blocked.
use vstd::prelude::*;

use crate::text::{concat_str, contains_seq, has_infix, str_equals, to_chars};

verus! {

/// The part of a capability request that the plugin reads.
pub struct CapabilityRequest {
    pub capability: String,
    pub payload: String,
}

/// How bad a plugin incident is.
#[derive(Debug, Clone, Copy, PartialEq, Eq, Structural)]
pub enum WasmIncidentSeverity {
    Info,
    Warning,
    Critical,
}

/// What the plugin asks the host to do.
#[derive(Debug, Clone, Copy, PartialEq, Eq, Structural)]
pub enum WasmIncidentAction {
    Log,
    Block,
    Alert,
}

/// One incident reported by the plugin.
pub struct WasmIncidentTemplate {
    pub plugin_name: String,
    pub severity: WasmIncidentSeverity,
    pub action: WasmIncidentAction,
    pub message: String,
}

/// A terminal command that runs `nmap` or `nc`.
pub open spec fn probes_network(cap: Seq<char>, payload: Seq<char>) -> bool {
    cap == "terminal.exec"@ && (contains_seq(payload, "nmap"@) || contains_seq(payload, "nc "@)
        || payload == "nc"@)
}

/// The plugin's incidents for a request: one critical block for a terminal
/// command that mentions `nmap`, contains `nc ` or is `nc`; none otherwise.
pub fn scan_request(req: &CapabilityRequest) -> (incidents: Vec<WasmIncidentTemplate>)
    ensures
        probes_network(req.capability@, req.payload@) ==> incidents@.len() == 1 && {
            let i = incidents@[0];
            &&& i.plugin_name@ == "demo-scanner"@
            &&& i.severity == WasmIncidentSeverity::Critical
            &&& i.action == WasmIncidentAction::Block
            &&& i.message@ == "Blocked potentially dangerous execution: "@ + req.payload@
        },
        !probes_network(req.capability@, req.payload@) ==> incidents@.len() == 0,
{
    let mut incidents: Vec<WasmIncidentTemplate> = Vec::new();
    if str_equals(req.capability.as_str(), "terminal.exec") {
        let payload = to_chars(req.payload.as_str());
        if has_infix(&payload, &to_chars("nmap")) || has_infix(&payload, &to_chars("nc "))
            || str_equals(req.payload.as_str(), "nc") {
            incidents.push(WasmIncidentTemplate {
                plugin_name: "demo-scanner".to_owned(),
                severity: WasmIncidentSeverity::Critical,
                action: WasmIncidentAction::Block,
                message: concat_str("Blocked potentially dangerous execution: ", req.payload.as_str()),
            });
        }
    }
    incidents
}

} // verus!
