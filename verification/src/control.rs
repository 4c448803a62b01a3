//! Messages exchanged with the dashboard over the control socket.
use vstd::prelude::*;

use crate::shared::Incident;

verus! {

/// What a human (or the LLM judge) may decide about an incident.
#[derive(Debug, Clone, Copy, PartialEq, Eq, Structural)]
pub enum AllowedAction {
    AllowOnce,
    ContinueWatched,
    Kill,
    LlmJudge,
}

/// A decision sent by the dashboard for one incident.
#[derive(Debug, Clone)]
pub struct DecisionCommand {
    pub action: AllowedAction,
    pub incident_id: String,
}

/// The dashboard reports which cmux surface has focus.
#[derive(Debug, Clone)]
pub struct FocusEvent {
    pub surface_id: String,
}

/// The daemon's answer to a `DecisionCommand`.
#[derive(Debug, Clone)]
pub struct DecisionAck {
    pub incident_id: String,
    pub action: AllowedAction,
    pub accepted: bool,
    pub message: Option<String>,
}

/// Every frame that travels on the control socket.
#[derive(Debug, Clone)]
pub enum ControlMessage {
    Incident(Box<Incident>),
    Focus(FocusEvent),
    DecisionAck(DecisionAck),
}

} // verus!
