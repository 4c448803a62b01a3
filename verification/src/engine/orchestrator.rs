//! The results that tool calls report back to the UI.
use vstd::prelude::*;

use crate::engine::types::ToolResult;
use crate::text::concat_str;

verus! {

/// The (mock) result of listing a repository's GitHub issues.
pub fn gh_issues_result(repo: &str) -> (r: ToolResult)
    ensures
        r.id@ == "gh_issues_1"@,
        r.output@ == "Mock issue data for "@ + repo@,
        !r.is_error,
{
    ToolResult {
        id: "gh_issues_1".to_owned(),
        output: concat_str("Mock issue data for ", repo),
        is_error: false,
    }
}

/// The result reported for a tool call: its output on success, the error's
/// text (flagged as an error) on failure.
pub fn tool_call_result(call_id: String, outcome: Result<String, String>) -> (r: ToolResult)
    ensures
        r.id@ == call_id@,
        match outcome {
            Ok(o) => r.output@ == o@ && !r.is_error,
            Err(e) => r.output@ == e@ && r.is_error,
        },
{
    match outcome {
        Ok(output) => ToolResult { id: call_id, output, is_error: false },
        Err(e) => ToolResult { id: call_id, output: e, is_error: true },
    }
}

} // verus!
