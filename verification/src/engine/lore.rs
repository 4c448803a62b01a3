//! The workspace files that seed the conversation as system prompts.
use vstd::prelude::*;

use crate::engine::types::{ChatMessage, Role};
use crate::text::concat_str;

verus! {

/// The files read from the workspace, in order.
pub fn system_prompt_files() -> (v: Vec<&'static str>)
    ensures
        v@.len() == 6,
        v@[0]@ == "AGENTS.md"@,
        v@[1]@ == "SOUL.md"@,
        v@[2]@ == "USER.md"@,
        v@[3]@ == "MEMORY.md"@,
        v@[4]@ == ".ct/BOOTSTRAP.md"@,
        v@[5]@ == "SEATURTLE.md"@,
{
    vec!["AGENTS.md", "SOUL.md", "USER.md", "MEMORY.md", ".ct/BOOTSTRAP.md", "SEATURTLE.md"]
}

/// The system message for one workspace file: a `# File:` heading with its
/// name, a blank line, then its contents.
pub fn system_prompt_message(filename: &str, contents: &str) -> (m: ChatMessage)
    ensures
        m.role is System,
        m.content@ == "# File: "@ + filename@ + "\n\n"@ + contents@,
{
    let a = concat_str("# File: ", filename);
    let b = concat_str(a.as_str(), "\n\n");
    ChatMessage { role: Role::System, content: concat_str(b.as_str(), contents) }
}

} // verus!
