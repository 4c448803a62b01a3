//! Which tool calls need the user's approval.
use vstd::prelude::*;

use crate::text::{has_prefix, same_chars, starts_with, to_chars};

verus! {

/// Tools that only read, list or search run without approval, and so do the
/// plain shell readers `echo`, `cat`, `ls`, `grep` and `rg`.
pub open spec fn approval_required(tool_name: Seq<char>) -> bool {
    !(starts_with(tool_name, "read_"@) || starts_with(tool_name, "list_"@) || starts_with(
        tool_name,
        "search_"@,
    ) || tool_name == "echo"@ || tool_name == "cat"@ || tool_name == "ls"@ || tool_name == "grep"@
        || tool_name == "rg"@)
}

/// Whether calling `tool_name` needs the user's approval.
pub fn requires_approval(tool_name: &str, _arguments: &str) -> (b: bool)
    ensures
        b == approval_required(tool_name@),
{
    let name = to_chars(tool_name);
    if has_prefix(&name, &to_chars("read_")) || has_prefix(&name, &to_chars("list_"))
        || has_prefix(&name, &to_chars("search_")) {
        return false;
    }
    let exempt = same_chars(&name, &to_chars("echo")) || same_chars(&name, &to_chars("cat"))
        || same_chars(&name, &to_chars("ls")) || same_chars(&name, &to_chars("grep"))
        || same_chars(&name, &to_chars("rg"));
    !exempt
}

/// Which tools run without approval: the read-only shell tools `echo`, `cat`,
/// `ls`, `grep` and `rg`, and every tool whose name starts with `read_`,
/// `list_` or `search_`. Any name that is none of these (for instance one
/// whose first character is none of `r`, `l`, `s`, `e`, `c`, `g`) needs
/// approval.
pub proof fn law_read_only_tools_run_freely(tool_name: Seq<char>)
    ensures
        tool_name == "echo"@ || tool_name == "cat"@ || tool_name == "ls"@ || tool_name == "grep"@
            || tool_name == "rg"@ ==> !approval_required(tool_name),
        starts_with(tool_name, "read_"@) || starts_with(tool_name, "list_"@) || starts_with(tool_name, "search_"@)
            ==> !approval_required(tool_name),
        tool_name.len() > 0 && tool_name[0] != 'r' && tool_name[0] != 'l' && tool_name[0] != 's'
            && tool_name[0] != 'e' && tool_name[0] != 'c' && tool_name[0] != 'g' ==> approval_required(tool_name),
        tool_name.len() == 0 ==> approval_required(tool_name),
{
    reveal_strlit("echo");
    reveal_strlit("cat");
    reveal_strlit("ls");
    reveal_strlit("grep");
    reveal_strlit("rg");
    reveal_strlit("read_");
    reveal_strlit("list_");
    reveal_strlit("search_");
    if tool_name.len() > 0 {
        let c = tool_name[0];
        if starts_with(tool_name, "read_"@) {
            assert(tool_name.subrange(0, 5)[0] == c);
        }
        if starts_with(tool_name, "list_"@) {
            assert(tool_name.subrange(0, 5)[0] == c);
        }
        if starts_with(tool_name, "search_"@) {
            assert(tool_name.subrange(0, 7)[0] == c);
        }
    }
}

} // verus!
