//! What first-run setup writes: the cmux broker setting and the agent shims.
use vstd::prelude::*;

use crate::text::{concat_str, contains_seq, has_infix, to_chars};

verus! {

/// The broker section that points cmux at `socket_path`.
pub open spec fn broker_snippet(socket_path: Seq<char>) -> Seq<char> {
    "\n[broker]\nsocket_path = \""@ + socket_path + "\"\n"@
}

/// The new contents of the cmux configuration, or `None` when it already
/// names the socket: the existing contents (empty when there is no file) with
/// the broker section appended.
pub open spec fn config_update(existing: Option<Seq<char>>, socket_path: Seq<char>) -> Option<Seq<char>> {
    match existing {
        Some(c) => if contains_seq(c, socket_path) {
            None
        } else {
            Some(c + broker_snippet(socket_path))
        },
        None => Some(broker_snippet(socket_path)),
    }
}

/// Decides how the cmux configuration must change so that it names
/// `socket_path`; `existing` is the file's contents, `None` when there is no
/// file.
pub fn cmux_config_update(existing: Option<&str>, socket_path: &str) -> (r: Option<String>)
    ensures
        r.deep_view() == config_update(
            match existing {
                Some(c) => Some(c@),
                None => None,
            },
            socket_path@,
        ),
{
    let a = concat_str("\n[broker]\nsocket_path = \"", socket_path);
    let snippet = concat_str(a.as_str(), "\"\n");
    match existing {
        Some(c) => {
            if has_infix(&to_chars(c), &to_chars(socket_path)) {
                None
            } else {
                Some(concat_str(c, snippet.as_str()))
            }
        },
        None => Some(snippet),
    }
}

/// The shim that runs `cli` through cmux with the island's socket.
pub open spec fn shim_text(socket_path: Seq<char>, cli: Seq<char>) -> Seq<char> {
    "#!/bin/bash\nexport CMUX_SOCKET_PATH=\""@ + socket_path + "\"\nexec cmux run -- "@ + cli
        + " \"$@\"\n"@
}

/// The shell script installed as the shim for `cli`.
pub fn shim_script(socket_path: &str, cli: &str) -> (s: String)
    ensures
        s@ == shim_text(socket_path@, cli@),
{
    let a = concat_str("#!/bin/bash\nexport CMUX_SOCKET_PATH=\"", socket_path);
    let b = concat_str(a.as_str(), "\"\nexec cmux run -- ");
    let c = concat_str(b.as_str(), cli);
    concat_str(c.as_str(), " \"$@\"\n")
}

/// After an update the configuration names the socket, so a second update
/// changes nothing.
pub proof fn law_config_update_settles(existing: Option<Seq<char>>, socket_path: Seq<char>)
    ensures
        config_update(existing, socket_path) matches Some(c) ==> config_update(Some(c), socket_path) is None,
{
    if config_update(existing, socket_path) is Some {
        let c = config_update(existing, socket_path)->0;
        let prefix = match existing {
            Some(e) => e,
            None => Seq::empty(),
        };
        assert(c =~= prefix + broker_snippet(socket_path));
        let at: int = (prefix.len() + "\n[broker]\nsocket_path = \""@.len()) as int;
        assert(c.subrange(at, at + socket_path.len() as int) =~= socket_path);
        assert(crate::text::occurs_at(c, socket_path, at));
    }
}

} // verus!
