//! Where an agent's sockets live, and how the launcher reads the daemon's
//! answer to a registration.
use vstd::prelude::*;

use crate::shared::RegistrationAck;
use crate::text::{concat_str, decimal, decimal_string};

verus! {

/// The per-user directory under which the daemon keeps its sockets.
pub open spec fn user_dir(uid: u32) -> Seq<char> {
    "/tmp/security-island/"@ + decimal(uid as nat)
}

/// `/tmp/security-island/<uid>`.
fn user_dir_string(uid: u32) -> (s: String)
    ensures
        s@ == user_dir(uid),
{
    let n = decimal_string(uid);
    concat_str("/tmp/security-island/", n.as_str())
}

/// The socket on which the daemon accepts registrations from launchers:
/// `/tmp/security-island/<uid>/registration.sock`.
pub fn registration_socket_path(uid: u32) -> (s: String)
    ensures
        s@ == user_dir(uid) + "/registration.sock"@,
{
    let d = user_dir_string(uid);
    concat_str(d.as_str(), "/registration.sock")
}

/// The socket that cmux is pointed at for a user:
/// `/tmp/security-island/<uid>/cmux.sock`.
pub fn cmux_socket_path(uid: u32) -> (s: String)
    ensures
        s@ == user_dir(uid) + "/cmux.sock"@,
{
    let d = user_dir_string(uid);
    concat_str(d.as_str(), "/cmux.sock")
}

/// The private directory of one agent:
/// `/tmp/security-island/<uid>/agents/<agent_id>`.
pub fn agent_socket_dir(uid: u32, agent_id: &str) -> (s: String)
    ensures
        s@ == user_dir(uid) + "/agents/"@ + agent_id@,
{
    let d = user_dir_string(uid);
    let a = concat_str(d.as_str(), "/agents/");
    concat_str(a.as_str(), agent_id)
}

/// The socket inside an agent's directory: `<socket_dir>/cmux.sock`.
pub fn agent_socket_path(socket_dir: &str) -> (s: String)
    ensures
        s@ == socket_dir@ + "/cmux.sock"@,
{
    concat_str(socket_dir, "/cmux.sock")
}

/// Frames one message on the registration socket: its JSON bytes followed by
/// a newline.
pub fn frame_line(payload: Vec<u8>) -> (frame: Vec<u8>)
    ensures
        frame@ == payload@.push(10u8),
{
    let mut frame = payload;
    frame.push(10u8);
    frame
}

/// What the launcher makes of the daemon's answer: success when the
/// registration was accepted; otherwise the daemon's message, or
/// "Daemon rejected registration" when it gave none.
pub open spec fn registration_outcome(accepted: bool, message: Option<Seq<char>>) -> Result<(), Seq<char>> {
    if accepted {
        Ok(())
    } else {
        match message {
            Some(m) => Err(m),
            None => Err("Daemon rejected registration"@),
        }
    }
}

/// Reads the daemon's answer to a registration.
pub fn registration_result(ack: &RegistrationAck) -> (r: Result<(), String>)
    ensures
        match r {
            Ok(()) => registration_outcome(ack.accepted, ack.message.deep_view()) == Ok::<(), Seq<char>>(()),
            Err(e) => registration_outcome(ack.accepted, ack.message.deep_view()) == Err::<(), Seq<char>>(e@),
        },
{
    if ack.accepted {
        Ok(())
    } else {
        match &ack.message {
            Some(m) => Err(m.clone()),
            None => Err("Daemon rejected registration".to_owned()),
        }
    }
}

} // verus!
