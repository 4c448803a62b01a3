//! Records shared by the daemon, the launcher and the dashboard.
use vstd::prelude::*;

use crate::control::AllowedAction;
use vstd::string::StringSliceAdditionalSpecFns;

verus! {

/// Lifecycle of an incident.
#[derive(Debug, Clone, Copy, PartialEq, Eq, Structural)]
pub enum IncidentState {
    Safe,
    Watch,
    PendingDecision,
    QueuedForLlm,
    ResolvedAllowed,
    ContinuedWatched,
    Killed,
    Error,
}

/// How bad an incident is.
#[derive(Debug, Clone, Copy, PartialEq, Eq, Structural)]
pub enum Severity {
    Low,
    Medium,
    High,
    Critical,
}

/// What each filter layer said about a request.
#[derive(Debug, Clone)]
pub struct FilterResults {
    pub regex: Option<String>,
    pub bash_ast: Option<String>,
    pub magika: Option<String>,
    pub llm: Option<String>,
}

/// One capability an agent asks cmux to perform.
#[derive(Debug, Clone)]
pub struct CapabilityRequest {
    pub capability: String,
    pub payload: String,
    pub cwd: String,
}

/// Who issued a request.
#[derive(Debug, Clone)]
pub struct ActorContext {
    pub uid: u32,
    pub process: String,
    pub agent_id: String,
}

/// Where in cmux the request came from.
#[derive(Debug, Clone)]
pub struct CmuxContext {
    pub workspace_id: String,
    pub surface_id: String,
    pub socket_path: String,
}

/// A held request waiting for (or carrying) a decision.
#[derive(Debug, Clone)]
pub struct Incident {
    pub incident_id: String,
    pub actor: ActorContext,
    pub cmux: CmuxContext,
    pub request: CapabilityRequest,
    pub pid: i32,
    pub pgid: i32,
    pub state: IncidentState,
    pub risk: u8,
    pub severity: Severity,
    pub reason: String,
    pub rule_id: Option<String>,
    pub evidence: Vec<String>,
    pub filter_results: FilterResults,
    pub created_at: String,
    pub allowed_actions: Vec<AllowedAction>,
}

/// Parameters of the `security.identify` handshake.
#[derive(Debug, Clone)]
pub struct SecurityIdentifyParams {
    pub agent_id: String,
    pub session_nonce: String,
}

/// The handshake an agent sends first on its socket.
#[derive(Debug, Clone)]
pub struct SecurityIdentifyHandshake {
    pub method: String,
    pub params: SecurityIdentifyParams,
}

/// What the launcher registers about an agent.
#[derive(Debug, Clone)]
pub struct IdentityRecord {
    pub agent_id: String,
    pub session_nonce: String,
    pub uid: u32,
    pub socket_dir: String,
    pub socket_path: String,
    pub pid: Option<u32>,
    pub pgid: Option<u32>,
}

/// Frames the launcher sends on the registration socket.
#[derive(Debug, Clone)]
pub enum RegistrationMessage {
    RegisterAgent(IdentityRecord),
    AgentStarted(IdentityRecord),
}

/// The daemon's answer to a registration frame.
#[derive(Debug, Clone)]
pub struct RegistrationAck {
    pub accepted: bool,
    pub message: Option<String>,
}

/// The SHA-256 digest of `data`.
pub uninterp spec fn sha256(data: Seq<u8>) -> Seq<u8>;

/// Calls `sha2::Sha256::digest(data)`; its contract claims that the digest
/// is the named result `sha256` of the bytes and that it is 32 bytes long.
/// Which bytes SHA-256 yields is not stated.
#[verifier::external_body]
fn sha256_digest(data: &[u8]) -> (d: Vec<u8>)
    ensures
        d@ == sha256(data@),
        d@.len() == 32,
{
    <sha2::Sha256 as sha2::Digest>::digest(data).to_vec()
}

/// The lower-case hexadecimal digit for `d` (below sixteen).
pub open spec fn hex_digit(d: int) -> char {
    if d < 10 {
        ((d + 48) as u32) as char
    } else {
        ((d + 87) as u32) as char
    }
}

/// Lower-case hexadecimal, two digits per byte, high nibble first.
pub open spec fn hex_lower(data: Seq<u8>) -> Seq<char>
    decreases data.len(),
{
    if data.len() == 0 {
        Seq::empty()
    } else {
        hex_lower(data.drop_last()) + seq![hex_digit((data.last() / 16) as int), hex_digit((data.last() % 16) as int)]
    }
}

/// Calls `hex::encode(data)`, which writes each byte as two lower-case
/// hexadecimal digits, high nibble first.
#[verifier::external_body]
fn hex_encode(data: &[u8]) -> (s: String)
    ensures
        s@ == hex_lower(data@),
{
    hex::encode(data)
}

/// The hash under which a session nonce is stored: the lower-case hex of the
/// SHA-256 digest of its UTF-8 bytes.
pub fn hash_session_nonce(session_nonce: &str) -> (h: String)
    ensures
        h@ == hex_lower(sha256(session_nonce.spec_bytes())),
        h@.len() == 64,
        forall|i: int| 0 <= i < 64 ==> is_hex_lower_digit(#[trigger] h@[i]),
{
    let d = sha256_digest(session_nonce.as_bytes());
    proof {
        lemma_hex_lower_shape(d@);
    }
    digest_hex(d.as_slice())
}

/// A digest written as lower-case hex, two digits per byte.
pub fn digest_hex(digest: &[u8]) -> (h: String)
    ensures
        h@ == hex_lower(digest@),
{
    hex_encode(digest)
}

/// The lower-case hexadecimal digits.
pub open spec fn is_hex_lower_digit(c: char) -> bool {
    ('0' <= c <= '9') || ('a' <= c <= 'f')
}

proof fn lemma_hex_lower_shape(data: Seq<u8>)
    ensures
        hex_lower(data).len() == 2 * data.len(),
        forall|i: int| 0 <= i < hex_lower(data).len() ==> is_hex_lower_digit(#[trigger] hex_lower(data)[i]),
    decreases data.len(),
{
    if data.len() > 0 {
        lemma_hex_lower_shape(data.drop_last());
        let h = hex_lower(data);
        let p = hex_lower(data.drop_last());
        assert forall|i: int| 0 <= i < h.len() implies is_hex_lower_digit(#[trigger] h[i]) by {
            if i < p.len() {
                assert(h[i] == p[i]);
            }
        }
    }
}

proof fn lemma_hex_lower_injective(a: Seq<u8>, b: Seq<u8>)
    requires
        hex_lower(a) == hex_lower(b),
    ensures
        a == b,
    decreases a.len(),
{
    lemma_hex_lower_shape(a);
    lemma_hex_lower_shape(b);
    if a.len() > 0 {
        let ha = hex_lower(a);
        let pa = hex_lower(a.drop_last());
        let pb = hex_lower(b.drop_last());
        lemma_hex_lower_shape(a.drop_last());
        lemma_hex_lower_shape(b.drop_last());
        assert(ha[pa.len() as int] == hex_digit((a.last() / 16) as int));
        assert(ha[(pa.len() + 1) as int] == hex_digit((a.last() % 16) as int));
        assert(hex_lower(b)[pb.len() as int] == hex_digit((b.last() / 16) as int));
        assert(hex_lower(b)[(pb.len() + 1) as int] == hex_digit((b.last() % 16) as int));
        assert(a.last() / 16 == b.last() / 16);
        assert(a.last() % 16 == b.last() % 16);
        assert(pa =~= ha.subrange(0, pa.len() as int));
        assert(pb =~= hex_lower(b).subrange(0, pb.len() as int));
        lemma_hex_lower_injective(a.drop_last(), b.drop_last());
        assert(a =~= a.drop_last().push(a.last()));
        assert(b =~= b.drop_last().push(b.last()));
    }
}

/// Two byte strings have the same lower-case hex exactly when they are equal,
/// so comparing stored nonce hashes compares the digests.
pub proof fn law_hex_lower_injective(a: Seq<u8>, b: Seq<u8>)
    ensures
        hex_lower(a) == hex_lower(b) <==> a == b,
{
    if hex_lower(a) == hex_lower(b) {
        lemma_hex_lower_injective(a, b);
    }
}

} // verus!
