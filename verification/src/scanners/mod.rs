//! The daemon's scanner pipeline: every request runs through the secret,
//! shell-policy and Magika scanners, and their findings become one decision.
pub mod decision;
pub mod magika;
pub mod secrets;
pub mod shell_policy;
pub mod state;
pub mod wasm;

use vstd::prelude::*;

use crate::patterns::regex_compiles;
use crate::paths::{resolve_path, resolved};
use crate::plugin_api::{
    ArtifactRef, ArtifactView, IncidentTemplate, PolicyDecision, Scanner, artifact_views, chars_are,
    has_resolved, names_terminal_capability,
};
use crate::text::{
    CharClass, char_views, contains_seq, from_chars, has_char, has_infix, has_prefix, split_words,
    starts_with, str_equals, strip_both, to_chars, trim_class, words,
};
use crate::shared::CapabilityRequest;
use crate::text::string_views;
use decision::{decide, decide_spec};
use magika::{MagikaScanner, magika_findings};
use secrets::{SecretScanner, secret_findings, secret_pattern_text};
use shell_policy::{ShellPolicyScanner, shell_findings, shell_pattern_text};

verus! {

/// The scanners a request runs through, in order.
pub struct Pipeline {
    secrets: SecretScanner,
    shell: ShellPolicyScanner,
    magika: MagikaScanner,
}

/// The findings of the whole pipeline, in scanner order, for a request with
/// this capability and payload and for Magika's verdicts on its paths.
pub open spec fn pipeline_findings(
    cap: Seq<char>,
    payload: Seq<char>,
    magika_outputs: Seq<Seq<char>>,
) -> Seq<crate::plugin_api::TemplateView> {
    secret_findings(secret_pattern_text(), cap, payload) + shell_findings(
        shell_pattern_text(),
        cap,
        payload,
    ) + magika_findings(magika_outputs)
}

impl Pipeline {
    /// The pipeline's scanners use the secret and shell patterns.
    #[verifier::type_invariant]
    spec fn well_formed(&self) -> bool {
        &&& self.secrets.pattern() == secret_pattern_text()
        &&& self.shell.pattern() == shell_pattern_text()
    }

    /// The pipeline of secret, shell-policy and Magika scanners; both
    /// patterns must compile.
    pub fn new() -> (p: Self)
        requires
            regex_compiles(secret_pattern_text()),
            regex_compiles(shell_pattern_text()),
    {
        Pipeline {
            secrets: SecretScanner::new(),
            shell: ShellPolicyScanner::new(),
            magika: MagikaScanner::new(),
        }
    }

    /// The pipeline, or `None` where one of the patterns does not compile.
    pub fn try_new() -> (p: Option<Self>)
        ensures
            p is Some <==> (regex_compiles(secret_pattern_text()) && regex_compiles(shell_pattern_text())),
    {
        let secrets = SecretScanner::try_new();
        let shell = ShellPolicyScanner::try_new();
        if secrets.is_some() && shell.is_some() {
            Some(Self::new())
        } else {
            None
        }
    }

    /// Classifies a request. `magika_outputs` are Magika's verdicts on the
    /// paths that `MagikaScanner::extract_paths` finds in the payload, in
    /// order, for the paths Magika could read.
    pub fn classify(&self, req: &CapabilityRequest, magika_outputs: &Vec<String>) -> (d: PolicyDecision)
        ensures
            d@ == decide_spec(pipeline_findings(req.capability@, req.payload@, string_views(magika_outputs@))),
    {
        proof {
            use_type_invariant(self);
        }
        let mut findings: Vec<IncidentTemplate> = self.secrets.scan(req);
        let mut shell = self.shell.scan(req);
        let mut magika = self.magika.scan_outputs(magika_outputs);
        let ghost a = crate::plugin_api::template_views(findings@);
        let ghost b = crate::plugin_api::template_views(shell@);
        let ghost c = crate::plugin_api::template_views(magika@);
        findings.append(&mut shell);
        findings.append(&mut magika);
        assert(crate::plugin_api::template_views(findings@) =~= a + b + c);
        decide(findings)
    }
}

/// The shell operators that never name a file.
pub open spec fn is_shell_operator(t: Seq<char>) -> bool {
    t == "|"@ || t == "&&"@ || t == "||"@ || t == ";"@ || t == ">"@ || t == ">>"@ || t == "<"@
        || t == "2>"@ || t == "2>>"@
}

/// A word looks like a path: it starts with `./`, `../`, `/` or `~`, or it
/// holds a `/` or a `.`.
pub open spec fn path_like(t: Seq<char>) -> bool {
    starts_with(t, "./"@) || starts_with(t, "../"@) || starts_with(t, "/"@) || starts_with(t, "~"@)
        || t.contains('/') || t.contains('.')
}

/// The path a command word names, if any: the word without surrounding quotes
/// and backticks, unless that is empty, a flag, a shell operator, a URL, or
/// not path-like.
pub open spec fn named_path(token: Seq<char>) -> Option<Seq<char>> {
    let t = strip_both(token, CharClass::QuoteOrBacktick);
    if t.len() == 0 || t[0] == '-' || is_shell_operator(t) || contains_seq(t, "://"@) || !path_like(t) {
        None
    } else {
        Some(t)
    }
}

/// The references found among the first words of a command, in order.
pub open spec fn path_refs(tokens: Seq<Seq<char>>, cwd: Seq<char>, cap: Seq<char>) -> Seq<ArtifactView>
    decreases tokens.len(),
{
    if tokens.len() == 0 {
        Seq::empty()
    } else {
        let refs = path_refs(tokens.drop_last(), cwd, cap);
        match named_path(tokens.last()) {
            None => refs,
            Some(t) => if has_resolved(refs, resolved(cwd, t)) {
                refs
            } else {
                refs.push(ArtifactView { original: t, resolved_path: resolved(cwd, t), source_capability: cap })
            },
        }
    }
}

/// The files a terminal request names, as the daemon extracts them.
pub open spec fn daemon_artifact_refs(cap: Seq<char>, payload: Seq<char>, cwd: Seq<char>) -> Seq<ArtifactView> {
    if !names_terminal_capability(cap) {
        Seq::empty()
    } else {
        path_refs(words(payload), cwd, cap)
    }
}

fn looks_like_path(token: &[char]) -> (b: bool)
    ensures
        b == path_like(token@),
{
    has_prefix(token, &to_chars("./")) || has_prefix(token, &to_chars("../")) || has_prefix(token, &to_chars("/"))
        || has_prefix(token, &to_chars("~")) || has_char(token, '/') || has_char(token, '.')
}

fn path_named_by(token: &[char]) -> (r: Option<Vec<char>>)
    ensures
        match r {
            Some(v) => named_path(token@) == Some(v@),
            None => named_path(token@) is None,
        },
{
    let t = trim_class(token, CharClass::QuoteOrBacktick);
    let operator = chars_are(&t, "|") || chars_are(&t, "&&") || chars_are(&t, "||") || chars_are(&t, ";")
        || chars_are(&t, ">") || chars_are(&t, ">>") || chars_are(&t, "<") || chars_are(&t, "2>")
        || chars_are(&t, "2>>");
    if t.len() == 0 || t[0] == '-' || operator || has_infix(&t, &to_chars("://")) || !looks_like_path(&t) {
        None
    } else {
        Some(t)
    }
}

fn resolved_in(refs: &Vec<ArtifactRef>, path: &String) -> (b: bool)
    ensures
        b == has_resolved(artifact_views(refs@), path@),
{
    let mut i: usize = 0;
    while i < refs.len()
        invariant
            i <= refs.len(),
            forall|k: int| 0 <= k < i ==> refs@[k].resolved_path@ != path@,
        decreases refs.len() - i,
    {
        if refs[i].resolved_path == *path {
            assert(artifact_views(refs@)[i as int].resolved_path == path@);
            return true;
        }
        i = i + 1;
    }
    proof {
        if has_resolved(artifact_views(refs@), path@) {
            let k = choose|k: int| 0 <= k < refs@.len() && #[trigger] artifact_views(refs@)[k].resolved_path == path@;
            assert(refs@[k].resolved_path@ == path@);
        }
    }
    false
}

/// The files a terminal request names: every word (quotes and backticks
/// trimmed) that looks like a path and is not a flag, a shell operator or a
/// URL, resolved against the working directory, each resolved path once.
pub fn extract_artifact_refs(req: &CapabilityRequest) -> (refs: Vec<ArtifactRef>)
    ensures
        artifact_views(refs@) == daemon_artifact_refs(req.capability@, req.payload@, req.cwd@),
{
    let cap = req.capability.as_str();
    if !(str_equals(cap, "terminal.read_file") || str_equals(cap, "terminal.exec") || str_equals(cap, "terminal.send_text")) {
        let refs: Vec<ArtifactRef> = Vec::new();
        assert(artifact_views(refs@) =~= Seq::<ArtifactView>::empty());
        return refs;
    }
    let payload = to_chars(req.payload.as_str());
    let tokens = split_words(&payload);
    let ghost tv = char_views(tokens@);
    let mut refs: Vec<ArtifactRef> = Vec::new();
    let mut index: usize = 0;
    assert(artifact_views(refs@) =~= path_refs(tv.take(0), req.cwd@, req.capability@));
    while index < tokens.len()
        invariant
            index <= tokens.len(),
            tv == char_views(tokens@),
            artifact_views(refs@) == path_refs(tv.take(index as int), req.cwd@, req.capability@),
        decreases tokens.len() - index,
    {
        proof {
            let t = tv.take(index as int + 1);
            assert(t.drop_last() =~= tv.take(index as int));
            assert(t.last() == tokens@[index as int]@);
        }
        match path_named_by(&tokens[index]) {
            None => {},
            Some(trimmed) => {
                let resolved_path = resolve_path(req.cwd.as_str(), &trimmed);
                if !resolved_in(&refs, &resolved_path) {
                    let ghost before = artifact_views(refs@);
                    let r = ArtifactRef {
                        original: from_chars(&trimmed),
                        resolved_path,
                        source_capability: req.capability.clone(),
                    };
                    refs.push(r);
                    assert(artifact_views(refs@) =~= before.push(r@));
                }
            },
        }
        index = index + 1;
    }
    assert(tv.take(tokens.len() as int) =~= tv);
    refs
}

proof fn lemma_path_refs_well_formed(tokens: Seq<Seq<char>>, cwd: Seq<char>, cap: Seq<char>)
    ensures
        crate::plugin_api::refs_well_formed(path_refs(tokens, cwd, cap), cap),
    decreases tokens.len(),
{
    if tokens.len() > 0 {
        lemma_path_refs_well_formed(tokens.drop_last(), cwd, cap);
    }
}

/// The files the daemon extracts from a request are named once each, carry
/// the request's capability, and only terminal requests name any.
pub proof fn law_daemon_artifact_refs_well_formed(cap: Seq<char>, payload: Seq<char>, cwd: Seq<char>)
    ensures
        crate::plugin_api::refs_well_formed(daemon_artifact_refs(cap, payload, cwd), cap),
        !names_terminal_capability(cap) ==> daemon_artifact_refs(cap, payload, cwd).len() == 0,
{
    if names_terminal_capability(cap) {
        lemma_path_refs_well_formed(words(payload), cwd, cap);
    }
}

/// Every reference among the daemon's is a path-like word that is no URL,
/// flag or shell operator.
proof fn lemma_path_refs_are_paths(tokens: Seq<Seq<char>>, cwd: Seq<char>, cap: Seq<char>)
    ensures
        forall|i: int| 0 <= i < path_refs(tokens, cwd, cap).len() ==> {
            let o = #[trigger] path_refs(tokens, cwd, cap)[i].original;
            &&& o.len() > 0
            &&& o[0] != '-'
            &&& !contains_seq(o, "://"@)
            &&& !is_shell_operator(o)
            &&& path_like(o)
        },
    decreases tokens.len(),
{
    if tokens.len() > 0 {
        lemma_path_refs_are_paths(tokens.drop_last(), cwd, cap);
        let prev = path_refs(tokens.drop_last(), cwd, cap);
        let cur = path_refs(tokens, cwd, cap);
        assert forall|i: int| 0 <= i < cur.len() implies {
            let o = #[trigger] cur[i].original;
            &&& o.len() > 0
            &&& o[0] != '-'
            &&& !contains_seq(o, "://"@)
            &&& !is_shell_operator(o)
            &&& path_like(o)
        } by {
            if i < prev.len() {
                assert(cur[i] == prev[i]);
            }
        }
    }
}

/// No reference the daemon extracts is a URL, a flag or a shell operator:
/// each is a non-empty, path-like word without `://` that does not start
/// with `-`.
pub proof fn law_daemon_artifact_refs_name_no_url(cap: Seq<char>, payload: Seq<char>, cwd: Seq<char>)
    ensures
        forall|i: int| 0 <= i < daemon_artifact_refs(cap, payload, cwd).len() ==> {
            let o = #[trigger] daemon_artifact_refs(cap, payload, cwd)[i].original;
            &&& o.len() > 0
            &&& o[0] != '-'
            &&& !contains_seq(o, "://"@)
            &&& !is_shell_operator(o)
            &&& path_like(o)
        },
{
    if names_terminal_capability(cap) {
        lemma_path_refs_are_paths(words(payload), cwd, cap);
    }
}

} // verus!
