//! The scanner interface: findings, their precedence, and the artifacts a
//! terminal command refers to.
use vstd::prelude::*;

use crate::control::AllowedAction;
use crate::paths::{resolve_path, resolved};
use crate::shared::{CapabilityRequest, IncidentState, Severity};
use crate::text::{
    CharClass, char_views, contains_seq, from_chars, has_char, has_infix, has_prefix, same_chars,
    split_words, starts_with, str_equals, strip_both, strip_end, take_before_class, to_chars,
    trim_class, trim_end_class, before_class, words,
};

verus! {

/// Where in the request path a scanner runs.
#[derive(Debug, Clone, Copy, PartialEq, Eq, Structural)]
pub enum ScannerStage {
    PreForwardBlocking,
    PreForwardFast,
    ArtifactInspect,
}

/// What a finding does to the request: hold it under watch, or block it
/// pending a human decision. `Block` outranks `Watch`.
#[derive(Debug, Clone, Copy, PartialEq, Eq, Structural)]
pub enum FindingEffect {
    Watch,
    Block,
}

/// The pipeline's verdict on one request.
#[derive(Debug)]
pub enum PolicyDecision {
    Allow { reason: &'static str },
    Watch(IncidentTemplate),
    Block(IncidentTemplate),
}

/// A file path named by a terminal command, resolved against the cwd.
#[derive(Debug, Clone, PartialEq, Eq)]
pub struct ArtifactRef {
    pub original: String,
    pub resolved_path: String,
    pub source_capability: String,
}

/// A finding reported by one scanner, before it becomes an incident.
#[derive(Debug)]
pub struct IncidentTemplate {
    pub stage: ScannerStage,
    pub state: IncidentState,
    pub severity: Severity,
    pub reason: &'static str,
    pub rule_id: &'static str,
    pub risk: u8,
    pub evidence: Vec<String>,
    pub regex: Option<String>,
    pub bash_ast: Option<String>,
    pub magika: Option<String>,
    pub allowed_actions: Vec<AllowedAction>,
}

/// The contents of an `IncidentTemplate`, with each text taken by its characters.
pub struct TemplateView {
    pub stage: ScannerStage,
    pub state: IncidentState,
    pub severity: Severity,
    pub reason: Seq<char>,
    pub rule_id: Seq<char>,
    pub risk: u8,
    pub evidence: Seq<Seq<char>>,
    pub regex: Option<Seq<char>>,
    pub bash_ast: Option<Seq<char>>,
    pub magika: Option<Seq<char>>,
    pub allowed_actions: Seq<AllowedAction>,
}

impl View for IncidentTemplate {
    type V = TemplateView;

    open spec fn view(&self) -> TemplateView {
        TemplateView {
            stage: self.stage,
            state: self.state,
            severity: self.severity,
            reason: self.reason@,
            rule_id: self.rule_id@,
            risk: self.risk,
            evidence: self.evidence.deep_view(),
            regex: self.regex.deep_view(),
            bash_ast: self.bash_ast.deep_view(),
            magika: self.magika.deep_view(),
            allowed_actions: self.allowed_actions@,
        }
    }
}

/// The views of a sequence of findings.
pub open spec fn template_views(s: Seq<IncidentTemplate>) -> Seq<TemplateView> {
    s.map_values(|t: IncidentTemplate| t@)
}

/// The precedence key of a finding's view.
pub open spec fn view_key(t: TemplateView) -> (int, int, int) {
    precedence_key(t.state, t.stage, t.risk)
}

/// A scanner inspects one request and reports its findings.
pub trait Scanner: Send + Sync {
    fn scan(&self, req: &CapabilityRequest) -> Vec<IncidentTemplate>;
}

/// The effect of a finding in the given state: only a pending decision blocks.
pub open spec fn effect_of(state: IncidentState) -> FindingEffect {
    match state {
        IncidentState::PendingDecision => FindingEffect::Block,
        _ => FindingEffect::Watch,
    }
}

/// Rank of an effect in the precedence order (`Watch` < `Block`).
pub open spec fn effect_rank(effect: FindingEffect) -> int {
    match effect {
        FindingEffect::Watch => 0,
        FindingEffect::Block => 1,
    }
}

/// Rank of a stage in the precedence order.
pub open spec fn stage_rank_spec(stage: ScannerStage) -> int {
    match stage {
        ScannerStage::PreForwardFast => 0,
        ScannerStage::ArtifactInspect => 1,
        ScannerStage::PreForwardBlocking => 2,
    }
}

/// Strict lexicographic order on (effect rank, stage rank, risk).
pub open spec fn key_precedes(a: (int, int, int), b: (int, int, int)) -> bool {
    ||| a.0 > b.0
    ||| a.0 == b.0 && a.1 > b.1
    ||| a.0 == b.0 && a.1 == b.1 && a.2 > b.2
}

/// The precedence key of a finding with this state, stage and risk.
pub open spec fn precedence_key(state: IncidentState, stage: ScannerStage, risk: u8) -> (int, int, int) {
    (effect_rank(effect_of(state)), stage_rank_spec(stage), risk as int)
}

impl IncidentTemplate {
    /// The precedence key of this finding.
    pub open spec fn key(&self) -> (int, int, int) {
        precedence_key(self.state, self.stage, self.risk)
    }

    /// Whether this finding blocks the request or only watches it.
    pub fn effect(&self) -> (e: FindingEffect)
        ensures
            e == effect_of(self.state),
    {
        match self.state {
            IncidentState::PendingDecision => FindingEffect::Block,
            _ => FindingEffect::Watch,
        }
    }
}

fn effect_rank_of(effect: FindingEffect) -> (r: u8)
    ensures
        r == effect_rank(effect),
{
    match effect {
        FindingEffect::Watch => 0,
        FindingEffect::Block => 1,
    }
}

pub(crate) fn stage_rank(stage: ScannerStage) -> (r: u8)
    ensures
        r == stage_rank_spec(stage),
{
    match stage {
        ScannerStage::PreForwardFast => 0,
        ScannerStage::ArtifactInspect => 1,
        ScannerStage::PreForwardBlocking => 2,
    }
}

/// Whether `candidate` outranks `current`: a blocking finding beats a watching
/// one; with equal effect the later stage rank wins; then the higher risk.
pub fn candidate_precedes(candidate: &IncidentTemplate, current: &IncidentTemplate) -> (b: bool)
    ensures
        b == key_precedes(candidate.key(), current.key()),
{
    let ce = effect_rank_of(candidate.effect());
    let ue = effect_rank_of(current.effect());
    let cs = stage_rank(candidate.stage);
    let us = stage_rank(current.stage);
    if ce != ue {
        ce > ue
    } else if cs != us {
        cs > us
    } else {
        candidate.risk > current.risk
    }
}

/// The contents of an `ArtifactRef`, each text by its characters.
pub struct ArtifactView {
    pub original: Seq<char>,
    pub resolved_path: Seq<char>,
    pub source_capability: Seq<char>,
}

impl View for ArtifactRef {
    type V = ArtifactView;

    open spec fn view(&self) -> ArtifactView {
        ArtifactView {
            original: self.original@,
            resolved_path: self.resolved_path@,
            source_capability: self.source_capability@,
        }
    }
}

/// The views of a sequence of artifact references.
pub open spec fn artifact_views(s: Seq<ArtifactRef>) -> Seq<ArtifactView> {
    s.map_values(|a: ArtifactRef| a@)
}

/// Some reference in `refs` resolves to `path`.
pub open spec fn has_resolved(refs: Seq<ArtifactView>, path: Seq<char>) -> bool {
    exists|i: int| 0 <= i < refs.len() && #[trigger] refs[i].resolved_path == path
}

/// The capabilities whose payload is a terminal command.
pub open spec fn names_terminal_capability(cap: Seq<char>) -> bool {
    cap == "terminal.read_file"@ || cap == "terminal.exec"@ || cap == "terminal.send_text"@
}

/// The cleaned form of a command word, or `None` when it names no argument:
/// quotes and backticks are trimmed from both ends, `;`, `,`, `)` and `(`
/// from the end, everything from the first redirection or pipe character on
/// is cut, and whitespace is trimmed; an empty word, a flag, a bare operator
/// or a URL is dropped.
pub open spec fn cleaned(token: Seq<char>) -> Option<Seq<char>> {
    let t = strip_both(
        before_class(strip_end(strip_both(token, CharClass::QuoteOrBacktick), CharClass::TrailingPunct), CharClass::Redirect),
        CharClass::Whitespace,
    );
    if t.len() == 0 || t[0] == '-' || t == "|"@ || t == "&&"@ || t == "||"@ || t == ";"@
        || contains_seq(t, "://"@) {
        None
    } else {
        Some(t)
    }
}

/// The characters of a plain word: ASCII letters and digits, `_` and `-`.
pub open spec fn is_word_char(c: char) -> bool {
    ('a' <= c <= 'z') || ('A' <= c <= 'Z') || ('0' <= c <= '9') || c == '_' || c == '-'
}

/// The interpreters whose plain-word argument names a script.
pub open spec fn is_script_runner(command: Option<Seq<char>>) -> bool {
    match command {
        Some(c) => c == "python"@ || c == "python3"@ || c == "bash"@ || c == "sh"@ || c == "zsh"@
            || c == "source"@,
        None => false,
    }
}

/// A cleaned word names a file: it looks like a path, or it is a plain word
/// given to a script interpreter.
pub open spec fn is_artifact_arg(token: Seq<char>, command: Option<Seq<char>>) -> bool {
    if starts_with(token, "./"@) || starts_with(token, "../"@) || starts_with(token, "/"@)
        || starts_with(token, "~"@) || token.contains('/') || token.contains('.') {
        true
    } else if forall|i: int| 0 <= i < token.len() ==> is_word_char(#[trigger] token[i]) {
        is_script_runner(command)
    } else {
        false
    }
}

/// The references found among the first words of a command, in order.
pub open spec fn command_refs(
    tokens: Seq<Seq<char>>,
    command: Option<Seq<char>>,
    cwd: Seq<char>,
    cap: Seq<char>,
) -> Seq<ArtifactView>
    decreases tokens.len(),
{
    if tokens.len() == 0 {
        Seq::empty()
    } else {
        let refs = command_refs(tokens.drop_last(), command, cwd, cap);
        match cleaned(tokens.last()) {
            None => refs,
            Some(c) => if tokens.len() == 1 || !is_artifact_arg(c, command) || has_resolved(
                refs,
                resolved(cwd, c),
            ) {
                refs
            } else {
                refs.push(ArtifactView { original: c, resolved_path: resolved(cwd, c), source_capability: cap })
            },
        }
    }
}

/// The files that a terminal request names: the arguments after the command
/// word that look like paths (or scripts given to an interpreter), resolved
/// against the working directory, each resolved path once.
pub open spec fn artifact_refs(cap: Seq<char>, payload: Seq<char>, cwd: Seq<char>) -> Seq<ArtifactView> {
    if !names_terminal_capability(cap) {
        Seq::empty()
    } else {
        let tokens = words(payload);
        let command = if tokens.len() > 0 { cleaned(tokens[0]) } else { None };
        command_refs(tokens, command, cwd, cap)
    }
}

/// The characters of an optional character vector.
pub open spec fn opt_chars(o: Option<Vec<char>>) -> Option<Seq<char>> {
    match o {
        Some(c) => Some(c@),
        None => None,
    }
}

/// Whether `v` holds exactly the characters of `s`.
pub(crate) fn chars_are(v: &[char], s: &str) -> (b: bool)
    ensures
        b == (v@ == s@),
{
    let w = to_chars(s);
    same_chars(v, &w)
}

fn clean_token(token: &[char]) -> (r: Option<Vec<char>>)
    ensures
        match r {
            Some(v) => cleaned(token@) == Some(v@),
            None => cleaned(token@) is None,
        },
{
    let a = trim_class(token, CharClass::QuoteOrBacktick);
    let b = trim_end_class(&a, CharClass::TrailingPunct);
    let c = take_before_class(&b, CharClass::Redirect);
    let t = trim_class(&c, CharClass::Whitespace);
    if t.len() == 0 || t[0] == '-' || chars_are(&t, "|") || chars_are(&t, "&&") || chars_are(&t, "||")
        || chars_are(&t, ";") || has_infix(&t, &to_chars("://")) {
        None
    } else {
        Some(t)
    }
}

fn all_word_chars(token: &[char]) -> (b: bool)
    ensures
        b == forall|i: int| 0 <= i < token@.len() ==> is_word_char(#[trigger] token@[i]),
{
    let mut i: usize = 0;
    while i < token.len()
        invariant
            i <= token.len(),
            forall|k: int| 0 <= k < i ==> is_word_char(#[trigger] token@[k]),
        decreases token.len() - i,
    {
        let c = token[i];
        if !(('a' <= c && c <= 'z') || ('A' <= c && c <= 'Z') || ('0' <= c && c <= '9') || c == '_'
            || c == '-') {
            assert(!is_word_char(token@[i as int]));
            return false;
        }
        i = i + 1;
    }
    true
}

fn looks_like_artifact_arg(token: &[char], command: &Option<Vec<char>>) -> (b: bool)
    ensures
        b == is_artifact_arg(token@, opt_chars(*command)),
{
    if has_prefix(token, &to_chars("./")) || has_prefix(token, &to_chars("../")) || has_prefix(token, &to_chars("/"))
        || has_prefix(token, &to_chars("~")) || has_char(token, '/') || has_char(token, '.') {
        return true;
    }
    if all_word_chars(token) {
        return match command {
            Some(c) => chars_are(c, "python") || chars_are(c, "python3") || chars_are(c, "bash")
                || chars_are(c, "sh") || chars_are(c, "zsh") || chars_are(c, "source"),
            None => false,
        };
    }
    false
}

fn resolved_present(refs: &Vec<ArtifactRef>, path: &String) -> (b: bool)
    ensures
        b == has_resolved(artifact_views(refs@), path@),
{
    let mut i: usize = 0;
    while i < refs.len()
        invariant
            i <= refs.len(),
            forall|k: int| 0 <= k < i ==> refs@[k].resolved_path@ != path@,
        decreases refs.len() - i,
    {
        if refs[i].resolved_path == *path {
            assert(artifact_views(refs@)[i as int].resolved_path == path@);
            return true;
        }
        i = i + 1;
    }
    proof {
        if has_resolved(artifact_views(refs@), path@) {
            let k = choose|k: int| 0 <= k < refs@.len() && #[trigger] artifact_views(refs@)[k].resolved_path == path@;
            assert(refs@[k].resolved_path@ == path@);
        }
    }
    false
}

/// The files a terminal request names, resolved against its working
/// directory, each resolved path once, in the order the command names them.
pub fn extract_artifact_refs(req: &CapabilityRequest) -> (refs: Vec<ArtifactRef>)
    ensures
        artifact_views(refs@) == artifact_refs(req.capability@, req.payload@, req.cwd@),
{
    let cap = req.capability.as_str();
    if !(str_equals(cap, "terminal.read_file") || str_equals(cap, "terminal.exec") || str_equals(cap, "terminal.send_text")) {
        let refs: Vec<ArtifactRef> = Vec::new();
        assert(artifact_views(refs@) =~= Seq::<ArtifactView>::empty());
        return refs;
    }
    let payload = to_chars(req.payload.as_str());
    let tokens = split_words(&payload);
    let ghost tv = char_views(tokens@);
    let command = if tokens.len() > 0 { clean_token(&tokens[0]) } else { None };
    let ghost cmd = opt_chars(command);
    assert(cmd == if tv.len() > 0 { cleaned(tv[0]) } else { None });
    let mut refs: Vec<ArtifactRef> = Vec::new();
    let mut index: usize = 0;
    assert(artifact_views(refs@) =~= command_refs(tv.take(0), cmd, req.cwd@, req.capability@));
    while index < tokens.len()
        invariant
            index <= tokens.len(),
            tv == char_views(tokens@),
            cmd == opt_chars(command),
            artifact_views(refs@) == command_refs(tv.take(index as int), cmd, req.cwd@, req.capability@),
        decreases tokens.len() - index,
    {
        proof {
            let t = tv.take(index as int + 1);
            assert(t.drop_last() =~= tv.take(index as int));
            assert(t.last() == tokens@[index as int]@);
        }
        match clean_token(&tokens[index]) {
            None => {},
            Some(candidate) => {
                if index != 0 && looks_like_artifact_arg(&candidate, &command) {
                    let resolved_path = resolve_path(req.cwd.as_str(), &candidate);
                    if !resolved_present(&refs, &resolved_path) {
                        let ghost before = artifact_views(refs@);
                        let r = ArtifactRef {
                            original: from_chars(&candidate),
                            resolved_path,
                            source_capability: req.capability.clone(),
                        };
                        refs.push(r);
                        assert(artifact_views(refs@) =~= before.push(r@));
                    }
                }
            },
        }
        index = index + 1;
    }
    assert(tv.take(tokens.len() as int) =~= tv);
    refs
}

/// No two references resolve to the same path, and each carries the
/// capability of its request.
pub open spec fn refs_well_formed(refs: Seq<ArtifactView>, cap: Seq<char>) -> bool {
    &&& forall|i: int, j: int| 0 <= i < j < refs.len() ==> #[trigger] refs[i].resolved_path != #[trigger] refs[j].resolved_path
    &&& forall|i: int| 0 <= i < refs.len() ==> #[trigger] refs[i].source_capability == cap
}

proof fn lemma_command_refs_well_formed(tokens: Seq<Seq<char>>, command: Option<Seq<char>>, cwd: Seq<char>, cap: Seq<char>)
    ensures
        refs_well_formed(command_refs(tokens, command, cwd, cap), cap),
    decreases tokens.len(),
{
    if tokens.len() > 0 {
        lemma_command_refs_well_formed(tokens.drop_last(), command, cwd, cap);
    }
}

/// The files extracted from a request are named once each, carry the
/// request's capability, and only terminal requests name any.
pub proof fn law_artifact_refs_well_formed(cap: Seq<char>, payload: Seq<char>, cwd: Seq<char>)
    ensures
        refs_well_formed(artifact_refs(cap, payload, cwd), cap),
        !names_terminal_capability(cap) ==> artifact_refs(cap, payload, cwd).len() == 0,
{
    if names_terminal_capability(cap) {
        let tokens = words(payload);
        let command = if tokens.len() > 0 { cleaned(tokens[0]) } else { None };
        lemma_command_refs_well_formed(tokens, command, cwd, cap);
    }
}

/// The candidate relation is a strict order: no finding outranks itself, and
/// outranking is transitive (hence never mutual).
pub proof fn law_precedence_is_strict_order(a: TemplateView, b: TemplateView, c: TemplateView)
    ensures
        !key_precedes(view_key(a), view_key(a)),
        key_precedes(view_key(a), view_key(b)) ==> !key_precedes(view_key(b), view_key(a)),
        key_precedes(view_key(a), view_key(b)) && key_precedes(view_key(b), view_key(c)) ==> key_precedes(
            view_key(a),
            view_key(c),
        ),
{
}

/// Any two findings are comparable: one outranks the other, or they agree
/// on effect, stage rank and risk.
pub proof fn law_precedence_is_total(a: TemplateView, b: TemplateView)
    ensures
        key_precedes(view_key(a), view_key(b)) || key_precedes(view_key(b), view_key(a)) || view_key(a)
            == view_key(b),
{
}

/// A blocking finding outranks every finding that only watches, whatever
/// their stages and risks.
pub proof fn law_block_outranks_watch(a: TemplateView, b: TemplateView)
    requires
        effect_of(a.state) == FindingEffect::Block,
        effect_of(b.state) == FindingEffect::Watch,
    ensures
        key_precedes(view_key(a), view_key(b)),
{
}

/// The stage order: among findings with the same effect and the same risk, a
/// `PreForwardBlocking` finding outranks an `ArtifactInspect` one, which
/// outranks a `PreForwardFast` one; with effect and stage equal, the higher
/// risk outranks the lower.
pub proof fn law_stage_order(a: TemplateView, b: TemplateView)
    requires
        effect_of(a.state) == effect_of(b.state),
    ensures
        a.risk == b.risk && a.stage == ScannerStage::PreForwardBlocking && b.stage == ScannerStage::ArtifactInspect
            ==> key_precedes(view_key(a), view_key(b)),
        a.risk == b.risk && a.stage == ScannerStage::ArtifactInspect && b.stage == ScannerStage::PreForwardFast
            ==> key_precedes(view_key(a), view_key(b)),
        a.risk == b.risk && a.stage == ScannerStage::PreForwardBlocking && b.stage == ScannerStage::PreForwardFast
            ==> key_precedes(view_key(a), view_key(b)),
        a.stage == b.stage ==> (key_precedes(view_key(a), view_key(b)) <==> a.risk > b.risk),
        a.stage != b.stage ==> (key_precedes(view_key(a), view_key(b)) <==> (
            a.stage == ScannerStage::PreForwardBlocking
            || (a.stage == ScannerStage::ArtifactInspect && b.stage == ScannerStage::PreForwardFast))),
{
}

/// A cleaned word never names a URL, a flag, a bare operator or nothing: it is
/// not empty, does not start with `-`, holds no `://`, and is not `|`, `&&`,
/// `||` or `;`.
pub proof fn law_cleaned_word_is_no_url(token: Seq<char>)
    ensures
        cleaned(token) matches Some(c) ==> {
            &&& c.len() > 0
            &&& c[0] != '-'
            &&& !contains_seq(c, "://"@)
            &&& c != "|"@ && c != "&&"@ && c != "||"@ && c != ";"@
        },
{
}

/// Every reference the command yields is a cleaned word of it.
proof fn lemma_command_refs_are_clean(
    tokens: Seq<Seq<char>>,
    command: Option<Seq<char>>,
    cwd: Seq<char>,
    cap: Seq<char>,
)
    ensures
        forall|i: int| 0 <= i < command_refs(tokens, command, cwd, cap).len() ==> {
            let o = #[trigger] command_refs(tokens, command, cwd, cap)[i].original;
            &&& o.len() > 0
            &&& o[0] != '-'
            &&& !contains_seq(o, "://"@)
            &&& o != "|"@ && o != "&&"@ && o != "||"@ && o != ";"@
        },
    decreases tokens.len(),
{
    if tokens.len() > 0 {
        lemma_command_refs_are_clean(tokens.drop_last(), command, cwd, cap);
        law_cleaned_word_is_no_url(tokens.last());
        let prev = command_refs(tokens.drop_last(), command, cwd, cap);
        let cur = command_refs(tokens, command, cwd, cap);
        assert forall|i: int| 0 <= i < cur.len() implies {
            let o = #[trigger] cur[i].original;
            &&& o.len() > 0
            &&& o[0] != '-'
            &&& !contains_seq(o, "://"@)
            &&& o != "|"@ && o != "&&"@ && o != "||"@ && o != ";"@
        } by {
            if i < prev.len() {
                assert(cur[i] == prev[i]);
            }
        }
    }
}

/// No reference extracted from a request is a URL, a flag or an operator:
/// each names a non-empty word without `://` that does not start with `-`.
pub proof fn law_artifact_refs_name_no_url(cap: Seq<char>, payload: Seq<char>, cwd: Seq<char>)
    ensures
        forall|i: int| 0 <= i < artifact_refs(cap, payload, cwd).len() ==> {
            let o = #[trigger] artifact_refs(cap, payload, cwd)[i].original;
            &&& o.len() > 0
            &&& o[0] != '-'
            &&& !contains_seq(o, "://"@)
        },
{
    if names_terminal_capability(cap) {
        let tokens = words(payload);
        let command = if tokens.len() > 0 { cleaned(tokens[0]) } else { None };
        lemma_command_refs_are_clean(tokens, command, cwd, cap);
    }
}

} // verus!
