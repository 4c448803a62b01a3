//! Finds requests that reach for secrets: browser scripts reading cookies or
//! storage, and terminal commands touching key files or tokens.
use vstd::prelude::*;

use crate::control::AllowedAction;
use crate::patterns::{CompiledRegex, alternation, regex_compiles, regex_is_match};
use crate::plugin_api::{IncidentTemplate, Scanner, ScannerStage, TemplateView, template_views};
use crate::shared::{CapabilityRequest, IncidentState, Severity};
use crate::text::{concat_str, str_equals};

verus! {

/// The secret-access pattern, case-insensitive.
pub open spec fn secret_pattern_text() -> Seq<char> {
    r"(?i)\.env|\.ssh|id_rsa|id_ed25519|/etc/passwd|aws_secret_access_key|ghp_[0-9a-zA-Z]{36}|document\.cookie|localStorage|sessionStorage|bearer|api_key|token"@
}

fn secret_pattern() -> (p: &'static str)
    ensures
        p@ == secret_pattern_text(),
{
    r"(?i)\.env|\.ssh|id_rsa|id_ed25519|/etc/passwd|aws_secret_access_key|ghp_[0-9a-zA-Z]{36}|document\.cookie|localStorage|sessionStorage|bearer|api_key|token"
}

/// The capabilities that act on the terminal.
pub open spec fn is_terminal_capability(cap: Seq<char>) -> bool {
    cap == "terminal.read_file"@ || cap == "terminal.exec"@ || cap == "terminal.send_text"@
}

/// The findings of the secret scanner, compiled from `pattern`, for a request
/// with this capability and payload.
pub open spec fn secret_findings(pattern: Seq<char>, cap: Seq<char>, payload: Seq<char>) -> Seq<TemplateView> {
    secret_findings_given(pattern, cap, payload, regex_is_match(pattern, payload))
}

/// The findings of the secret scanner when `matched` tells whether its
/// pattern matches the payload.
pub open spec fn secret_findings_given(pattern: Seq<char>, cap: Seq<char>, payload: Seq<char>, matched: bool) -> Seq<TemplateView> {
    if cap == "browser.eval"@ && matched {
        seq![TemplateView {
            stage: ScannerStage::PreForwardBlocking,
            state: IncidentState::PendingDecision,
            severity: Severity::Critical,
            reason: "browser script targets browser-held secrets"@,
            rule_id: "SI-BROWSER-01"@,
            risk: 98,
            evidence: seq!["browser.eval payload matched secret access pattern: "@ + payload],
            regex: Some(pattern),
            bash_ast: None,
            magika: None,
            allowed_actions: seq![
                AllowedAction::AllowOnce,
                AllowedAction::ContinueWatched,
                AllowedAction::Kill,
                AllowedAction::LlmJudge,
            ],
        }]
    } else if is_terminal_capability(cap) && matched {
        seq![TemplateView {
            stage: ScannerStage::PreForwardBlocking,
            state: IncidentState::Watch,
            severity: Severity::Medium,
            reason: "request touched a sensitive file or token pattern"@,
            rule_id: "SI-DATA-01"@,
            risk: 65,
            evidence: seq!["payload matched sensitive path or token indicator: "@ + payload],
            regex: Some(pattern),
            bash_ast: None,
            magika: None,
            allowed_actions: seq![AllowedAction::ContinueWatched, AllowedAction::Kill],
        }]
    } else if cap == "browser.eval"@ {
        seq![TemplateView {
            stage: ScannerStage::PreForwardBlocking,
            state: IncidentState::Watch,
            severity: Severity::Medium,
            reason: "browser script execution is allowed only under watch in MVP policy"@,
            rule_id: "SI-BROWSER-00"@,
            risk: 55,
            evidence: seq!["browser.eval executed without secret-match payload: "@ + payload],
            regex: None,
            bash_ast: None,
            magika: None,
            allowed_actions: seq![AllowedAction::ContinueWatched, AllowedAction::Kill],
        }]
    } else {
        Seq::empty()
    }
}

/// Scans request payloads against the secret-access pattern.
pub struct SecretScanner {
    regex: CompiledRegex,
}

impl SecretScanner {
    /// The pattern this scanner matches with.
    pub closed spec fn pattern(&self) -> Seq<char> {
        self.regex@
    }

    /// The scanner with the secret-access pattern, which must compile.
    pub fn new() -> (s: Self)
        requires
            regex_compiles(secret_pattern_text()),
        ensures
            s.pattern() == secret_pattern_text(),
    {
        match CompiledRegex::compile(secret_pattern()) {
            Some(regex) => SecretScanner { regex },
            None => vstd::pervasive::unreached(),
        }
    }

    /// The scanner with the secret-access pattern, or `None` where the pattern
    /// does not compile.
    pub fn try_new() -> (s: Option<Self>)
        ensures
            s is Some <==> regex_compiles(secret_pattern_text()),
            s matches Some(sc) ==> sc.pattern() == secret_pattern_text(),
    {
        match CompiledRegex::compile(secret_pattern()) {
            Some(_) => Some(Self::new()),
            None => None,
        }
    }
}

fn secret_incident(
    state: IncidentState,
    severity: Severity,
    reason: &'static str,
    rule_id: &'static str,
    risk: u8,
    evidence_head: &str,
    payload: &String,
    regex: Option<String>,
    allowed_actions: Vec<AllowedAction>,
) -> (t: IncidentTemplate)
    ensures
        t.stage == ScannerStage::PreForwardBlocking,
        t.state == state,
        t.severity == severity,
        t.reason == reason,
        t.rule_id == rule_id,
        t.risk == risk,
        t@.evidence == seq![evidence_head@ + payload@],
        t@.regex == regex.deep_view(),
        t.bash_ast is None,
        t.magika is None,
        t.allowed_actions == allowed_actions,
{
    let line = concat_str(evidence_head, payload.as_str());
    let t = IncidentTemplate {
        stage: ScannerStage::PreForwardBlocking,
        state,
        severity,
        reason,
        rule_id,
        risk,
        evidence: vec![line],
        regex,
        bash_ast: None,
        magika: None,
        allowed_actions,
    };
    assert(t@.evidence =~= seq![evidence_head@ + payload@]);
    t
}

/// The secret scanner's findings for a request, given whether its pattern
/// (`pattern`) matches the payload.
pub fn secret_findings_for(req: &CapabilityRequest, matched: bool, pattern: &String) -> (findings: Vec<IncidentTemplate>)
    ensures
        template_views(findings@) == secret_findings_given(pattern@, req.capability@, req.payload@, matched),
{
    let cap = req.capability.as_str();
    let is_browser = str_equals(cap, "browser.eval");
    let is_terminal = str_equals(cap, "terminal.read_file") || str_equals(cap, "terminal.exec")
        || str_equals(cap, "terminal.send_text");
    let mut findings: Vec<IncidentTemplate> = Vec::new();
    if is_browser && matched {
        let t = secret_incident(
            IncidentState::PendingDecision,
            Severity::Critical,
            "browser script targets browser-held secrets",
            "SI-BROWSER-01",
            98,
            "browser.eval payload matched secret access pattern: ",
            &req.payload,
            Some(pattern.clone()),
            vec![
                AllowedAction::AllowOnce,
                AllowedAction::ContinueWatched,
                AllowedAction::Kill,
                AllowedAction::LlmJudge,
            ],
        );
        findings.push(t);
    } else if is_terminal && matched {
        let t = secret_incident(
            IncidentState::Watch,
            Severity::Medium,
            "request touched a sensitive file or token pattern",
            "SI-DATA-01",
            65,
            "payload matched sensitive path or token indicator: ",
            &req.payload,
            Some(pattern.clone()),
            vec![AllowedAction::ContinueWatched, AllowedAction::Kill],
        );
        findings.push(t);
    } else if is_browser {
        let t = secret_incident(
            IncidentState::Watch,
            Severity::Medium,
            "browser script execution is allowed only under watch in MVP policy",
            "SI-BROWSER-00",
            55,
            "browser.eval executed without secret-match payload: ",
            &req.payload,
            None,
            vec![AllowedAction::ContinueWatched, AllowedAction::Kill],
        );
        findings.push(t);
    }
    proof {
        let v = template_views(findings@);
        let expected = secret_findings_given(pattern@, req.capability@, req.payload@, matched);
        assert(v.len() == expected.len());
        if v.len() == 1 {
            assert(v[0].allowed_actions =~= expected[0].allowed_actions);
            assert(v[0] == expected[0]);
        }
        assert(v =~= expected);
    }
    findings
}

impl Scanner for SecretScanner {
    /// A browser script whose payload matches the pattern blocks
    /// (SI-BROWSER-01); a terminal request whose payload matches is watched
    /// (SI-DATA-01); any other browser script is watched (SI-BROWSER-00).
    fn scan(&self, req: &CapabilityRequest) -> (findings: Vec<IncidentTemplate>)
        ensures
            template_views(findings@) == secret_findings(self.pattern(), req.capability@, req.payload@),
    {
        let matched = self.regex.is_match(req.payload.as_str());
        let pattern = self.regex.as_string();
        secret_findings_for(req, matched, &pattern)
    }
}

/// What the secret scanner reports, by capability, when its pattern matches
/// the payload (`regex_is_match`) or not:
/// - a matching terminal request (`terminal.read_file`, `terminal.exec` or
///   `terminal.send_text`) gives one SI-DATA-01 finding that watches, at
///   medium severity and risk 65;
/// - a matching `browser.eval` gives one SI-BROWSER-01 finding that blocks
///   pending a decision, at critical severity and risk 98;
/// - a `browser.eval` that does not match gives one SI-BROWSER-00 finding that
///   watches, at risk 55;
/// - anything else gives no finding.
/// Each finding's evidence is one line that ends with the payload.
pub proof fn law_secret_scanner_rules(pattern: Seq<char>, cap: Seq<char>, payload: Seq<char>)
    ensures
        ({
            let f = secret_findings(pattern, cap, payload);
            &&& (cap == "terminal.read_file"@ || cap == "terminal.exec"@ || cap == "terminal.send_text"@)
                && regex_is_match(pattern, payload) ==> {
                &&& f.len() == 1
                &&& f[0].rule_id == "SI-DATA-01"@
                &&& f[0].state == IncidentState::Watch
                &&& f[0].severity == Severity::Medium
                &&& f[0].risk == 65
                &&& f[0].evidence == seq!["payload matched sensitive path or token indicator: "@ + payload]
            }
            &&& (cap == "terminal.read_file"@ || cap == "terminal.exec"@ || cap == "terminal.send_text"@)
                && !regex_is_match(pattern, payload) ==> f.len() == 0
            &&& cap == "browser.eval"@ && regex_is_match(pattern, payload) ==> {
                &&& f.len() == 1
                &&& f[0].rule_id == "SI-BROWSER-01"@
                &&& f[0].state == IncidentState::PendingDecision
                &&& f[0].severity == Severity::Critical
                &&& f[0].risk == 98
                &&& f[0].evidence == seq!["browser.eval payload matched secret access pattern: "@ + payload]
            }
            &&& cap == "browser.eval"@ && !regex_is_match(pattern, payload) ==> {
                &&& f.len() == 1
                &&& f[0].rule_id == "SI-BROWSER-00"@
                &&& f[0].state == IncidentState::Watch
                &&& f[0].risk == 55
                &&& f[0].evidence == seq!["browser.eval executed without secret-match payload: "@ + payload]
            }
            &&& !(cap == "terminal.read_file"@ || cap == "terminal.exec"@ || cap == "terminal.send_text"@
                || cap == "browser.eval"@) ==> f.len() == 0
        }),
{
    reveal_strlit("browser.eval");
    reveal_strlit("terminal.read_file");
    reveal_strlit("terminal.exec");
    reveal_strlit("terminal.send_text");
    assert("browser.eval"@[0] != "terminal.read_file"@[0]);
    assert("browser.eval"@ != "terminal.read_file"@);
    assert("browser.eval"@[0] != "terminal.exec"@[0]);
    assert("browser.eval"@ != "terminal.exec"@);
    assert("browser.eval"@[0] != "terminal.send_text"@[0]);
    assert("browser.eval"@ != "terminal.send_text"@);
}

/// The secret-access pattern is the alternation of exactly these
/// alternatives, in order, the whole of it case-insensitive: `.env`, `.ssh`,
/// SSH key names, `/etc/passwd`, AWS secret keys, GitHub tokens, browser
/// cookies and storage, bearer tokens, API keys and tokens.
pub proof fn law_secret_pattern_alternatives()
    ensures
        secret_pattern_text() == alternation(
            seq![
                r"(?i)\.env"@,
                r"\.ssh"@,
                "id_rsa"@,
                "id_ed25519"@,
                "/etc/passwd"@,
                "aws_secret_access_key"@,
                "ghp_[0-9a-zA-Z]{36}"@,
                r"document\.cookie"@,
                "localStorage"@,
                "sessionStorage"@,
                "bearer"@,
                "api_key"@,
                "token"@,
            ],
        ),
{
    reveal_strlit(r"(?i)\.env|\.ssh|id_rsa|id_ed25519|/etc/passwd|aws_secret_access_key|ghp_[0-9a-zA-Z]{36}|document\.cookie|localStorage|sessionStorage|bearer|api_key|token");
    reveal_strlit(r"(?i)\.env");
    reveal_strlit(r"\.ssh");
    reveal_strlit("id_rsa");
    reveal_strlit("id_ed25519");
    reveal_strlit("/etc/passwd");
    reveal_strlit("aws_secret_access_key");
    reveal_strlit("ghp_[0-9a-zA-Z]{36}");
    reveal_strlit(r"document\.cookie");
    reveal_strlit("localStorage");
    reveal_strlit("sessionStorage");
    reveal_strlit("bearer");
    reveal_strlit("api_key");
    reveal_strlit("token");
    reveal_strlit("|");
    reveal_with_fuel(alternation, 14);
    assert(secret_pattern_text() =~= alternation(seq![
                r"(?i)\.env"@,
                r"\.ssh"@,
                "id_rsa"@,
                "id_ed25519"@,
                "/etc/passwd"@,
                "aws_secret_access_key"@,
                "ghp_[0-9a-zA-Z]{36}"@,
                r"document\.cookie"@,
                "localStorage"@,
                "sessionStorage"@,
                "bearer"@,
                "api_key"@,
                "token"@,
            ]));
}

} // verus!
