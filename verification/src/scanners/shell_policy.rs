//! Holds shell commands that match high-risk execution patterns, such as a
//! download piped into a shell.
use vstd::prelude::*;

use crate::control::AllowedAction;
use crate::patterns::{CompiledRegex, alternation, regex_compiles, regex_is_match};
use crate::plugin_api::{IncidentTemplate, Scanner, ScannerStage, TemplateView, template_views};
use crate::shared::{CapabilityRequest, IncidentState, Severity};
use crate::text::{concat_str, str_equals};

verus! {

/// The high-risk shell pattern.
pub open spec fn shell_pattern_text() -> Seq<char> {
    r"curl\s+.*\|\s*(?:bash|sh)|wget\s+.*\|\s*(?:bash|sh)|chmod\s+\+x|sudo\s+|rm\s+-rf|launchctl|osascript|ssh\s+"@
}

fn shell_pattern() -> (p: &'static str)
    ensures
        p@ == shell_pattern_text(),
{
    r"curl\s+.*\|\s*(?:bash|sh)|wget\s+.*\|\s*(?:bash|sh)|chmod\s+\+x|sudo\s+|rm\s+-rf|launchctl|osascript|ssh\s+"
}

/// The findings of the shell scanner, compiled from `pattern`, for a request
/// with this capability and payload.
pub open spec fn shell_findings(pattern: Seq<char>, cap: Seq<char>, payload: Seq<char>) -> Seq<TemplateView> {
    shell_findings_given(pattern, cap, payload, regex_is_match(pattern, payload))
}

/// The findings of the shell scanner when `matched` tells whether its
/// pattern matches the payload.
pub open spec fn shell_findings_given(pattern: Seq<char>, cap: Seq<char>, payload: Seq<char>, matched: bool) -> Seq<TemplateView> {
    if (cap == "terminal.exec"@ || cap == "terminal.send_text"@) && matched {
        seq![TemplateView {
            stage: ScannerStage::PreForwardFast,
            state: IncidentState::PendingDecision,
            severity: Severity::High,
            reason: "shell request matched high-risk execution pattern"@,
            rule_id: "SI-TERM-01"@,
            risk: 90,
            evidence: seq!["terminal payload matched high-risk shell pattern: "@ + payload],
            regex: Some(pattern),
            bash_ast: None,
            magika: None,
            allowed_actions: seq![
                AllowedAction::AllowOnce,
                AllowedAction::ContinueWatched,
                AllowedAction::Kill,
                AllowedAction::LlmJudge,
            ],
        }]
    } else {
        Seq::empty()
    }
}

/// Scans terminal payloads against the high-risk shell pattern.
pub struct ShellPolicyScanner {
    regex: CompiledRegex,
}

impl ShellPolicyScanner {
    /// The pattern this scanner matches with.
    pub closed spec fn pattern(&self) -> Seq<char> {
        self.regex@
    }

    /// The scanner with the high-risk shell pattern, which must compile.
    pub fn new() -> (s: Self)
        requires
            regex_compiles(shell_pattern_text()),
        ensures
            s.pattern() == shell_pattern_text(),
    {
        match CompiledRegex::compile(shell_pattern()) {
            Some(regex) => ShellPolicyScanner { regex },
            None => vstd::pervasive::unreached(),
        }
    }

    /// The scanner with the high-risk shell pattern, or `None` where the
    /// pattern does not compile.
    pub fn try_new() -> (s: Option<Self>)
        ensures
            s is Some <==> regex_compiles(shell_pattern_text()),
            s matches Some(sc) ==> sc.pattern() == shell_pattern_text(),
    {
        match CompiledRegex::compile(shell_pattern()) {
            Some(_) => Some(Self::new()),
            None => None,
        }
    }
}

/// The shell scanner's findings for a request, given whether its pattern
/// (`pattern`) matches the payload.
pub fn shell_findings_for(req: &CapabilityRequest, matched: bool, pattern: &String) -> (findings: Vec<IncidentTemplate>)
    ensures
        template_views(findings@) == shell_findings_given(pattern@, req.capability@, req.payload@, matched),
{
    let cap = req.capability.as_str();
    let mut findings: Vec<IncidentTemplate> = Vec::new();
    if (str_equals(cap, "terminal.exec") || str_equals(cap, "terminal.send_text")) && matched {
        let line = concat_str(
            "terminal payload matched high-risk shell pattern: ",
            req.payload.as_str(),
        );
        let t = IncidentTemplate {
            stage: ScannerStage::PreForwardFast,
            state: IncidentState::PendingDecision,
            severity: Severity::High,
            reason: "shell request matched high-risk execution pattern",
            rule_id: "SI-TERM-01",
            risk: 90,
            evidence: vec![line],
            regex: Some(pattern.clone()),
            bash_ast: None,
            magika: None,
            allowed_actions: vec![
                AllowedAction::AllowOnce,
                AllowedAction::ContinueWatched,
                AllowedAction::Kill,
                AllowedAction::LlmJudge,
            ],
        };
        findings.push(t);
    }
    proof {
        let v = template_views(findings@);
        let expected = shell_findings_given(pattern@, req.capability@, req.payload@, matched);
        if v.len() == 1 {
            assert(v[0].evidence =~= expected[0].evidence);
            assert(v[0].allowed_actions =~= expected[0].allowed_actions);
        }
        assert(v =~= expected);
    }
    findings
}

impl Scanner for ShellPolicyScanner {
    /// A terminal command or typed text matching the pattern blocks pending a
    /// decision (SI-TERM-01); anything else gives no finding.
    fn scan(&self, req: &CapabilityRequest) -> (findings: Vec<IncidentTemplate>)
        ensures
            template_views(findings@) == shell_findings(self.pattern(), req.capability@, req.payload@),
    {
        let matched = self.regex.is_match(req.payload.as_str());
        let pattern = self.regex.as_string();
        shell_findings_for(req, matched, &pattern)
    }
}

/// The high-risk shell pattern is the alternation of exactly these
/// alternatives, in order: a `curl` or `wget` download piped into `bash` or
/// `sh`, `chmod +x`, `sudo`, `rm -rf`, `launchctl`, `osascript` and `ssh`.
pub proof fn law_shell_pattern_alternatives()
    ensures
        shell_pattern_text() == alternation(
            seq![
                r"curl\s+.*\|\s*(?:bash|sh)"@,
                r"wget\s+.*\|\s*(?:bash|sh)"@,
                r"chmod\s+\+x"@,
                r"sudo\s+"@,
                r"rm\s+-rf"@,
                "launchctl"@,
                "osascript"@,
                r"ssh\s+"@,
            ],
        ),
{
    let alts = seq![
        r"curl\s+.*\|\s*(?:bash|sh)"@,
        r"wget\s+.*\|\s*(?:bash|sh)"@,
        r"chmod\s+\+x"@,
        r"sudo\s+"@,
        r"rm\s+-rf"@,
        "launchctl"@,
        "osascript"@,
        r"ssh\s+"@,
    ];
    reveal_strlit(r"curl\s+.*\|\s*(?:bash|sh)|wget\s+.*\|\s*(?:bash|sh)|chmod\s+\+x|sudo\s+|rm\s+-rf|launchctl|osascript|ssh\s+");
    reveal_strlit(r"curl\s+.*\|\s*(?:bash|sh)");
    reveal_strlit(r"wget\s+.*\|\s*(?:bash|sh)");
    reveal_strlit(r"chmod\s+\+x");
    reveal_strlit(r"sudo\s+");
    reveal_strlit(r"rm\s+-rf");
    reveal_strlit("launchctl");
    reveal_strlit("osascript");
    reveal_strlit(r"ssh\s+");
    reveal_strlit("|");
    reveal_with_fuel(alternation, 9);
    assert(shell_pattern_text() =~= alternation(alts));
}

/// What the shell scanner reports: a `terminal.exec` or `terminal.send_text`
/// request whose payload the pattern matches gives one SI-TERM-01 finding in
/// the fast stage that blocks pending a decision, at high severity and risk
/// 90, with the payload in its evidence; every other request gives none.
pub proof fn law_shell_scanner_rules(pattern: Seq<char>, cap: Seq<char>, payload: Seq<char>)
    ensures
        ({
            let f = shell_findings(pattern, cap, payload);
            &&& (cap == "terminal.exec"@ || cap == "terminal.send_text"@) && regex_is_match(pattern, payload) ==> {
                &&& f.len() == 1
                &&& f[0].rule_id == "SI-TERM-01"@
                &&& f[0].stage == ScannerStage::PreForwardFast
                &&& f[0].state == IncidentState::PendingDecision
                &&& f[0].severity == Severity::High
                &&& f[0].risk == 90
                &&& f[0].evidence == seq!["terminal payload matched high-risk shell pattern: "@ + payload]
                &&& f[0].regex == Some(pattern)
            }
            &&& !((cap == "terminal.exec"@ || cap == "terminal.send_text"@) && regex_is_match(pattern, payload))
                ==> f.len() == 0
        }),
{
}

} // verus!
