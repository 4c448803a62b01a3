//! Artifact inspection with Google Magika: picks the paths a payload names and
//! turns Magika's verdict on each into findings.
use vstd::prelude::*;

use crate::control::AllowedAction;
use crate::plugin_api::{IncidentTemplate, ScannerStage, TemplateView, template_views};
use crate::shared::{IncidentState, Severity};
use crate::text::{
    CharClass, char_views, contains_seq, from_chars, has_infix, split_words, strip_both,
    to_chars, trim_class, words,
};

verus! {

/// Runs Magika on the paths that a payload names.
pub struct MagikaScanner;

/// A word that Magika should look at: it starts like a path.
pub open spec fn looks_like_magika_path(w: Seq<char>) -> bool {
    w.len() > 0 && (w[0] == '/' || w[0] == '.' || w[0] == '~')
}

/// The path-like words of `ws`, in order, without surrounding quotes.
pub open spec fn magika_paths_of(ws: Seq<Seq<char>>) -> Seq<Seq<char>>
    decreases ws.len(),
{
    if ws.len() == 0 {
        Seq::empty()
    } else if looks_like_magika_path(ws.last()) {
        magika_paths_of(ws.drop_last()).push(strip_both(ws.last(), CharClass::Quote))
    } else {
        magika_paths_of(ws.drop_last())
    }
}

/// Magika's verdict names an executable format.
pub open spec fn names_executable(output: Seq<char>) -> bool {
    contains_seq(output, "executable"@) || contains_seq(output, "mach-o"@) || contains_seq(
        output,
        "elf"@,
    )
}

/// Magika's verdict names a secret or key.
pub open spec fn names_secret(output: Seq<char>) -> bool {
    contains_seq(output, "secret"@) || contains_seq(output, "key"@)
}

/// The blocking finding for one Magika verdict.
pub open spec fn magika_template(rule_id: Seq<char>, reason: Seq<char>, risk: u8, output: Seq<char>) -> TemplateView {
    TemplateView {
        stage: ScannerStage::PreForwardBlocking,
        state: IncidentState::PendingDecision,
        severity: Severity::High,
        reason,
        rule_id,
        risk,
        evidence: seq!["Magika scan result: "@ + output],
        regex: None,
        bash_ast: None,
        magika: None,
        allowed_actions: seq![AllowedAction::AllowOnce, AllowedAction::Kill],
    }
}

/// The finding (if any) for one Magika verdict.
pub open spec fn magika_finding(output: Seq<char>) -> Option<TemplateView> {
    if names_executable(output) {
        Some(magika_template("SI-MAGIKA-01"@, "Magika detected executable file"@, 80, output))
    } else if names_secret(output) {
        Some(magika_template("SI-MAGIKA-02"@, "Magika detected secret/key file"@, 75, output))
    } else {
        None
    }
}

/// The findings for a sequence of Magika verdicts, in order.
pub open spec fn magika_findings(outputs: Seq<Seq<char>>) -> Seq<TemplateView>
    decreases outputs.len(),
{
    if outputs.len() == 0 {
        Seq::empty()
    } else {
        let rest = magika_findings(outputs.drop_last());
        match magika_finding(outputs.last()) {
            Some(t) => rest.push(t),
            None => rest,
        }
    }
}

impl MagikaScanner {
    pub fn new() -> (s: Self) {
        MagikaScanner
    }

    /// The paths in `payload` that Magika should inspect: the whitespace
    /// separated words that start with `/`, `.` or `~`, with surrounding
    /// quotes removed.
    pub fn extract_paths(payload: &str) -> (paths: Vec<String>)
        ensures
            crate::text::string_views(paths@) == magika_paths_of(words(payload@)),
    {
        let chars = to_chars(payload);
        let ws = split_words(&chars);
        let mut paths: Vec<String> = Vec::new();
        let mut i: usize = 0;
        while i < ws.len()
            invariant
                i <= ws.len(),
                char_views(ws@) == words(payload@),
                crate::text::string_views(paths@) == magika_paths_of(char_views(ws@).take(i as int)),
            decreases ws.len() - i,
        {
            let w = &ws[i];
            proof {
                assert(char_views(ws@).take(i as int + 1).drop_last() =~= char_views(ws@).take(i as int));
                assert(char_views(ws@).take(i as int + 1).last() == w@);
            }
            if w.len() > 0 && (w[0] == '/' || w[0] == '.' || w[0] == '~') {
                let t = trim_class(w, CharClass::Quote);
                let p = from_chars(&t);
                let ghost before = crate::text::string_views(paths@);
                paths.push(p);
                assert(crate::text::string_views(paths@) =~= before.push(p@));
            }
            i = i + 1;
        }
        assert(char_views(ws@).take(ws.len() as int) =~= char_views(ws@));
        paths
    }

    /// Magika's verdict as its standard output gives it: the output without
    /// surrounding whitespace.
    pub fn verdict_of(stdout: &str) -> (v: String)
        ensures
            v@ == strip_both(stdout@, CharClass::Whitespace),
    {
        let t = trim_class(&to_chars(stdout), CharClass::Whitespace);
        from_chars(&t)
    }

    /// The findings for Magika's verdicts on the extracted paths, in order: a
    /// verdict naming an executable format (`executable`, `mach-o`, `elf`)
    /// blocks as SI-MAGIKA-01, else one naming `secret` or `key` blocks as
    /// SI-MAGIKA-02; any other verdict gives no finding.
    pub fn scan_outputs(&self, outputs: &Vec<String>) -> (findings: Vec<IncidentTemplate>)
        ensures
            template_views(findings@) == magika_findings(crate::text::string_views(outputs@)),
    {
        let mut findings: Vec<IncidentTemplate> = Vec::new();
        let mut i: usize = 0;
        while i < outputs.len()
            invariant
                i <= outputs.len(),
                template_views(findings@) == magika_findings(crate::text::string_views(outputs@).take(i as int)),
            decreases outputs.len() - i,
        {
            let ghost outs = crate::text::string_views(outputs@);
            proof {
                assert(outs.take(i as int + 1).drop_last() =~= outs.take(i as int));
                assert(outs.take(i as int + 1).last() == outputs@[i as int]@);
            }
            let out = to_chars(outputs[i].as_str());
            let ghost before = template_views(findings@);
            if has_infix(&out, &to_chars("executable")) || has_infix(&out, &to_chars("mach-o"))
                || has_infix(&out, &to_chars("elf")) {
                let t = magika_incident("SI-MAGIKA-01", "Magika detected executable file", 80, &outputs[i]);
                findings.push(t);
                assert(template_views(findings@) =~= before.push(t@));
            } else if has_infix(&out, &to_chars("secret")) || has_infix(&out, &to_chars("key")) {
                let t = magika_incident("SI-MAGIKA-02", "Magika detected secret/key file", 75, &outputs[i]);
                findings.push(t);
                assert(template_views(findings@) =~= before.push(t@));
            }
            i = i + 1;
        }
        assert(crate::text::string_views(outputs@).take(outputs.len() as int) =~= crate::text::string_views(outputs@));
        findings
    }
}

/// Builds the blocking finding for one Magika verdict.
fn magika_incident(rule_id: &'static str, reason: &'static str, risk: u8, output: &String) -> (t: IncidentTemplate)
    ensures
        t@ == magika_template(rule_id@, reason@, risk, output@),
{
    let mut evidence_line = "Magika scan result: ".to_owned();
    evidence_line.append(output.as_str());
    let evidence = vec![evidence_line];
    let t = IncidentTemplate {
        stage: ScannerStage::PreForwardBlocking,
        state: IncidentState::PendingDecision,
        severity: Severity::High,
        reason,
        rule_id,
        risk,
        evidence,
        regex: None,
        bash_ast: None,
        magika: None,
        allowed_actions: vec![AllowedAction::AllowOnce, AllowedAction::Kill],
    };
    assert(t@.evidence =~= seq!["Magika scan result: "@ + output@]);
    assert(t@.allowed_actions =~= seq![AllowedAction::AllowOnce, AllowedAction::Kill]);
    t
}

} // verus!
