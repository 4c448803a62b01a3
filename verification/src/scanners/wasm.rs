//! Findings reported by WebAssembly scanner plugins, and their conversion into
//! the daemon's findings.
use vstd::prelude::*;

use crate::control::AllowedAction;
use crate::plugin_api::{IncidentTemplate, ScannerStage, TemplateView, template_views};
use crate::shared::{IncidentState, Severity};

verus! {

/// A scanner stage as a plugin names it.
#[derive(Debug, Clone, Copy, PartialEq, Eq, Structural)]
pub enum WasmScannerStage {
    PreForwardBlocking,
    PreForwardFast,
    ArtifactInspect,
}

/// The stage a plugin's stage stands for.
pub open spec fn stage_of(stage: WasmScannerStage) -> ScannerStage {
    match stage {
        WasmScannerStage::PreForwardBlocking => ScannerStage::PreForwardBlocking,
        WasmScannerStage::PreForwardFast => ScannerStage::PreForwardFast,
        WasmScannerStage::ArtifactInspect => ScannerStage::ArtifactInspect,
    }
}

impl From<WasmScannerStage> for ScannerStage {
    fn from(stage: WasmScannerStage) -> (s: Self) {
        match stage {
            WasmScannerStage::PreForwardBlocking => ScannerStage::PreForwardBlocking,
            WasmScannerStage::PreForwardFast => ScannerStage::PreForwardFast,
            WasmScannerStage::ArtifactInspect => ScannerStage::ArtifactInspect,
        }
    }
}

impl vstd::std_specs::convert::FromSpecImpl<WasmScannerStage> for ScannerStage {
    open spec fn obeys_from_spec() -> bool {
        true
    }

    open spec fn from_spec(stage: WasmScannerStage) -> ScannerStage {
        stage_of(stage)
    }
}

/// A finding as a plugin reports it.
pub struct WasmIncidentTemplate {
    pub stage: WasmScannerStage,
    pub state: IncidentState,
    pub severity: Severity,
    pub reason: String,
    pub rule_id: String,
    pub risk: u8,
    pub evidence: Vec<String>,
    pub regex: Option<String>,
    pub bash_ast: Option<String>,
    pub magika: Option<String>,
    pub allowed_actions: Vec<AllowedAction>,
}

/// `Box::leak(s.into_boxed_str())`: the text of `s`, kept for the rest of the
/// process.
#[verifier::external_body]
fn leak_string(s: String) -> (r: &'static str)
    ensures
        r@ == s@,
{
    Box::leak(s.into_boxed_str())
}

impl WasmIncidentTemplate {
    /// The daemon finding that carries the same contents.
    pub open spec fn template_view(&self) -> TemplateView {
        TemplateView {
            stage: stage_of(self.stage),
            state: self.state,
            severity: self.severity,
            reason: self.reason@,
            rule_id: self.rule_id@,
            risk: self.risk,
            evidence: self.evidence.deep_view(),
            regex: self.regex.deep_view(),
            bash_ast: self.bash_ast.deep_view(),
            magika: self.magika.deep_view(),
            allowed_actions: self.allowed_actions@,
        }
    }

    /// Converts a plugin's finding into a daemon finding with the same contents.
    pub fn into_template(self) -> (t: IncidentTemplate)
        ensures
            t@ == self.template_view(),
    {
        IncidentTemplate {
            stage: ScannerStage::from(self.stage),
            state: self.state,
            severity: self.severity,
            reason: leak_string(self.reason),
            rule_id: leak_string(self.rule_id),
            risk: self.risk,
            evidence: self.evidence,
            regex: self.regex,
            bash_ast: self.bash_ast,
            magika: self.magika,
            allowed_actions: self.allowed_actions,
        }
    }
}

/// The views of a plugin's findings as daemon findings.
pub open spec fn plugin_template_views(ts: Seq<WasmIncidentTemplate>) -> Seq<TemplateView> {
    ts.map_values(|t: WasmIncidentTemplate| t.template_view())
}

/// Converts all findings of a plugin into daemon findings, in order.
pub fn into_templates(ts: Vec<WasmIncidentTemplate>) -> (v: Vec<IncidentTemplate>)
    ensures
        template_views(v@) == plugin_template_views(ts@),
{
    let ghost all = plugin_template_views(ts@);
    let total = ts.len();
    let mut rest = ts;
    let mut out: Vec<IncidentTemplate> = Vec::new();
    while rest.len() > 0
        invariant
            out.len() + rest.len() == total,
            total == all.len(),
            forall|k: int| 0 <= k < rest.len() ==> #[trigger] rest@[k].template_view() == all[out.len() + k],
            template_views(out@) == all.take(out.len() as int),
        decreases rest.len(),
    {
        let t = rest.remove(0);
        let ghost before = template_views(out@);
        let ghost n = out.len() as int;
        assert(t.template_view() == all[n]);
        let d = t.into_template();
        out.push(d);
        assert(template_views(out@) =~= before.push(d@));
        assert(all.take(n + 1) =~= all.take(n).push(all[n]));
        assert forall|k: int| 0 <= k < rest.len() implies #[trigger] rest@[k].template_view() == all[out.len() + k] by {}
    }
    assert(all.take(total as int) =~= all);
    out
}

} // verus!
