use security_island::plugin_api::{candidate_precedes, FindingEffect, IncidentTemplate, ScannerStage};
use security_island::shared::{IncidentState, Severity};

fn template(effect: FindingEffect, risk: u8, stage: ScannerStage) -> IncidentTemplate {
    IncidentTemplate {
        stage,
        state: match effect {
            FindingEffect::Watch => IncidentState::Watch,
            FindingEffect::Block => IncidentState::PendingDecision,
        },
        severity: Severity::Medium,
        reason: "test",
        rule_id: "TEST-01",
        risk,
        evidence: vec![],
        regex: None,
        bash_ast: None,
        magika: None,
        allowed_actions: vec![],
    }
}

#[test]
fn block_beats_watch() {
    let block = template(FindingEffect::Block, 50, ScannerStage::PreForwardBlocking);
    let watch = template(FindingEffect::Watch, 99, ScannerStage::PreForwardBlocking);
    assert!(candidate_precedes(&block, &watch));
}

#[test]
fn higher_stage_beats_lower_with_same_effect() {
    let fast = template(FindingEffect::Watch, 50, ScannerStage::PreForwardFast);
    let artifact = template(FindingEffect::Watch, 50, ScannerStage::ArtifactInspect);
    assert!(candidate_precedes(&artifact, &fast));
}

#[test]
fn higher_risk_breaks_ties() {
    let stronger = template(FindingEffect::Watch, 70, ScannerStage::PreForwardFast);
    let weaker = template(FindingEffect::Watch, 60, ScannerStage::PreForwardFast);
    assert!(candidate_precedes(&stronger, &weaker));
}
