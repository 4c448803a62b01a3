use security_island::demo_scanner::{self, WasmIncidentAction, WasmIncidentSeverity};
use security_island::engine::context::estimate_tokens;
use security_island::engine::lore::{system_prompt_files, system_prompt_message};
use security_island::engine::orchestrator::{gh_issues_result, tool_call_result};
use security_island::engine::permissions::requires_approval;
use security_island::engine::render::render_markdown;
use security_island::engine::types::{ChatMessage, Role};
use security_island::launch::{
    agent_socket_dir, agent_socket_path, cmux_socket_path, frame_line, registration_result,
    registration_socket_path,
};
use security_island::mcp::McpClientImpl;
use security_island::plugin_api::ScannerStage;
use security_island::scanners::state::StateTracker;
use security_island::scanners::wasm::{into_templates, WasmIncidentTemplate, WasmScannerStage};
use security_island::setup::{cmux_config_update, shim_script};
use security_island::shared::{hash_session_nonce, IncidentState, RegistrationAck, Severity};
use security_island::text::decimal_string;

#[test]
fn tracker_records_downloads_and_executions_separately() {
    let mut t = StateTracker::new();
    assert!(!t.is_downloaded("/tmp/a.sh"));
    t.record_download("/tmp/a.sh".to_string());
    t.record_download("/tmp/a.sh".to_string());
    assert!(t.is_downloaded("/tmp/a.sh"));
    t.record_execution("/tmp/b.sh".to_string());
    assert!(!t.is_downloaded("/tmp/b.sh"));
}

#[test]
fn nonce_hash_is_sha256_hex() {
    assert_eq!(
        hash_session_nonce("abc"),
        "ba7816bf8f01cfea414140de5dae2223b00361a396177a9cb410ff61f20015ad"
    );
    let h = hash_session_nonce("");
    assert_eq!(h, "e3b0c44298fc1c149afbf4c8996fb92427ae41e4649b934ca495991b7852b855");
    assert_eq!(h.len(), 64);
}

#[test]
fn socket_paths_follow_the_layout() {
    assert_eq!(registration_socket_path(501), "/tmp/security-island/501/registration.sock");
    assert_eq!(cmux_socket_path(0), "/tmp/security-island/0/cmux.sock");
    let dir = agent_socket_dir(4294967295, "agent-1");
    assert_eq!(dir, "/tmp/security-island/4294967295/agents/agent-1");
    assert_eq!(agent_socket_path(&dir), "/tmp/security-island/4294967295/agents/agent-1/cmux.sock");
    assert_eq!(decimal_string(1200), "1200");
}

#[test]
fn registration_answers() {
    assert!(registration_result(&RegistrationAck { accepted: true, message: Some("x".into()) }).is_ok());
    assert_eq!(
        registration_result(&RegistrationAck { accepted: false, message: None }),
        Err("Daemon rejected registration".to_string())
    );
    assert_eq!(
        registration_result(&RegistrationAck { accepted: false, message: Some("busy".into()) }),
        Err("busy".to_string())
    );
}

#[test]
fn registration_frames_end_with_newline() {
    assert_eq!(frame_line(b"{\"type\":\"x\"}".to_vec()), b"{\"type\":\"x\"}\n".to_vec());
    assert_eq!(frame_line(Vec::new()), vec![b'\n']);
}

#[test]
fn config_update_appends_broker_once() {
    let sock = "/tmp/security-island/501/cmux.sock";
    let fresh = cmux_config_update(None, sock).unwrap();
    assert_eq!(fresh, "\n[broker]\nsocket_path = \"/tmp/security-island/501/cmux.sock\"\n");
    let grown = cmux_config_update(Some("theme = 1\n"), sock).unwrap();
    assert_eq!(grown, format!("theme = 1\n{}", fresh));
    assert!(cmux_config_update(Some(&grown), sock).is_none());
}

#[test]
fn shims_wrap_agent_clis() {
    assert_eq!(
        shim_script("/s.sock", "codex"),
        "#!/bin/bash\nexport CMUX_SOCKET_PATH=\"/s.sock\"\nexec cmux run -- codex \"$@\"\n"
    );
}

#[test]
fn token_estimate_counts_bytes() {
    let msgs = vec![
        ChatMessage { role: Role::User, content: "hello".to_string() },
        ChatMessage { role: Role::Assistant, content: "héllo!".to_string() },
    ];
    assert_eq!(estimate_tokens(&msgs), 3);
    assert_eq!(estimate_tokens(&[]), 0);
}

#[test]
fn approval_rules() {
    assert!(!requires_approval("read_file", "{}"));
    assert!(!requires_approval("list_dir", ""));
    assert!(!requires_approval("search_code", ""));
    assert!(!requires_approval("rg", ""));
    assert!(requires_approval("write_file", ""));
    assert!(requires_approval("cats", ""));
    assert!(requires_approval("bash", ""));
}

#[test]
fn prompts_and_tool_results() {
    assert_eq!(system_prompt_files().len(), 6);
    let m = system_prompt_message("SOUL.md", "be kind");
    assert!(matches!(m.role, Role::System));
    assert_eq!(m.content, "# File: SOUL.md\n\nbe kind");
    let r = gh_issues_result("o/r");
    assert_eq!(r.output, "Mock issue data for o/r");
    assert!(!r.is_error);
    let e = tool_call_result("c1".into(), Err("boom".into()));
    assert!(e.is_error);
    assert_eq!(e.output, "boom");
    let client = McpClientImpl;
    assert_eq!(client.call_tool("x", String::new()), Ok("mock".to_string()));
}

#[test]
fn markdown_marks_code_between_backticks() {
    let lines = render_markdown("run `ls` now\r\nplain\n");
    assert_eq!(lines.len(), 2);
    let first: Vec<(&str, bool)> = lines[0].iter().map(|s| (s.text.as_str(), s.code)).collect();
    assert_eq!(first, vec![("run ", false), ("ls", true), (" now", false)]);
    assert_eq!(lines[1].len(), 1);
    assert_eq!(lines[1][0].text, "plain");
    assert!(render_markdown("").is_empty());
}

#[test]
fn demo_plugin_blocks_network_probes() {
    let req = demo_scanner::CapabilityRequest { capability: "terminal.exec".into(), payload: "nmap -sS host".into() };
    let out = demo_scanner::scan_request(&req);
    assert_eq!(out.len(), 1);
    assert_eq!(out[0].plugin_name, "demo-scanner");
    assert_eq!(out[0].severity, WasmIncidentSeverity::Critical);
    assert_eq!(out[0].action, WasmIncidentAction::Block);
    assert_eq!(out[0].message, "Blocked potentially dangerous execution: nmap -sS host");
    let quiet = demo_scanner::CapabilityRequest { capability: "terminal.exec".into(), payload: "ncdu".into() };
    assert!(demo_scanner::scan_request(&quiet).is_empty());
}

#[test]
fn wasm_templates_convert() {
    let w = WasmIncidentTemplate {
        stage: WasmScannerStage::ArtifactInspect,
        state: IncidentState::Watch,
        severity: Severity::Low,
        reason: "plugin reason".into(),
        rule_id: "P-1".into(),
        risk: 12,
        evidence: vec!["e".into()],
        regex: None,
        bash_ast: Some("ast".into()),
        magika: None,
        allowed_actions: vec![],
    };
    let t = w.into_template();
    assert_eq!(t.stage, ScannerStage::ArtifactInspect);
    assert_eq!(t.rule_id, "P-1");
    assert_eq!(t.reason, "plugin reason");
    assert_eq!(t.bash_ast.as_deref(), Some("ast"));
    assert_eq!(ScannerStage::from(WasmScannerStage::PreForwardFast), ScannerStage::PreForwardFast);
}

#[test]
fn plugin_findings_convert_in_order() {
    let make = |rule: &str, risk: u8| WasmIncidentTemplate {
        stage: WasmScannerStage::PreForwardBlocking,
        state: IncidentState::PendingDecision,
        severity: Severity::High,
        reason: format!("reason {}", rule),
        rule_id: rule.to_string(),
        risk,
        evidence: vec![],
        regex: Some("x".into()),
        bash_ast: None,
        magika: None,
        allowed_actions: vec![],
    };
    let ts = into_templates(vec![make("P-1", 10), make("P-2", 20)]);
    assert_eq!(ts.len(), 2);
    assert_eq!(ts[0].rule_id, "P-1");
    assert_eq!(ts[1].rule_id, "P-2");
    assert_eq!(ts[1].reason, "reason P-2");
    assert_eq!(ts[1].risk, 20);
    assert_eq!(ts[0].stage, ScannerStage::PreForwardBlocking);
    assert!(into_templates(vec![]).is_empty());
}

#[test]
fn default_tracker_has_seen_nothing() {
    let mut t = StateTracker::default();
    assert!(!t.is_downloaded("/x"));
    t.record_execution("/x".to_string());
    assert!(!t.is_downloaded("/x"));
    t.record_download("/x".to_string());
    assert!(t.is_downloaded("/x"));
}

#[test]
fn digest_hex_writes_two_lowercase_digits_per_byte() {
    assert_eq!(security_island::shared::digest_hex(&[0x00, 0xab, 0x7f]), "00ab7f");
}
