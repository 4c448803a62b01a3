use security_island::plugin_api;
use security_island::scanners::extract_artifact_refs;
use security_island::shared::CapabilityRequest;

fn request(capability: &str, payload: &str, cwd: &str) -> CapabilityRequest {
    CapabilityRequest {
        capability: capability.to_string(),
        payload: payload.to_string(),
        cwd: cwd.to_string(),
    }
}

#[test]
fn resolves_relative_artifacts_against_cwd() {
    let refs = extract_artifact_refs(&request("terminal.exec", "chmod +x ./tool", "/tmp/workspace"));
    assert_eq!(refs[0].resolved_path, "/tmp/workspace/tool");
}

#[test]
fn resolves_parent_relative_artifacts_against_cwd() {
    let refs = extract_artifact_refs(&request(
        "terminal.read_file",
        "cat ../config/.env",
        "/tmp/workspace/app",
    ));
    assert_eq!(refs[0].resolved_path, "/tmp/workspace/config/.env");
}

#[test]
fn ignores_flags_and_operators() {
    let refs = extract_artifact_refs(&request(
        "terminal.exec",
        "cat ./file.txt | grep token -n",
        "/tmp/workspace",
    ));
    assert_eq!(refs.len(), 1);
    assert_eq!(refs[0].resolved_path, "/tmp/workspace/file.txt");
}

#[test]
fn ignores_urls() {
    let refs = extract_artifact_refs(&request(
        "terminal.exec",
        "curl https://example.com/tool.sh",
        "/tmp/workspace",
    ));
    assert!(refs.is_empty());
}

#[test]
fn returns_no_artifacts_for_ls() {
    let refs = extract_artifact_refs(&request("terminal.exec", "ls -la", "/tmp/workspace"));
    assert!(refs.is_empty());
}

#[test]
fn daemon_refs_keep_original_and_capability() {
    let refs = extract_artifact_refs(&request("terminal.send_text", "cat '~/notes.md'", "/w"));
    assert_eq!(refs.len(), 1);
    assert_eq!(refs[0].original, "~/notes.md");
    assert_eq!(refs[0].resolved_path, "~/notes.md");
    assert_eq!(refs[0].source_capability, "terminal.send_text");
}

#[test]
fn daemon_refs_are_distinct() {
    let refs = extract_artifact_refs(&request("terminal.exec", "cp ./a.txt a.txt /w/a.txt", "/w"));
    assert_eq!(refs.len(), 1);
    assert_eq!(refs[0].original, "./a.txt");
}

#[test]
fn daemon_refs_only_for_terminal() {
    let refs = extract_artifact_refs(&request("browser.eval", "cat ./x.txt", "/w"));
    assert!(refs.is_empty());
}

#[test]
fn daemon_skips_redirect_operators() {
    let refs = extract_artifact_refs(&request("terminal.exec", "echo hi >> ./log.txt 2> err.log", "/w"));
    let paths: Vec<&str> = refs.iter().map(|r| r.resolved_path.as_str()).collect();
    assert_eq!(paths, vec!["/w/log.txt", "/w/err.log"]);
}

#[test]
fn plugin_refs_skip_command_word() {
    let refs = plugin_api::extract_artifact_refs(&request("terminal.exec", "./run.sh ./data.csv", "/w"));
    assert_eq!(refs.len(), 1);
    assert_eq!(refs[0].resolved_path, "/w/data.csv");
}

#[test]
fn plugin_refs_accept_script_names_for_interpreters() {
    let refs = plugin_api::extract_artifact_refs(&request("terminal.exec", "python3 setup", "/w"));
    assert_eq!(refs.len(), 1);
    assert_eq!(refs[0].resolved_path, "/w/setup");
    let none = plugin_api::extract_artifact_refs(&request("terminal.exec", "git status", "/w"));
    assert!(none.is_empty());
}

#[test]
fn plugin_refs_cut_redirections_and_punctuation() {
    let refs = plugin_api::extract_artifact_refs(&request(
        "terminal.exec",
        "cat ./in.txt; grep x ./out.txt>copy",
        "/w/sub",
    ));
    let paths: Vec<&str> = refs.iter().map(|r| r.resolved_path.as_str()).collect();
    assert_eq!(paths, vec!["/w/sub/in.txt", "/w/sub/out.txt"]);
}

#[test]
fn plugin_refs_resolve_parent_of_root_to_root() {
    let refs = plugin_api::extract_artifact_refs(&request("terminal.read_file", "cat ../../../etc/x.conf", "/a"));
    assert_eq!(refs[0].resolved_path, "/etc/x.conf");
}

#[test]
fn plugin_refs_relative_cwd() {
    let refs = plugin_api::extract_artifact_refs(&request("terminal.read_file", "cat ../x.txt", "proj//src/"));
    assert_eq!(refs[0].resolved_path, "proj/x.txt");
}
