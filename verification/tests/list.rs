use sdkman_list::command::{offline_mode, plan_request, should_fetch, Request};
use sdkman_list::listing::{
    list_all_candidates, list_candidate_versions, list_installed_versions, InstalledScan,
    ListError, Screen,
};
use sdkman_list::text::Line;

const RULE: &str = "--------------------------------------------------------------------------------";

fn strings(items: &[&str]) -> Vec<String> {
    items.iter().map(|s| s.to_string()).collect()
}

fn texts(lines: &[Line]) -> Vec<String> {
    lines.iter().map(|l| l.text()).collect()
}

fn joined(lines: &[Line]) -> String {
    texts(lines).join("\n")
}

fn stdout_of(screen: &Screen) -> String {
    joined(&screen.stdout)
}

fn stderr_of(screen: &Screen) -> String {
    joined(&screen.stderr)
}

/// Runs the command as the binary would, with the online service unreachable
/// when `offline` is false.
fn run(
    known: &[&str],
    candidate: Option<&str>,
    subcommand: Option<&str>,
    installed: InstalledScan,
    current: Option<&str>,
    offline: bool,
) -> Screen {
    let known = strings(known);
    match plan_request(
        candidate.map(|s| s.to_string()),
        subcommand.map(|s| s.to_string()),
        &known,
    ) {
        Err(e) => Screen { stdout: vec![], stderr: vec![e.message()], exit_code: e.exit_code() },
        Ok(request) => {
            let fetched = if should_fetch(&request, offline) {
                Some(Err("Failed to connect to API - check your internet connection".to_string()))
            } else {
                None
            };
            let current = current.map(|s| s.to_string());
            match request {
                Request::AllCandidates => list_all_candidates(&known, fetched, false),
                Request::Versions(c) => list_candidate_versions(&c, &current, installed, fetched, false),
                Request::Installed(c) => match list_installed_versions(&c, &current, installed) {
                    Ok(lines) => Screen { stdout: lines, stderr: vec![], exit_code: 0 },
                    Err(e) => Screen { stdout: vec![], stderr: vec![e.message()], exit_code: e.exit_code() },
                },
            }
        }
    }
}

#[test]
fn should_list_all_candidates() {
    let screen = run(&["java", "kotlin"], None, None, InstalledScan::Missing, None, false);
    assert_eq!(screen.exit_code, 0);
    let out = stdout_of(&screen);
    assert!(out.contains("Available Candidates"));
    assert!(out.contains(RULE));
    assert!(out.contains("java"));
    assert!(out.contains("kotlin"));
}

#[test]
fn should_list_installed_versions_for_candidate() {
    let name = "java";
    let versions = strings(&["11.0.15-tem", "17.0.3-tem", "21.0.0-tem"]);
    let offline = offline_mode(&Some("true".to_string()));
    let screen = run(&[name], Some(name), None, InstalledScan::Found(versions), Some("17.0.3-tem"), offline);
    assert_eq!(screen.exit_code, 0);
    let out = stdout_of(&screen);
    assert!(out.contains(&format!("Offline: only showing installed {} versions", name)));
    assert!(out.contains(RULE));
    assert!(out.contains("11.0.15-tem"));
    assert!(out.contains("17.0.3-tem"));
    assert!(out.contains("21.0.0-tem"));
    assert!(out.contains("* - installed"));
    assert!(out.contains("> - currently in use"));
}

#[test]
fn should_mark_current_version_with_arrow_and_others_with_asterisk() {
    let name = "java";
    let current_version = "17.0.3-tem";
    let other_version = "11.0.15-tem";
    let versions = strings(&["11.0.15-tem", "17.0.3-tem"]);
    let offline = offline_mode(&Some("true".to_string()));
    let screen = run(&[name], Some(name), None, InstalledScan::Found(versions), Some(current_version), offline);
    let stdout = stdout_of(&screen);
    assert!(
        stdout.contains(&format!("> {}", current_version)),
        "Current version should be marked with '>'"
    );
    assert!(
        stdout.contains(&format!("* {}", other_version)),
        "Installed (non-current) version should be marked with '*'"
    );
}

#[test]
fn should_error_for_non_existent_candidate() {
    let invalid_name = "invalid";
    let screen = run(&["java"], Some(invalid_name), None, InstalledScan::Missing, None, false);
    assert_eq!(screen.exit_code, 1);
    assert!(stderr_of(&screen).contains(invalid_name));
}

#[test]
fn should_error_for_candidate_not_installed() {
    let candidate_name = "kotlin";
    let offline = offline_mode(&Some("true".to_string()));
    let screen = run(&[candidate_name], Some(candidate_name), None, InstalledScan::Missing, None, offline);
    assert_eq!(screen.exit_code, 1);
    assert!(stderr_of(&screen).contains("is not installed"));
}

#[test]
fn should_handle_candidate_with_no_versions() {
    let candidate_name = "kotlin";
    let offline = offline_mode(&Some("true".to_string()));
    let screen = run(&[candidate_name], Some(candidate_name), None, InstalledScan::Found(vec![]), None, offline);
    assert_eq!(screen.exit_code, 0);
    let out = stdout_of(&screen);
    assert!(out.contains("None installed!"));
    assert!(out.contains("Offline:"));
}

#[test]
fn should_list_installed_versions_with_installed_subcommand() {
    let name = "java";
    let versions = strings(&["11.0.15-tem", "17.0.3-tem", "21.0.0-tem"]);
    let screen = run(&[name], Some(name), Some("installed"), InstalledScan::Found(versions), Some("17.0.3-tem"), false);
    assert_eq!(screen.exit_code, 0);
    let out = stdout_of(&screen);
    assert!(out.contains(&format!("Offline: only showing installed {} versions", name)));
    assert!(out.contains("11.0.15-tem"));
    assert!(out.contains("17.0.3-tem"));
    assert!(out.contains("21.0.0-tem"));
}

#[test]
fn should_error_for_invalid_subcommand() {
    let name = "java";
    let invalid_subcommand = "invalid";
    let screen = run(&[name], Some(name), Some(invalid_subcommand), InstalledScan::Missing, None, false);
    assert_eq!(screen.exit_code, 1);
    let err = stderr_of(&screen);
    assert!(err.contains("Unknown subcommand"));
    assert!(err.contains(invalid_subcommand));
    assert!(matches!(
        plan_request(Some(name.to_string()), Some(invalid_subcommand.to_string()), &strings(&[name])),
        Err(ListError::UnknownSubcommand(_))
    ));
}

#[test]
fn should_respect_offline_mode_env_var() {
    let name = "java";
    let versions = strings(&["11.0.15-tem"]);
    let offline = offline_mode(&Some("true".to_string()));
    assert!(offline);
    assert!(!should_fetch(&Request::Versions(name.to_string()), offline));
    let screen = run(&[name], Some(name), None, InstalledScan::Found(versions), Some("11.0.15-tem"), offline);
    assert_eq!(screen.exit_code, 0);
    assert!(stdout_of(&screen).contains("Offline: only showing installed"));
}
