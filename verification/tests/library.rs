use sdkman_list::candidates::{is_white_space_char, parse_candidates, trim_white_space};
use sdkman_list::command::{offline_mode, plan_request, same_text, should_fetch, validate_candidate, Request};
use sdkman_list::listing::{
    fallback_notice, list_all_candidates, list_candidate_versions, list_installed_versions,
    local_candidates_listing, FetchKind, InstalledScan, ListError,
};
use sdkman_list::order::{sort_descending, str_less};
use sdkman_list::remote::{
    candidates_list_url, client_failure_message, http_failure_message, is_success_status,
    platform_id, read_failure_message, status_failure_message, user_agent, versions_list_url,
    versions_query, HttpFailure,
};
use sdkman_list::text::{Line, Span, Style};
use sdkman_list::versions::{
    build_versions_csv, get_current_version, installed_version_names, CurrentEntry, DirEntryInfo,
};

const RULE: &str = "--------------------------------------------------------------------------------";

fn strings(items: &[&str]) -> Vec<String> {
    items.iter().map(|s| s.to_string()).collect()
}

fn texts(lines: &[Line]) -> Vec<String> {
    lines.iter().map(|l| l.text()).collect()
}

fn entry(name: Option<&str>, is_dir: bool) -> DirEntryInfo {
    DirEntryInfo { name: name.map(|s| s.to_string()), is_dir }
}

#[test]
fn sort_is_descending_by_characters() {
    let sorted = sort_descending(strings(&["11.0.15-tem", "21.0.0-tem", "17.0.3-tem", "8.0.392-tem"]));
    assert_eq!(sorted, strings(&["8.0.392-tem", "21.0.0-tem", "17.0.3-tem", "11.0.15-tem"]));
}

#[test]
fn sort_matches_std_sort_then_reverse() {
    let input = strings(&["b", "a", "ab", "", "B", "é", "z", "a"]);
    let mut expected = input.clone();
    expected.sort();
    expected.reverse();
    assert_eq!(sort_descending(input), expected);
}

#[test]
fn sort_result_does_not_depend_on_input_order() {
    let a = sort_descending(strings(&["1.7.22", "1.9.0", "2.0.0"]));
    let b = sort_descending(strings(&["2.0.0", "1.7.22", "1.9.0"]));
    assert_eq!(a, b);
}

#[test]
fn str_less_orders_prefix_first() {
    assert!(str_less("abc", "abd"));
    assert!(str_less("ab", "abc"));
    assert!(!str_less("abc", "ab"));
    assert!(!str_less("abc", "abc"));
    assert!(str_less("", "a"));
    assert!(str_less("Z", "a"));
}

#[test]
fn version_names_skip_current_files_and_unreadable() {
    let entries = vec![
        entry(Some("17.0.3-tem"), true),
        entry(Some("current"), true),
        entry(Some("notes.txt"), false),
        entry(None, true),
        entry(Some("11.0.15-tem"), true),
    ];
    assert_eq!(installed_version_names(&entries), strings(&["17.0.3-tem", "11.0.15-tem"]));
}

#[test]
fn current_is_never_listed() {
    let entries = vec![entry(Some("current"), true), entry(Some("current"), false)];
    assert!(installed_version_names(&entries).is_empty());
}

#[test]
fn versions_csv_joins_with_commas() {
    assert_eq!(build_versions_csv(&Some(strings(&["11.0.15-tem", "17.0.3-tem"]))), "11.0.15-tem,17.0.3-tem");
    assert_eq!(build_versions_csv(&Some(strings(&["1.7.22"]))), "1.7.22");
    assert_eq!(build_versions_csv(&Some(vec![])), "");
    assert_eq!(build_versions_csv(&None), "");
}

#[test]
fn versions_csv_splits_back_into_versions() {
    let names = strings(&["11.0.15-tem", "17.0.3-tem", "21.0.0-tem"]);
    let csv = build_versions_csv(&Some(names.clone()));
    assert_eq!(parse_candidates(&csv), names);
}

#[test]
fn current_version_comes_from_link_target() {
    assert_eq!(get_current_version(CurrentEntry::Link(Some("17.0.3-tem".to_string()))), Some("17.0.3-tem".to_string()));
    assert_eq!(get_current_version(CurrentEntry::Link(None)), None);
    assert_eq!(get_current_version(CurrentEntry::Absent), None);
    assert_eq!(get_current_version(CurrentEntry::Directory), Some("current".to_string()));
    assert_eq!(get_current_version(CurrentEntry::Other), None);
}

#[test]
fn installed_listing_exact_lines() {
    let lines = list_installed_versions(
        "java",
        &Some("17.0.3-tem".to_string()),
        InstalledScan::Found(strings(&["11.0.15-tem", "21.0.0-tem", "17.0.3-tem"])),
    )
    .unwrap();
    assert_eq!(
        texts(&lines),
        strings(&[
            RULE,
            "Offline: only showing installed java versions",
            RULE,
            " * 21.0.0-tem",
            " > 17.0.3-tem",
            " * 11.0.15-tem",
            RULE,
            "* - installed                                                                   ",
            "> - currently in use                                                            ",
            RULE,
        ])
    );
    assert_eq!(lines[1].spans[0].style, Style::Yellow);
    assert_eq!(lines[4].spans[0].style, Style::Plain);
}

#[test]
fn installed_listing_without_versions() {
    let lines = list_installed_versions("kotlin", &None, InstalledScan::Found(vec![])).unwrap();
    assert_eq!(texts(&lines)[3], "   None installed!");
    assert_eq!(lines[3].spans[0].style, Style::Yellow);
    assert_eq!(lines.len(), 8);
}

#[test]
fn installed_listing_errors() {
    assert_eq!(
        list_installed_versions("kotlin", &None, InstalledScan::Missing),
        Err(ListError::NotInstalled("kotlin".to_string()))
    );
    assert_eq!(
        list_installed_versions("kotlin", &None, InstalledScan::Unreadable),
        Err(ListError::ReadFailed("kotlin".to_string()))
    );
}

#[test]
fn error_messages() {
    let l = ListError::NotInstalled("kotlin".to_string()).message();
    assert_eq!(l.text(), "kotlin is not installed.");
    assert_eq!(l.spans[0], Span { text: "kotlin".to_string(), style: Style::Bold });
    assert_eq!(ListError::ReadFailed("java".to_string()).message().text(), "Failed to read java versions.");
    assert_eq!(ListError::InvalidCandidate("foo".to_string()).message().text(), "foo is not a valid candidate.");
    let u = ListError::UnknownSubcommand("bogus".to_string()).message();
    assert_eq!(u.text(), "Unknown subcommand: 'bogus'. Valid subcommands: installed");
    assert_eq!(u.spans[3].style, Style::Italic);
    assert_eq!(ListError::UnknownSubcommand("x".to_string()).exit_code(), 1);
}

#[test]
fn local_listing_exact_lines() {
    let lines = local_candidates_listing(&strings(&["java", "kotlin"]));
    assert_eq!(
        texts(&lines),
        strings(&[
            RULE,
            "Available Candidates (local cache)",
            RULE,
            "",
            "   java",
            "   kotlin",
            "",
            RULE,
            "Use sdk list <candidate> to see versions for a specific candidate",
            "Note: For full candidate details with descriptions, use the online version",
            RULE,
        ])
    );
    assert_eq!(lines[8].spans[1].style, Style::Italic);
    assert_eq!(lines[9].spans[0].style, Style::Dimmed);
}

#[test]
fn fetched_response_is_shown_as_is() {
    let s = list_all_candidates(&strings(&["java"]), Some(Ok("ONLINE LIST".to_string())), false);
    assert_eq!(texts(&s.stdout), strings(&["ONLINE LIST"]));
    assert!(s.stderr.is_empty());
    let v = list_candidate_versions("java", &None, InstalledScan::Missing, Some(Ok("VERSIONS".to_string())), true);
    assert_eq!(texts(&v.stdout), strings(&["VERSIONS"]));
    assert_eq!(v.exit_code, 0);
}

#[test]
fn failed_fetch_falls_back_with_notice() {
    let s = list_all_candidates(&strings(&["java"]), Some(Err("boom".to_string())), true);
    assert_eq!(
        texts(&s.stderr),
        strings(&["Unable to fetch online candidates, showing local cache only.", "Debug: boom"])
    );
    assert!(texts(&s.stdout).contains(&"   java".to_string()));
    let v = list_candidate_versions("java", &None, InstalledScan::Missing, Some(Err("boom".to_string())), false);
    assert_eq!(
        texts(&v.stderr),
        strings(&["Unable to fetch online versions, showing installed only.", "java is not installed."])
    );
    assert!(v.stdout.is_empty());
    assert_eq!(v.exit_code, 1);
}

#[test]
fn fallback_notice_debug_line() {
    let n = fallback_notice(FetchKind::Versions, "timeout", true);
    assert_eq!(n.len(), 2);
    assert_eq!(n[1].spans[0], Span { text: "Debug".to_string(), style: Style::Dimmed });
    assert_eq!(n[1].text(), "Debug: timeout");
    assert_eq!(fallback_notice(FetchKind::Candidates, "x", false).len(), 1);
}

#[test]
fn request_planning() {
    let known = strings(&["java", "kotlin"]);
    assert_eq!(plan_request(None, None, &known), Ok(Request::AllCandidates));
    assert_eq!(plan_request(Some("java".into()), None, &known), Ok(Request::Versions("java".into())));
    assert_eq!(
        plan_request(Some("kotlin".into()), Some("installed".into()), &known),
        Ok(Request::Installed("kotlin".into()))
    );
    assert_eq!(
        plan_request(Some("scala".into()), Some("installed".into()), &known),
        Err(ListError::InvalidCandidate("scala".into()))
    );
    assert_eq!(
        plan_request(Some("java".into()), Some("all".into()), &known),
        Err(ListError::UnknownSubcommand("all".into()))
    );
    assert_eq!(validate_candidate(&known, "kotlin"), Ok("kotlin".to_string()));
}

#[test]
fn fetching_decision() {
    assert!(should_fetch(&Request::AllCandidates, false));
    assert!(!should_fetch(&Request::AllCandidates, true));
    assert!(should_fetch(&Request::Versions("java".into()), false));
    assert!(!should_fetch(&Request::Installed("java".into()), false));
    assert!(offline_mode(&Some("true".into())));
    assert!(!offline_mode(&Some("false".into())));
    assert!(!offline_mode(&Some("TRUE".into())));
    assert!(!offline_mode(&None));
    assert!(same_text("abc", "abc"));
    assert!(!same_text("abc", "abd"));
}

#[test]
fn urls_and_query() {
    assert_eq!(candidates_list_url(), "https://api.sdkman.io/2/candidates/list");
    assert_eq!(
        versions_list_url("java", "linuxx64"),
        "https://api.sdkman.io/2/candidates/java/linuxx64/versions/list"
    );
    let q = versions_query(&Some("17.0.3-tem".into()), "11.0.15-tem,17.0.3-tem");
    assert_eq!(q.len(), 2);
    assert_eq!((q[0].key.as_str(), q[0].value.as_str()), ("current", "17.0.3-tem"));
    assert_eq!((q[1].key.as_str(), q[1].value.as_str()), ("installed", "11.0.15-tem,17.0.3-tem"));
    let q = versions_query(&None, "");
    assert_eq!(q[0].value, "");
    assert_eq!(user_agent("0.1.0"), "sdkman-cli-native/0.1.0");
}

#[test]
fn http_messages() {
    assert_eq!(http_failure_message(&HttpFailure::Timeout), "Request timed out after 10 seconds");
    assert_eq!(
        http_failure_message(&HttpFailure::Connect),
        "Failed to connect to API - check your internet connection"
    );
    assert_eq!(http_failure_message(&HttpFailure::Other("dns".into())), "Network error: dns");
    assert_eq!(client_failure_message("tls"), "Failed to create HTTP client: tls");
    assert_eq!(status_failure_message("404 Not Found"), "API request failed with status: 404 Not Found");
    assert_eq!(read_failure_message("eof"), "Failed to read response: eof");
}

#[test]
fn success_statuses() {
    assert!(is_success_status(200));
    assert!(is_success_status(299));
    assert!(!is_success_status(199));
    assert!(!is_success_status(300));
    assert!(!is_success_status(404));
}

#[test]
fn platforms() {
    assert_eq!(platform_id("linux", "x86_64"), "linuxx64");
    assert_eq!(platform_id("linux", "aarch64"), "linuxarm64");
    assert_eq!(platform_id("macos", "aarch64"), "darwinarm64");
    assert_eq!(platform_id("windows", "x86_64"), "windowsx64");
    assert_eq!(platform_id("freebsd", "x86_64"), "exotic");
}

#[test]
fn candidates_file_parsing() {
    assert_eq!(parse_candidates("java,kotlin,scala\n"), strings(&["java", "kotlin", "scala"]));
    assert_eq!(parse_candidates(" java , kotlin "), strings(&["java", "kotlin"]));
    assert_eq!(parse_candidates("java"), strings(&["java"]));
    assert_eq!(parse_candidates(""), strings(&[""]));
    assert_eq!(parse_candidates("a,,b"), strings(&["a", "", "b"]));
}

#[test]
fn trimming_white_space() {
    assert_eq!(trim_white_space("\t x y \u{3000}\n"), "x y");
    assert_eq!(trim_white_space("   "), "");
    assert_eq!(trim_white_space(""), "");
    for s in ["  a ", "\u{a0}b\u{2003}", "\r\nc d\u{85}"] {
        assert_eq!(trim_white_space(s), s.trim());
    }
    for c in ['\t', '\n', ' ', '\u{85}', '\u{a0}', '\u{1680}', '\u{2000}', '\u{200a}', '\u{2028}', '\u{2029}', '\u{202f}', '\u{205f}', '\u{3000}'] {
        assert!(is_white_space_char(c));
        assert!(c.is_whitespace());
    }
    assert!(!is_white_space_char('x'));
    assert!(!is_white_space_char('\u{200b}'));
}
