use fand::security::{allowlist, is_allowed, scrub_env};
use fand::smc::edr_detect::{detect_suspected_agent, edr_agent_names};
use std::time::{Duration, Instant};

#[test]
fn allowlist_contains_sudo_vars() {
    let list = allowlist();
    assert!(list.contains(&"SUDO_USER"));
    assert!(list.contains(&"SUDO_UID"));
    assert!(list.contains(&"PATH"));
    assert!(list.contains(&"HOME"));
}

#[test]
fn allowlist_excludes_dyld_family() {
    let list = allowlist();
    assert!(!list.iter().any(|s| s.starts_with("DYLD_")));
    assert!(!list.iter().any(|s| s.starts_with("Malloc")));
    assert!(!list.contains(&"TMPDIR"));
    assert!(!list.contains(&"LANG"));
    assert!(!list.contains(&"RUST_BACKTRACE"));
}

#[test]
fn scrub_removes_dyld_insert_libraries() {
    let list = allowlist();
    let name = "DYLD_INSERT_LIBRARIES";
    assert!(!list.iter().any(|allowed| *allowed == name));
    assert_eq!(scrub_env(&vec![name.to_string()]), vec![0]);
}

#[test]
fn scrub_preserves_fand_safe_min_rpm() {
    let list = allowlist();
    assert!(list.contains(&"FAND_SAFE_MIN_RPM"));
}

#[test]
fn scrubbing_names_the_places_to_clear() {
    let names: Vec<String> = ["PATH", "DYLD_LIBRARY_PATH", "HOME", "LANG"]
        .iter()
        .map(|s| s.to_string())
        .collect();
    assert_eq!(scrub_env(&names), vec![1, 3]);
    assert!(is_allowed("PATH"));
    assert!(!is_allowed("path"));
}

#[test]
fn allowlist_contains_common_agents() {
    let names = edr_agent_names();
    assert!(names.contains(&"falcon-sensor"));
    assert!(names.contains(&"CrowdStrike"));
    assert!(names.contains(&"SentinelAgent"));
    assert!(names.contains(&"JamfProtect"));
}

#[test]
fn detect_returns_none_in_clean_test_env() {
    assert_eq!(detect_suspected_agent(None), None);
    assert_eq!(
        detect_suspected_agent(Some("COMM\n/sbin/launchd\n/usr/bin/login\n")),
        None
    );
}

#[test]
fn detect_completes_within_timeout_budget() {
    let listing = "/usr/libexec/some_daemon\n".repeat(2000);
    let start = Instant::now();
    let _ = detect_suspected_agent(Some(&listing));
    let elapsed = start.elapsed();
    assert!(
        elapsed < Duration::from_millis(2000),
        "detect_suspected_agent took {elapsed:?} — expected <2s"
    );
}

#[test]
fn case_insensitive_match() {
    let matched = detect_suspected_agent(Some("sOmEtHiNg\nCROWDSTRIKE-falcon\nmore"));
    assert!(matched.is_some(), "case-insensitive match should fire");
    assert_eq!(matched, Some("CrowdStrike".to_string()));
}
