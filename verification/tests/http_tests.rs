use std::path::{Path, PathBuf};

use openlogi::http::{
    cached_matches, file_url, index_url, is_retryable, normalize_base, outcome_after_download,
    outcome_before_download, part_path, safe_component_path, sha256_hex, ComponentErrorKind,
    EntryFetchError, FetchErrorKind, FetchOutcome,
};

#[test]
fn safe_component_path_accepts_plain_names() {
    assert_eq!(
        safe_component_path("/cache", "front_core.png", "asset").ok().map(PathBuf::from),
        Some(Path::new("/cache").join("front_core.png"))
    );
    assert_eq!(
        safe_component_path("/cache", "mx_master_4", "depot").ok().map(PathBuf::from),
        Some(Path::new("/cache").join("mx_master_4"))
    );
}

#[test]
fn safe_component_path_rejects_traversal_and_separators() {
    for name in [
        "",
        ".",
        "..",
        "../LaunchAgents/x",
        "nested/file.png",
        "nested\\file.png",
        "/etc/passwd",
    ] {
        assert!(
            safe_component_path("/cache", name, "asset").is_err(),
            "{name:?} should be rejected"
        );
    }
}

#[test]
fn safe_component_path_error_kinds_and_messages() {
    let e = safe_component_path("/cache", "", "asset").err().expect("empty");
    assert_eq!(e.kind, ComponentErrorKind::Empty);
    assert_eq!(e.message(), "asset is empty");
    let e = safe_component_path("/cache", "a/b", "depot").err().expect("separator");
    assert_eq!(e.kind, ComponentErrorKind::Separator);
    assert_eq!(e.message(), "depot must be a single path component: a/b");
    let e = safe_component_path("/cache", "..", "depot").err().expect("dots");
    assert_eq!(e.kind, ComponentErrorKind::NotNormal);
    assert_eq!(e.message(), "depot must be a safe relative path component: ..");
    assert_eq!(safe_component_path("/cache/", "x", "a").ok(), Some("/cache/x".to_string()));
    assert_eq!(safe_component_path("", "x", "a").ok(), Some("x".to_string()));
    assert_eq!(safe_component_path("/c", "...", "a").ok(), Some("/c/...".to_string()));
}

#[test]
fn retries_transient_failures_not_permanent_ones() {
    assert!(is_retryable(&FetchErrorKind::StatusCode(500)));
    assert!(is_retryable(&FetchErrorKind::StatusCode(503)));
    assert!(is_retryable(&FetchErrorKind::StatusCode(408)));
    assert!(is_retryable(&FetchErrorKind::StatusCode(429)));
    assert!(is_retryable(&FetchErrorKind::HostNotFound));
    assert!(is_retryable(&FetchErrorKind::ConnectionFailed));
    assert!(is_retryable(&FetchErrorKind::Io));

    assert!(!is_retryable(&FetchErrorKind::StatusCode(404)));
    assert!(!is_retryable(&FetchErrorKind::StatusCode(400)));
    assert!(!is_retryable(&FetchErrorKind::StatusCode(403)));
    assert!(!is_retryable(&FetchErrorKind::Other));
}

#[test]
fn urls_are_built_from_the_normalised_base() {
    assert_eq!(normalize_base("https://assets.openlogi.org//"), "https://assets.openlogi.org");
    assert_eq!(normalize_base("https://a.b"), "https://a.b");
    assert_eq!(index_url("https://a.b"), "https://a.b/index.json");
    assert_eq!(
        file_url("https://a.b", "/v1/devices/mx_master_4/", "front_core.png"),
        "https://a.b/v1/devices/mx_master_4/front_core.png"
    );
    assert_eq!(part_path("/cache/a.png"), "/cache/a.png.part");
}

#[test]
fn sha256_hex_matches_known_digests() {
    assert_eq!(
        sha256_hex(b""),
        "e3b0c44298fc1c149afbf4c8996fb92427ae41e4649b934ca495991b7852b855"
    );
    assert_eq!(
        sha256_hex(b"abc"),
        "ba7816bf8f01cfea414140de5dae2223b00361a396177a9cb410ff61f20015ad"
    );
}

#[test]
fn cached_matches_is_case_insensitive_and_false_without_a_file() {
    let contents: &[u8] = b"abc";
    let upper = "BA7816BF8F01CFEA414140DE5DAE2223B00361A396177A9CB410FF61F20015AD";
    assert!(cached_matches(Some(contents), upper));
    assert!(cached_matches(Some(contents), &upper.to_ascii_lowercase()));
    assert!(!cached_matches(Some(b"abd".as_slice()), upper));
    assert!(!cached_matches(Some(contents), "00"));
    assert!(!cached_matches(None, upper));
}

#[test]
fn cache_checked_fetch_outcomes() {
    assert_eq!(outcome_before_download(true), Some(FetchOutcome::CacheHit));
    assert_eq!(outcome_before_download(false), None);
    assert_eq!(outcome_after_download(1234, true), Ok(FetchOutcome::Fetched { bytes: 1234 }));
    assert_eq!(outcome_after_download(1234, false), Err(EntryFetchError::ChecksumMismatch));
}
