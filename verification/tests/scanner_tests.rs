use cache_grep::engine::ConcurrencyEngine;
use cache_grep::errors::ScanError;
use cache_grep::guard::{select_backend, BackendChoice};
use cache_grep::matcher::ExactMatcher;
use cache_grep::narinfo::parse_narinfo;
use cache_grep::paths::hash_from_path;
use cache_grep::pipeline::{metadata_from_response, metadata_request};

#[test]
fn hash_is_text_between_root_and_hyphen() {
    let h = hash_from_path("/nix/store/abcd1234-name-1.0").unwrap();
    assert_eq!(h, "abcd1234");
}

#[test]
fn hash_fails_without_root_prefix() {
    assert!(matches!(hash_from_path("/var/store/abcd1234-name"), Err(ScanError::PathParse)));
    assert!(matches!(hash_from_path("abcd1234-name"), Err(ScanError::PathParse)));
}

#[test]
fn hash_fails_without_hyphen() {
    assert!(matches!(hash_from_path("/nix/store/abcd1234name"), Err(ScanError::PathParse)));
}

#[test]
fn hash_of_empty_basename_fails() {
    assert!(matches!(hash_from_path("/nix/store/"), Err(ScanError::PathParse)));
}

#[test]
fn metadata_key_appends_suffix() {
    let key = metadata_request("/nix/store/abcd1234-name-1.0").unwrap();
    assert_eq!(key, "abcd1234.narinfo");
}

#[test]
fn narinfo_round_trips_all_three_fields() {
    let text = "StorePath: /nix/store/x\nURL: nar/x.nar.xz\nCompression: xz\nNarSize: 1234\n";
    let info = parse_narinfo(text).unwrap();
    assert_eq!(info.url, "nar/x.nar.xz");
    assert_eq!(info.compression, "xz");
    assert_eq!(info.size, 1234);
}

#[test]
fn narinfo_missing_url_fails() {
    let text = "Compression: xz\nNarSize: 1234\n";
    assert!(matches!(parse_narinfo(text), Err(ScanError::MetadataMissingUrl)));
}

#[test]
fn narinfo_missing_compression_fails() {
    let text = "URL: nar/x.nar.xz\nNarSize: 1234\n";
    assert!(matches!(parse_narinfo(text), Err(ScanError::MetadataMissingCompression)));
}

#[test]
fn narinfo_missing_size_fails() {
    let text = "URL: nar/x.nar.xz\nCompression: xz\n";
    assert!(matches!(parse_narinfo(text), Err(ScanError::MetadataMissingSize)));
}

#[test]
fn narinfo_non_numeric_size_fails() {
    let text = "URL: nar/x.nar.xz\nCompression: xz\nNarSize: 12x3\n";
    assert!(matches!(parse_narinfo(text), Err(ScanError::MetadataInvalidSize)));
}

#[test]
fn narinfo_oversized_size_fails() {
    let text = "URL: u\nCompression: xz\nNarSize: 99999999999999999999999999\n";
    assert!(matches!(parse_narinfo(text), Err(ScanError::MetadataInvalidSize)));
}

#[test]
fn narinfo_later_line_wins_and_crlf_is_accepted() {
    let text = "URL: first\r\nURL: second\r\nCompression: xz\r\nNarSize: 7\r\n";
    let info = parse_narinfo(text).unwrap();
    assert_eq!(info.url, "second");
    assert_eq!(info.size, 7);
}

#[test]
fn narinfo_last_line_needs_no_terminator() {
    let text = "URL: u\nCompression: xz\nNarSize: 9";
    let info = parse_narinfo(text).unwrap();
    assert_eq!(info.size, 9);
}

#[test]
fn matcher_reports_single_tag_when_needle_occurs() {
    let m = ExactMatcher::new(b"secret".to_vec());
    let tags = m.matches(b"xxx secret yyy");
    assert_eq!(tags, vec!["needle".to_string()]);
}

#[test]
fn matcher_reports_nothing_without_occurrence() {
    let m = ExactMatcher::new(b"secret".to_vec());
    assert!(m.matches(b"nothing to see here").is_empty());
    assert!(m.matches(b"secre").is_empty());
    assert!(m.matches(b"").is_empty());
}

#[test]
fn matcher_finds_needle_at_either_end() {
    let m = ExactMatcher::new(b"ab".to_vec());
    assert_eq!(m.find(b"abxx"), Some(0));
    assert_eq!(m.find(b"xxab"), Some(2));
    assert_eq!(m.find(b"aab"), Some(1));
}

#[test]
fn matcher_handles_self_overlapping_needles() {
    let m = ExactMatcher::new(b"aaab".to_vec());
    let mut hay = vec![b'a'; 200000];
    assert_eq!(m.find(&hay), None);
    hay.push(b'b');
    assert_eq!(m.find(&hay), Some(200000 - 3));
    let m2 = ExactMatcher::new(b"abab".to_vec());
    assert_eq!(m2.find(b"aabacabab"), Some(5));
}

#[test]
fn matcher_empty_needle_matches_everything() {
    let m = ExactMatcher::new(Vec::new());
    assert_eq!(m.find(b"anything"), Some(0));
    assert_eq!(m.matches(b"").len(), 1);
}

#[test]
fn small_batch_selects_cdn_whatever_the_region() {
    assert_eq!(select_backend(49, false, &None), BackendChoice::Cdn);
    assert_eq!(select_backend(49, false, &Some("eu-west-1".to_string())), BackendChoice::Cdn);
    assert_eq!(select_backend(49, true, &Some("us-east-1".to_string())), BackendChoice::Cdn);
    assert_eq!(select_backend(0, false, &None), BackendChoice::Cdn);
}

#[test]
fn large_batch_from_foreign_region_aborts() {
    assert_eq!(
        select_backend(50, false, &Some("eu-west-1".to_string())),
        BackendChoice::Aborted
    );
    assert_eq!(select_backend(50, false, &None), BackendChoice::Aborted);
}

#[test]
fn large_batch_with_override_selects_object_store() {
    assert_eq!(
        select_backend(50, true, &Some("eu-west-1".to_string())),
        BackendChoice::ObjectStore
    );
    assert_eq!(select_backend(50, true, &None), BackendChoice::ObjectStore);
}

#[test]
fn large_batch_in_expected_region_selects_object_store() {
    assert_eq!(
        select_backend(50, false, &Some("us-east-1".to_string())),
        BackendChoice::ObjectStore
    );
}

#[test]
fn engine_never_launches_past_the_limit() {
    let mut e = ConcurrencyEngine::new(2, 5);
    assert!(e.try_launch());
    assert!(e.try_launch());
    assert!(!e.try_launch());
    assert!(e.complete_one().is_none());
    assert!(e.try_launch());
    assert!(!e.try_launch());
}

#[test]
fn engine_stops_launching_when_targets_run_out() {
    let mut e = ConcurrencyEngine::new(10, 1);
    assert!(e.try_launch());
    assert!(!e.try_launch());
    assert!(!e.all_done());
    e.complete_one();
    assert!(e.all_done());
}

#[test]
fn engine_emits_progress_every_thousand_completions() {
    let mut e = ConcurrencyEngine::new(4, 2000);
    let mut reports = Vec::new();
    for _ in 0..2000 {
        assert!(e.try_launch());
        if let Some(p) = e.complete_one() {
            reports.push(p);
        }
    }
    assert!(e.all_done());
    assert_eq!(reports.len(), 2);
    assert_eq!(reports[0].done, 1000);
    assert_eq!(reports[0].total, 2000);
    assert_eq!(reports[0].percent, 50);
    assert_eq!(reports[1].done, 2000);
    assert_eq!(reports[1].percent, 100);
}

#[test]
fn metadata_not_found_is_no_error() {
    let r = metadata_from_response(403, &b"whatever".to_vec()).unwrap();
    assert!(r.is_none());
}

#[test]
fn metadata_unexpected_status_is_an_error() {
    assert!(matches!(
        metadata_from_response(500, &Vec::new()),
        Err(ScanError::MetadataStatus(500))
    ));
    assert!(matches!(
        metadata_from_response(301, &Vec::new()),
        Err(ScanError::MetadataStatus(301))
    ));
}

#[test]
fn metadata_body_must_be_text() {
    let body = vec![0xff, 0xfe, 0x55];
    assert!(matches!(metadata_from_response(200, &body), Err(ScanError::MetadataNotText)));
}

#[test]
fn metadata_success_parses_the_body() {
    let body = b"URL: nar/y.nar.xz\nCompression: xz\nNarSize: 42\n".to_vec();
    let info = metadata_from_response(200, &body).unwrap().unwrap();
    assert_eq!(info.url, "nar/y.nar.xz");
    assert_eq!(info.compression, "xz");
    assert_eq!(info.size, 42);
}

#[test]
fn error_message_names_the_unsupported_algorithm() {
    let e = ScanError::UnsupportedCompression("zstd".to_string());
    assert!(e.message().contains("zstd"));
}
