use std::io::Read;

use cache_grep::archive::{decode_archive, EntryKind};
use cache_grep::errors::ScanError;
use cache_grep::matcher::ExactMatcher;
use cache_grep::pipeline::{archive_outcome, empty_outcome, metadata_from_response, metadata_request};

/// One length-prefixed, zero-padded string of the archive wire format.
fn nar_str(payload: &[u8]) -> Vec<u8> {
    let mut out = (payload.len() as u64).to_le_bytes().to_vec();
    out.extend_from_slice(payload);
    while out.len() % 8 != 0 {
        out.push(0);
    }
    out
}

/// A directory archive holding one regular file.
fn nar_with_one_file(name: &str, contents: &[u8]) -> Vec<u8> {
    let mut nar = Vec::new();
    for tok in ["nix-archive-1", "(", "type", "directory", "entry", "(", "name"] {
        nar.extend_from_slice(&nar_str(tok.as_bytes()));
    }
    nar.extend_from_slice(&nar_str(name.as_bytes()));
    for tok in ["node", "(", "type", "regular", "contents"] {
        nar.extend_from_slice(&nar_str(tok.as_bytes()));
    }
    nar.extend_from_slice(&nar_str(contents));
    for tok in [")", ")", ")"] {
        nar.extend_from_slice(&nar_str(tok.as_bytes()));
    }
    nar
}

fn xz_compress(data: &[u8]) -> Vec<u8> {
    let mut enc = xz2::read::XzEncoder::new(data, 6);
    let mut out = Vec::new();
    enc.read_to_end(&mut out).unwrap();
    out
}

fn narinfo_body(compression: &str, size: usize) -> Vec<u8> {
    format!("URL: nar/e2e.nar.xz\nCompression: {}\nNarSize: {}\n", compression, size).into_bytes()
}

#[test]
fn absent_metadata_yields_empty_outcome_without_error() {
    let target = "/nix/store/aaaa1111-first-1.0".to_string();
    let key = metadata_request(&target).unwrap();
    assert_eq!(key, "aaaa1111.narinfo");
    let resolved = metadata_from_response(403, &b"denied".to_vec()).unwrap();
    assert!(resolved.is_none());
    let outcome = empty_outcome(&target);
    assert_eq!(outcome.path, target);
    assert!(outcome.files_matched.is_empty());
    assert!(outcome.files_matched.to_pairs().is_empty());
}

#[test]
fn matching_file_is_reported_under_its_member_path() {
    let target = "/nix/store/bbbb2222-second-2.0".to_string();
    assert_eq!(metadata_request(&target).unwrap(), "bbbb2222.narinfo");

    let nar = nar_with_one_file("hello.txt", b"stuff around the secret token here");
    let compressed = xz_compress(&nar);
    let body = narinfo_body("xz", nar.len());
    let info = metadata_from_response(200, &body).unwrap().unwrap();
    assert_eq!(info.compression, "xz");

    let entries = decode_archive(&info, compressed).unwrap();
    assert_eq!(entries.len(), 2);
    assert!(matches!(entries[0].kind, EntryKind::Directory));
    assert_eq!(entries[0].path, "");
    assert!(matches!(entries[1].kind, EntryKind::File));
    assert_eq!(entries[1].path, "hello.txt");
    assert_eq!(entries[1].data, b"stuff around the secret token here".to_vec());

    let matcher = ExactMatcher::new(b"secret".to_vec());
    let outcome = archive_outcome(&target, &matcher, &entries);
    assert_eq!(outcome.path, target);
    assert!(!outcome.files_matched.is_empty());
    let pairs = outcome.files_matched.to_pairs();
    assert_eq!(pairs, vec![("hello.txt".to_string(), "needle".to_string())]);
}

#[test]
fn non_matching_archive_yields_empty_outcome() {
    let target = "/nix/store/cccc3333-third-3.0".to_string();
    let nar = nar_with_one_file("readme", b"plain contents");
    let compressed = xz_compress(&nar);
    let info = metadata_from_response(200, &narinfo_body("xz", nar.len())).unwrap().unwrap();
    let entries = decode_archive(&info, compressed).unwrap();
    let matcher = ExactMatcher::new(b"secret".to_vec());
    let outcome = archive_outcome(&target, &matcher, &entries);
    assert!(outcome.files_matched.is_empty());
}

#[test]
fn corrupt_archive_is_a_decode_error() {
    let info = metadata_from_response(200, &narinfo_body("xz", 64)).unwrap().unwrap();
    let garbage = xz_compress(b"not a nar at all");
    assert!(matches!(decode_archive(&info, garbage), Err(ScanError::ArchiveParse)));
    let not_xz = b"also not compressed".to_vec();
    assert!(matches!(decode_archive(&info, not_xz), Err(ScanError::ArchiveDecompress)));
}

#[test]
fn oversized_length_field_is_a_parse_error() {
    // A frame whose length field claims far more bytes than follow must
    // be rejected as malformed, not trip the decoder.
    let mut nar = nar_str(b"nix-archive-1");
    nar.extend_from_slice(&[0xFF; 8]);
    let info = metadata_from_response(200, &narinfo_body("xz", nar.len())).unwrap().unwrap();
    assert!(matches!(decode_archive(&info, xz_compress(&nar)), Err(ScanError::ArchiveParse)));
}

#[test]
fn truncated_frame_is_a_parse_error() {
    let mut nar = nar_str(b"nix-archive-1");
    nar.extend_from_slice(&3u64.to_le_bytes());
    nar.extend_from_slice(b"abc");
    let info = metadata_from_response(200, &narinfo_body("xz", nar.len())).unwrap().unwrap();
    assert!(matches!(decode_archive(&info, xz_compress(&nar)), Err(ScanError::ArchiveParse)));
}

#[test]
fn unsupported_compression_fails_only_its_own_target() {
    // Three targets: absent metadata, a matching archive, and one whose
    // descriptor names an algorithm the decoder does not support. The
    // failure names the algorithm and leaves the other outcomes intact.
    let absent = metadata_from_response(403, &Vec::new()).unwrap();
    assert!(absent.is_none());

    let nar = nar_with_one_file("libx.so", b"the secret lives here");
    let good_info = metadata_from_response(200, &narinfo_body("xz", nar.len())).unwrap().unwrap();
    let good_entries = decode_archive(&good_info, xz_compress(&nar)).unwrap();

    let bad_info = metadata_from_response(200, &narinfo_body("zstd", 10)).unwrap().unwrap();
    let err = decode_archive(&bad_info, xz_compress(&nar)).unwrap_err();
    match &err {
        ScanError::UnsupportedCompression(name) => assert_eq!(name, "zstd"),
        _ => panic!("wrong error kind"),
    }
    assert!(err.message().contains("zstd"));

    let matcher = ExactMatcher::new(b"secret".to_vec());
    let outcome = archive_outcome(&"/nix/store/dddd4444-ok-1.0".to_string(), &matcher, &good_entries);
    let pairs = outcome.files_matched.to_pairs();
    assert_eq!(pairs, vec![("libx.so".to_string(), "needle".to_string())]);
}
