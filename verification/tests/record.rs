//! Moments, identifiers, lengths and the hand-made audit lines.
use s3_get::path::{parent_of, FilePath};
use s3_get::record::{
    announced_length, ca_bundle_line, format_dt, new_run_id, size_mismatch_line, text_or_empty,
    AuditCompleteRecord, AuditStartRecord, DownloadRecord, ErrorRecord, Timestamp,
};
use s3_get::system::System;
use s3_get::text::{contains, debug_list_text, decimal_text, json_text, octal_text, same_text};

fn moment(secs: i64, nanos: u32) -> String {
    format_dt(Some(&Timestamp::new(secs, nanos))).unwrap()
}

#[test]
fn a_moment_is_written_in_rfc_3339() {
    assert_eq!(moment(1_780_927_200, 0), "2026-06-08T14:00:00Z");
    assert_eq!(moment(0, 0), "1970-01-01T00:00:00Z");
    assert_eq!(moment(0, 500_000_000), "1970-01-01T00:00:00.5Z");
    assert_eq!(moment(-1, 0), "1969-12-31T23:59:59Z");
}

#[test]
fn the_years_from_1_to_9999_can_be_written() {
    assert_eq!(moment(-62_135_596_800, 0), "0001-01-01T00:00:00Z");
    assert_eq!(moment(253_402_300_799, 0), "9999-12-31T23:59:59Z");
    assert_eq!(moment(-62_135_596_801, 0), "");
    assert_eq!(moment(-62_135_596_801, 999_999_999), "");
    assert_eq!(moment(253_402_300_800, 0), "");
    assert_eq!(moment(i64::MIN, 0), "");
    assert_eq!(moment(i64::MAX, 999_999_999), "");
}

#[test]
fn no_moment_is_no_text() {
    assert!(format_dt(None).is_none());
    assert_eq!(text_or_empty(None), "");
    assert_eq!(text_or_empty(Some("x".to_string())), "x");
}

#[test]
fn a_run_identifier_is_a_version_7_uuid() {
    let id = new_run_id();
    let bytes = id.as_str().as_bytes();
    assert_eq!(bytes.len(), 36);
    for (i, b) in bytes.iter().enumerate() {
        if [8, 13, 18, 23].contains(&i) {
            assert_eq!(*b, b'-');
        } else {
            assert!(b.is_ascii_digit() || (b'a'..=b'f').contains(b));
        }
    }
    assert_eq!(bytes[14], b'7');
    assert!(b"89ab".contains(&bytes[19]));
    assert_ne!(id.as_str(), new_run_id().as_str());
}

#[test]
fn the_announced_length_is_the_header() {
    assert_eq!(announced_length(None), None);
    assert_eq!(announced_length(Some(0)), Some(0));
    assert_eq!(announced_length(Some(4096)), Some(4096));
    assert_eq!(announced_length(Some(i64::MAX)), Some(9_223_372_036_854_775_807));
    assert_eq!(announced_length(Some(-1)), Some(18_446_744_073_709_551_615));
    assert_eq!(announced_length(Some(i64::MIN)), Some(9_223_372_036_854_775_808));
}

#[test]
fn a_size_mismatch_is_one_json_line() {
    let id = new_run_id();
    assert_eq!(
        size_mismatch_line(&id, 1_048_576, 1_048_000),
        format!(
            "{{\"event\":\"size_mismatch\",\"run_id\":\"{}\",\
             \"expected\":1048576,\"actual\":1048000}}",
            id.as_str()
        )
    );
}

#[test]
fn a_trusted_bundle_is_one_json_line() {
    let id = new_run_id();
    let path = FilePath::from_text("/etc/pki/tls/certs/internal-ca.pem");
    assert_eq!(
        ca_bundle_line(&id, &path, System::Unix),
        format!(
            "{{\"event\":\"ca_bundle_loaded\",\"run_id\":\"{}\",\
             \"path\":\"/etc/pki/tls/certs/internal-ca.pem\"}}",
            id.as_str()
        )
    );
}

#[test]
fn an_odd_path_keeps_the_line_whole() {
    let id = new_run_id();
    let path = FilePath::from_text("a\"b\\c\nd");
    let line = ca_bundle_line(&id, &path, System::Unix);
    assert!(line.ends_with(",\"path\":\"a\\\"b\\\\c\\nd\"}"));
    let value: serde_json::Value = serde_json::from_str(&line).unwrap();
    assert_eq!(value["path"], "a\"b\\c\nd");
    assert_eq!(value["run_id"], id.as_str());
}

fn sample_download() -> DownloadRecord {
    DownloadRecord {
        status: "success",
        record_type: "download",
        bucket: "telemetry-bucket".to_string(),
        key: "raw/2026/06/08/sensors.csv".to_string(),
        destination: "./sensors.csv".to_string(),
        size: 4096,
        etag: Some("\"d41d8cd98f00b204e9800998ecf8427e\"".to_string()),
        content_type: Some("text/csv".to_string()),
        last_modified: Some("2026-06-08T14:00:00Z".to_string()),
        duration_ms: 347,
    }
}

#[test]
fn a_result_is_one_json_line() {
    assert_eq!(
        sample_download().line(),
        "{\"status\":\"success\",\"type\":\"download\",\"bucket\":\"telemetry-bucket\",\
         \"key\":\"raw/2026/06/08/sensors.csv\",\"destination\":\"./sensors.csv\",\
         \"size\":4096,\"etag\":\"\\\"d41d8cd98f00b204e9800998ecf8427e\\\"\",\
         \"content_type\":\"text/csv\",\"last_modified\":\"2026-06-08T14:00:00Z\",\
         \"duration_ms\":347}"
    );
}

#[test]
fn what_the_store_did_not_say_is_left_out_of_the_result() {
    let mut record = sample_download();
    record.etag = None;
    record.content_type = None;
    record.last_modified = None;
    record.duration_ms = u128::MAX;
    assert_eq!(
        record.line(),
        "{\"status\":\"success\",\"type\":\"download\",\"bucket\":\"telemetry-bucket\",\
         \"key\":\"raw/2026/06/08/sensors.csv\",\"destination\":\"./sensors.csv\",\
         \"size\":4096,\"duration_ms\":340282366920938463463374607431768211455}"
    );
}

#[test]
fn a_failure_is_one_json_line() {
    let record = ErrorRecord {
        status: "error",
        error: "alias 'bogus' not found in config".to_string(),
    };
    assert_eq!(
        record.line(),
        "{\"status\":\"error\",\"error\":\"alias 'bogus' not found in config\"}"
    );
}

#[test]
fn a_start_is_one_json_line() {
    let mut record = AuditStartRecord {
        event: "get_object_start",
        run_id: "0192f3a4-5b6c-7d8e-9f01-234567890abc".to_string(),
        alias: "myminio".to_string(),
        endpoint: "https://minio.example.com".to_string(),
        bucket: "docs-bucket".to_string(),
        key: "reports/2026/Q2/report.pdf".to_string(),
        destination: "./report.pdf".to_string(),
        region: "us-east-1".to_string(),
        path_style: true,
        pq_kx: "X25519MLKEM768",
        ca_bundle: None,
    };
    assert_eq!(
        record.line(),
        "{\"event\":\"get_object_start\",\"run_id\":\"0192f3a4-5b6c-7d8e-9f01-234567890abc\",\
         \"alias\":\"myminio\",\"endpoint\":\"https://minio.example.com\",\
         \"bucket\":\"docs-bucket\",\"key\":\"reports/2026/Q2/report.pdf\",\
         \"destination\":\"./report.pdf\",\"region\":\"us-east-1\",\"path_style\":true,\
         \"pq_kx\":\"X25519MLKEM768\",\"ca_bundle\":null}"
    );
    record.path_style = false;
    record.ca_bundle = Some("/ca.pem".to_string());
    assert!(record.line().ends_with(
        "\"path_style\":false,\"pq_kx\":\"X25519MLKEM768\",\"ca_bundle\":\"/ca.pem\"}"
    ));
}

#[test]
fn a_completion_is_one_json_line() {
    let mut record = AuditCompleteRecord {
        event: "get_object_complete",
        run_id: "0192f3a4-5b6c-7d8e-9f01-234567890abc".to_string(),
        alias: "myminio".to_string(),
        bucket: "docs-bucket".to_string(),
        key: "reports/2026/Q2/report.pdf".to_string(),
        destination: "./report.pdf".to_string(),
        size: 1_048_576,
        etag: Some("\"d41d8cd98f00b204e9800998ecf8427e\"".to_string()),
        duration_ms: 523,
        outcome: "success",
    };
    assert_eq!(
        record.line(),
        "{\"event\":\"get_object_complete\",\
         \"run_id\":\"0192f3a4-5b6c-7d8e-9f01-234567890abc\",\"alias\":\"myminio\",\
         \"bucket\":\"docs-bucket\",\"key\":\"reports/2026/Q2/report.pdf\",\
         \"destination\":\"./report.pdf\",\"size\":1048576,\
         \"etag\":\"\\\"d41d8cd98f00b204e9800998ecf8427e\\\"\",\"duration_ms\":523,\
         \"outcome\":\"success\"}"
    );
    record.etag = None;
    assert!(record.line().ends_with(
        "\"size\":1048576,\"duration_ms\":523,\"outcome\":\"success\"}"
    ));
}

#[test]
fn json_strings_escape_what_they_must() {
    assert_eq!(json_text(""), "\"\"");
    assert_eq!(json_text("plain é 日"), "\"plain é 日\"");
    assert_eq!(json_text("\u{8}\t\n\u{c}\r"), "\"\\b\\t\\n\\f\\r\"");
    assert_eq!(json_text("\u{0}\u{1}\u{1f}"), "\"\\u0000\\u0001\\u001f\"");
    assert_eq!(json_text("\u{7f}/"), "\"\u{7f}/\"");
}

#[test]
fn numerals_have_no_leading_zeros() {
    assert_eq!(decimal_text(0), "0");
    assert_eq!(decimal_text(10), "10");
    assert_eq!(decimal_text(u64::MAX as u128), "18446744073709551615");
    assert_eq!(octal_text(0), "0");
    assert_eq!(octal_text(0o644), "644");
    assert_eq!(octal_text(8), "10");
}

#[test]
fn a_list_is_quoted_and_separated() {
    assert_eq!(debug_list_text(&vec![]), "[]");
    assert_eq!(debug_list_text(&vec!["one".to_string()]), "[\"one\"]");
    assert_eq!(
        debug_list_text(&vec!["a\"b".to_string(), "c\n".to_string(), "".to_string()]),
        "[\"a\\\"b\", \"c\\n\", \"\"]"
    );
}

#[test]
fn texts_are_searched_and_compared() {
    assert!(contains("https://s3.amazonaws.com/x", "amazonaws.com"));
    assert!(contains("aab", "ab"));
    assert!(contains("", ""));
    assert!(!contains("", "a"));
    assert!(!contains("amazonaws.co", "amazonaws.com"));
    assert!(same_text("é", "é"));
    assert!(!same_text("on", "off"));
}

#[test]
fn a_path_that_is_no_text_is_marked() {
    let odd = FilePath::from_bytes(vec![b'a', 0xff, b'b']);
    assert_eq!(odd.show(System::Unix), "a\u{fffd}b");
    assert_eq!(odd.text_or_mark(), "?");
    let plain = FilePath::from_text("größe");
    assert_eq!(plain.show(System::Unix), "größe");
    assert_eq!(plain.text_or_mark(), "größe");
}

#[test]
fn paths_are_joined_with_one_separator() {
    let join = |base: &str, name: &str| {
        FilePath::from_text(base).join(name, System::Unix).show(System::Unix)
    };
    assert_eq!(join("a", "b"), "a/b");
    assert_eq!(join("a/", "b"), "a/b");
    assert_eq!(join("", "b"), "b");
    assert_eq!(join("a", "/b"), "/b");
    assert_eq!(join("a", ""), "a/");
    assert_eq!(join("a\\", "b"), "a\\/b");
    assert!(FilePath::from_text("").is_empty());
    assert!(!FilePath::from_text("a").copy().is_empty());
    assert!(FilePath::from_text("a/").ends_with_slash());
    assert!(!FilePath::from_text("a\\").ends_with_slash());
    assert!(!FilePath::from_text("a").ends_with_slash());
    assert!(!FilePath::from_text("").ends_with_slash());
}

#[test]
fn a_path_lies_in_its_directory() {
    let parent = |path: &str| {
        parent_of(&FilePath::from_text(path), System::Unix).map(|parent| parent.show(System::Unix))
    };
    assert_eq!(parent("a/b/c.txt").as_deref(), Some("a/b"));
    assert_eq!(parent("./c.txt").as_deref(), Some("."));
    assert_eq!(parent("c.txt").as_deref(), Some(""));
    assert_eq!(parent("/c.txt").as_deref(), Some("/"));
    assert_eq!(parent("/"), None);
    assert_eq!(parent(""), None);
    let parent = parent_of(&FilePath::from_text("a\\b/c"), System::Windows).unwrap();
    assert_eq!(parent.show(System::Unix), "a\\b");
    let parent = parent_of(&parent, System::Windows).unwrap();
    assert_eq!(parent.show(System::Unix), "a");
    assert!(parent_of(&FilePath::from_text("C:\\"), System::Windows).is_none());
    let odd = parent_of(&FilePath::from_bytes(vec![0xff, b'/', b'x']), System::Unix).unwrap();
    assert_eq!(odd.as_bytes(), b"\xff");
}

#[test]
fn directories_are_those_of_the_standard_library() {
    // Every text of up to six letters out of these.
    let letters = ['/', '.', 'a'];
    let mut texts = vec![String::new()];
    let mut from = 0;
    for _ in 0..6 {
        let to = texts.len();
        for i in from..to {
            for letter in letters {
                texts.push(format!("{}{}", texts[i], letter));
            }
        }
        from = to;
    }
    if std::path::MAIN_SEPARATOR == '/' {
        for text in texts {
            let expected = std::path::Path::new(&text)
                .parent()
                .map(|parent| parent.to_str().unwrap().to_string());
            let parent = parent_of(&FilePath::from_text(&text), System::Unix);
            assert_eq!(parent.map(|parent| parent.show(System::Unix)), expected, "{}", text);
        }
    }
}

fn windows_join(base: &str, name: &str) -> String {
    FilePath::from_text(base).join(name, System::Windows).show(System::Windows)
}

#[test]
fn windows_puts_a_backslash_between_names() {
    for (base, name, expected) in [
        ("foo", "bar", r"foo\bar"),
        (r"foo\", "bar", r"foo\bar"),
        ("foo/", "bar", "foo/bar"),
        ("", "bar", "bar"),
        ("foo", "", r"foo\"),
        (r"C:\a", "b", r"C:\a\b"),
        (r"C:a\b", "c", r"C:a\b\c"),
        (r"\\server\share\foo", "bar", r"\\server\share\foo\bar"),
        (r"\\server\share", "foo", r"\\server\share\foo"),
        (r"\\.\foo\bar", "baz", r"\\.\foo\bar\baz"),
        (r"\\.\foo", r"..\bar", r"\\.\foo\..\bar"),
    ] {
        assert_eq!(windows_join(base, name), expected);
    }
}

#[test]
fn a_bare_drive_takes_a_name_without_a_separator() {
    assert_eq!(windows_join("C:", r"a\b\c"), r"C:a\b\c");
    assert_eq!(windows_join("C:", r"..\e"), r"C:..\e");
    assert_eq!(windows_join("c:", "x"), "c:x");
    assert_eq!(windows_join("1:", "x"), r"1:\x");
}

#[test]
fn a_name_with_a_root_keeps_the_prefix() {
    assert_eq!(windows_join(r"C:\dir", r"\x"), r"C:\x");
    assert_eq!(windows_join(r"C:\dir", "/x"), "C:/x");
    assert_eq!(windows_join("C:a", r"\x"), r"C:\x");
    assert_eq!(windows_join("dir", r"\x"), r"\x");
    assert_eq!(windows_join(r"\\server\share\dir", r"\x"), r"\\server\share\x");
}

#[test]
fn a_name_with_a_prefix_stands_for_itself() {
    for base in ["a", r"C:\a", r"\\server\share\foo", r"\\?\C:\a\b", r"\\.\foo\bar"] {
        for name in [r"C:baz", r"D:\foo/./", r"\\server\share\x", r"\\?\D:\foo\.\"] {
            assert_eq!(windows_join(base, name), name);
        }
    }
}

#[test]
fn below_a_verbatim_path_a_name_is_written_out() {
    for (base, name, expected) in [
        (r"\\?\foo\bar", "baz", r"\\?\foo\bar\baz"),
        (r"\\?\C:\a\b", r"..\c\d", r"\\?\C:\a\c\d"),
        (r"\\?\", "foo", r"\\?\\foo"),
        (r"\\?\C:", "foo", r"\\?\C:\foo"),
        (r"\\?\C:\bar", "../foo", r"\\?\C:\foo"),
        (r"\\?\C:\bar", "../../foo", r"\\?\C:\foo"),
        (r"\\?\C:\", "../foo", r"\\?\C:\foo"),
        (r"\\?\C:\a", "..", r"\\?\C:\"),
        (r"\\?\A:\x\y", "/foo", r"\\?\A:\foo"),
        (r"\\?\A:", r"..\foo\.", r"\\?\A:\foo"),
        (r"\\?\A:\x\y", r".\foo\.", r"\\?\A:\x\y\foo"),
        (r"\\?\A:\x\y", "", r"\\?\A:\x\y\"),
        (r"\\?\UNC\server\share", "x", r"\\?\UNC\server\share\x"),
    ] {
        assert_eq!(windows_join(base, name), expected);
    }
}

#[test]
fn a_windows_path_lies_in_its_directory() {
    for (path, expected) in [
        (r"a\b\c", Some(r"a\b")),
        (r"a/b\c", Some("a/b")),
        ("a", Some("")),
        (r"\a", Some(r"\")),
        (r"\server", Some(r"\")),
        (r"\\server", Some(r"\")),
        (r"\\server\share", None),
        (r"\\server\share\", None),
        (r"\\server\share\foo", Some(r"\\server\share\")),
        (r"\\server\share\foo\bar", Some(r"\\server\share\foo")),
        ("C:", None),
        (r"C:\", None),
        ("C:.", None),
        ("C:a", Some("C:")),
        (r"C:\f", Some(r"C:\")),
        (r"C:\a\b", Some(r"C:\a")),
        (r"C:a\b\c", Some(r"C:a\b")),
        (r"C:.\a", Some("C:.")),
        (r"C:\a\.\b", Some(r"C:\a")),
        (r"\\?\foo", None),
        (r"\\?\foo\bar", Some(r"\\?\foo\")),
        (r"\\?\C:\", None),
        (r"\\?\C:\foo", Some(r"\\?\C:\")),
        (r"\\?\C:\foo\.", Some(r"\\?\C:\foo")),
        (r"\\?\C:\foo/bar", Some(r"\\?\C:\")),
        (r"\\?\UNC\server\share", None),
        (r"\\?\UNC\server\share\foo", Some(r"\\?\UNC\server\share\")),
        (r"\\?\UNC\server", None),
        (r"\\.\foo", None),
        (r"\\.\foo\bar", Some(r"\\.\foo\")),
        ("//?/foo/bar", Some("//?/foo/")),
    ] {
        let parent = parent_of(&FilePath::from_text(path), System::Windows);
        let shown = parent.map(|parent| parent.show(System::Windows));
        assert_eq!(shown.as_deref(), expected, "{}", path);
    }
}

#[test]
fn an_unpaired_surrogate_is_one_replacement_character_on_windows() {
    let odd = FilePath::from_bytes(vec![b'a', 0xed, 0xa0, 0x80, 0xed, 0xbf, 0xbf, b'b']);
    assert_eq!(odd.show(System::Windows), "a\u{fffd}\u{fffd}b");
    assert_eq!(odd.show(System::Unix), format!("a{}b", "\u{fffd}".repeat(6)));
    assert_eq!(odd.text_or_mark(), "?");
    let korean = FilePath::from_text("\u{d7ff}\u{ac00}");
    assert_eq!(korean.show(System::Windows), "\u{d7ff}\u{ac00}");
}
