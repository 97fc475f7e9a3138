//! Sources, file names and destinations.
use s3_get::error::GetError;
use s3_get::path::FilePath;
use s3_get::source::{check_source, filename_from_key, parse_source, resolve_destination};
use s3_get::system::System;

fn parts(source: &str) -> (String, String, String) {
    match parse_source(source) {
        Ok(parts) => parts,
        Err(error) => panic!("{}: {}", source, error.message(System::Unix)),
    }
}

fn complaint(source: &str) -> String {
    match parse_source(source) {
        Ok(_) => panic!("{} was accepted", source),
        Err(error) => error.message(System::Unix),
    }
}

fn resolved(dest: Option<&str>, key: &str, is_dir: bool) -> String {
    let path = dest.map(FilePath::from_text);
    match resolve_destination(path.as_ref(), key, is_dir, System::Unix) {
        Ok(path) => path.show(System::Unix),
        Err(error) => panic!("{}: {}", key, error.message(System::Unix)),
    }
}

#[test]
fn a_source_has_three_parts() {
    let (alias, bucket, key) = parts("alias/bucket/key");
    assert_eq!(alias, "alias");
    assert_eq!(bucket, "bucket");
    assert_eq!(key, "key");
}

#[test]
fn the_key_keeps_its_slashes() {
    let (alias, bucket, key) = parts("myminio/docs-bucket/reports/2026/Q2/report.pdf");
    assert_eq!(alias, "myminio");
    assert_eq!(bucket, "docs-bucket");
    assert_eq!(key, "reports/2026/Q2/report.pdf");
    assert_eq!(parts("a/b//c/").2, "/c/");
}

#[test]
fn leading_slashes_are_ignored() {
    for source in ["a/b/c", "/a/b/c", "///a/b/c"] {
        let (alias, bucket, key) = parts(source);
        assert_eq!((alias.as_str(), bucket.as_str(), key.as_str()), ("a", "b", "c"));
    }
}

#[test]
fn parts_may_be_any_text() {
    let (alias, bucket, key) = parts("größe/бакет/日本/語.txt");
    assert_eq!(alias, "größe");
    assert_eq!(bucket, "бакет");
    assert_eq!(key, "日本/語.txt");
}

#[test]
fn a_source_without_alias_is_refused() {
    for source in ["", "/", "////"] {
        assert!(matches!(parse_source(source), Err(GetError::MissingAlias)));
        assert_eq!(complaint(source), "source must start with an alias name");
    }
}

#[test]
fn a_source_without_bucket_is_refused() {
    for source in ["alias", "alias/", "alias//key", "/alias"] {
        assert!(matches!(parse_source(source), Err(GetError::MissingBucket)));
        assert_eq!(
            complaint(source),
            "source must include a bucket name (alias/bucket/key)"
        );
    }
}

#[test]
fn a_source_without_key_is_refused() {
    for source in ["alias/bucket", "alias/bucket/", "//alias/bucket/"] {
        assert!(matches!(parse_source(source), Err(GetError::MissingKey)));
        assert_eq!(
            complaint(source),
            "source must include an object key (alias/bucket/key)"
        );
    }
}

#[test]
fn the_length_of_a_source_is_limited_in_characters() {
    assert!(check_source(&"x".repeat(2048)).is_ok());
    assert!(check_source(&"é".repeat(2048)).is_ok());
    let long = check_source(&"x".repeat(2049));
    assert!(matches!(long, Err(GetError::SourceTooLong)));
    assert_eq!(
        long.err().unwrap().message(System::Unix),
        "source string exceeds maximum allowed length (2048 chars)"
    );
}

#[test]
fn the_file_name_is_behind_the_last_slash() {
    assert_eq!(filename_from_key("logs/2026/06/08/app.log").ok(), Some("app.log"));
    assert_eq!(filename_from_key("app.log").ok(), Some("app.log"));
    assert_eq!(filename_from_key("/ü").ok(), Some("ü"));
}

#[test]
fn a_key_that_ends_in_a_slash_has_no_file_name() {
    for key in ["", "/", "logs/", "a/b//"] {
        let name = filename_from_key(key);
        assert!(matches!(name, Err(GetError::NoFilename)));
        assert_eq!(
            name.err().unwrap().message(System::Unix),
            "cannot derive filename from object key"
        );
    }
}

#[test]
fn destinations_resolve_as_documented() {
    let key = "path/to/file.csv";
    assert_eq!(resolved(None, key, false), "./file.csv");
    assert_eq!(resolved(Some("./renamed.csv"), key, false), "./renamed.csv");
    assert_eq!(resolved(Some("./downloads/"), key, false), "./downloads/file.csv");
    assert_eq!(resolved(Some("/tmp/data/"), key, false), "/tmp/data/file.csv");
}

#[test]
fn a_directory_takes_the_file_name() {
    assert_eq!(resolved(Some("/tmp"), "a/b.txt", true), "/tmp/b.txt");
    assert_eq!(resolved(Some("/tmp"), "a/b.txt", false), "/tmp");
    assert_eq!(resolved(Some("/"), "a/b.txt", false), "/b.txt");
    assert_eq!(resolved(Some(""), "a/b.txt", true), "b.txt");
    assert_eq!(resolved(Some(""), "a/b.txt", false), "");
}

#[test]
fn a_backslash_at_the_end_means_no_directory() {
    assert_eq!(resolved(Some("out\\"), "a/f.txt", false), "out\\");
    assert_eq!(resolved(Some("out\\"), "a/f.txt", true), "out\\/f.txt");
}

#[test]
fn the_separator_is_the_system_s() {
    for (dir, expected) in [
        ("data", "data\\f.txt"),
        ("data\\", "data\\f.txt"),
        ("data/", "data/f.txt"),
    ] {
        let dir = FilePath::from_text(dir);
        let path = resolve_destination(Some(&dir), "a/f.txt", true, System::Windows).ok().unwrap();
        assert_eq!(path.show(System::Unix), expected);
    }
    let path = resolve_destination(None, "a/f.txt", false, System::Windows).ok().unwrap();
    assert_eq!(path.show(System::Unix), "./f.txt");
}

#[test]
fn no_destination_is_resolved_without_a_file_name() {
    for dest in [None, Some("/tmp/x"), Some("/tmp/")] {
        let path = dest.map(FilePath::from_text);
        let r = resolve_destination(path.as_ref(), "folder/", false, System::Unix);
        assert!(matches!(r, Err(GetError::NoFilename)));
    }
}
