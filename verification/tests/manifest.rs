use portcache::manifest_walker::ManifestEntry;
use portcache::manifest_walker::ManifestWalker;

#[test]
fn parse_full_line() {
    let line = "DIST foo-1.0.tar.gz 12345 BLAKE2B abcdef0123 SHA512 9876fedcba";
    let e = ManifestEntry::parse("/repo/cat/pkg/Manifest", line).unwrap();
    assert_eq!(e.origin, "/repo/cat/pkg/Manifest");
    assert_eq!(e.file, "foo-1.0.tar.gz");
    assert_eq!(e.size, 12345);
    assert_eq!(e.blake2b.as_deref(), Some("abcdef0123"));
    assert_eq!(e.sha512.as_deref(), Some("9876fedcba"));
}

#[test]
fn parse_minimal_line() {
    let e = ManifestEntry::parse("m", "DIST foo.tar.gz 7").unwrap();
    assert_eq!(e.file, "foo.tar.gz");
    assert_eq!(e.size, 7);
    assert_eq!(e.blake2b, None);
    assert_eq!(e.sha512, None);
}

#[test]
fn parse_keywords_in_any_position() {
    let e = ManifestEntry::parse("m", "SHA512 s BLAKE2B b DIST f 1").unwrap();
    assert_eq!(e.file, "f");
    assert_eq!(e.size, 1);
    assert_eq!(e.blake2b.as_deref(), Some("b"));
    assert_eq!(e.sha512.as_deref(), Some("s"));
}

#[test]
fn parse_missing_name_fails() {
    assert!(ManifestEntry::parse("m", "DIST").is_err());
}

#[test]
fn parse_missing_size_fails() {
    assert!(ManifestEntry::parse("m", "DIST foo.tar.gz").is_err());
}

#[test]
fn parse_size_not_a_number_fails() {
    assert!(ManifestEntry::parse("m", "DIST foo.tar.gz twelve").is_err());
    assert!(ManifestEntry::parse("m", "DIST foo.tar.gz -1").is_err());
    assert!(ManifestEntry::parse("m", "DIST foo.tar.gz 1.5").is_err());
}

#[test]
fn parse_size_bounds() {
    let e = ManifestEntry::parse("m", "DIST f 4294967295").unwrap();
    assert_eq!(e.size, u32::MAX);
    assert!(ManifestEntry::parse("m", "DIST f 4294967296").is_err());
    let e = ManifestEntry::parse("m", "DIST f +42").unwrap();
    assert_eq!(e.size, 42);
}

#[test]
fn parse_no_keywords_fails() {
    assert!(ManifestEntry::parse("m", "").is_err());
    assert!(ManifestEntry::parse("m", "EBUILD foo-1.0.ebuild 777").is_err());
}

#[test]
fn parse_checksum_missing_argument_fails() {
    assert!(ManifestEntry::parse("m", "DIST f 1 BLAKE2B").is_err());
    assert!(ManifestEntry::parse("m", "DIST f 1 SHA512").is_err());
}

#[test]
fn parse_later_dist_wins() {
    let e = ManifestEntry::parse("m", "DIST a 1 DIST b 2").unwrap();
    assert_eq!(e.file, "b");
    assert_eq!(e.size, 2);
}

#[test]
fn parse_splits_on_repeated_whitespace() {
    let e = ManifestEntry::parse("m", "  DIST\t\tfoo.tar.gz   9  ").unwrap();
    assert_eq!(e.file, "foo.tar.gz");
    assert_eq!(e.size, 9);
    // any Unicode whitespace separates tokens
    let e = ManifestEntry::parse("m", "DIST\u{a0}foo.tar.gz\u{2003}9").unwrap();
    assert_eq!(e.file, "foo.tar.gz");
    assert_eq!(e.size, 9);
}

#[test]
fn walker_requires_layout_conf() {
    assert!(ManifestWalker::new("/repo".to_string(), false).is_err());
    assert!(ManifestWalker::new("/repo".to_string(), true).is_ok());
}

#[test]
fn walker_layout_conf_path() {
    assert_eq!(
        portcache::manifest_walker::tree_layout_conf_path("/repo"),
        "/repo/metadata/layout.conf"
    );
}

#[test]
fn walker_manifest_candidates() {
    assert!(portcache::manifest_walker::is_manifest_candidate(3, "Manifest"));
    assert!(!portcache::manifest_walker::is_manifest_candidate(2, "Manifest"));
    assert!(!portcache::manifest_walker::is_manifest_candidate(4, "Manifest"));
    assert!(!portcache::manifest_walker::is_manifest_candidate(3, "Manifest.gz"));
}

#[test]
fn walker_skips_bad_lines_and_continues() {
    // a line missing DIST name or size is skipped, but parsing continues
    // with the rest of the file
    let walker = ManifestWalker::new("/repo".to_string(), true).unwrap();
    let files = vec![
        (
            "/repo/c/p/Manifest".to_string(),
            vec![
                "DIST good-1.tar.gz 10".to_string(),
                "DIST missing-size".to_string(),
                "garbage line".to_string(),
                "DIST good-2.tar.gz 20 SHA512 aa".to_string(),
            ],
        ),
        (
            "/repo/c/q/Manifest".to_string(),
            vec!["DIST other.tar.gz 30".to_string()],
        ),
    ];
    let entries = walker.entries(&files);
    assert_eq!(entries.len(), 3);
    assert_eq!(entries[0].file, "good-1.tar.gz");
    assert_eq!(entries[0].size, 10);
    assert_eq!(entries[0].origin, "/repo/c/p/Manifest");
    assert_eq!(entries[1].file, "good-2.tar.gz");
    assert_eq!(entries[1].sha512.as_deref(), Some("aa"));
    assert_eq!(entries[2].file, "other.tar.gz");
    assert_eq!(entries[2].origin, "/repo/c/q/Manifest");
}
