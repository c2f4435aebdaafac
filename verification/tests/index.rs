use portcache::ebuild_parser::Ebuild;
use portcache::manifest_walker::ManifestEntry;
use portcache::repo_db::RepoDB;

fn entry(file: &str, size: u32) -> ManifestEntry {
    ManifestEntry {
        origin: "/repo/c/p/Manifest".to_string(),
        file: file.to_string(),
        size,
        blake2b: None,
        sha512: None,
    }
}

#[test]
fn fresh_index_knows_no_uris() {
    let db = RepoDB::new_in_memory().unwrap();
    assert_eq!(db.get_src_uri("foo.tar.gz").unwrap(), Vec::<String>::new());
}

#[test]
fn recorded_uris_come_back() {
    let mut db = RepoDB::new_in_memory().unwrap();
    db.insert_manifest_entry(&entry("foo.tar.gz", 10)).unwrap();
    db.insert_src_uri("foo.tar.gz", "http://a/foo.tar.gz").unwrap();
    db.insert_src_uri("foo.tar.gz", "http://b/foo.tar.gz").unwrap();
    let mut uris = db.get_src_uri("foo.tar.gz").unwrap();
    uris.sort();
    assert_eq!(uris, vec!["http://a/foo.tar.gz".to_string(), "http://b/foo.tar.gz".to_string()]);
    assert!(db.get_src_uri("other.tar.gz").unwrap().is_empty());
}

#[test]
fn duplicate_uri_is_ignored() {
    // recording the same uri twice leaves exactly one row
    let mut db = RepoDB::new_in_memory().unwrap();
    db.insert_manifest_entry(&entry("foo.tar.gz", 10)).unwrap();
    db.insert_src_uri("foo.tar.gz", "http://a/foo.tar.gz").unwrap();
    db.insert_src_uri("foo.tar.gz", "http://a/foo.tar.gz").unwrap();
    assert_eq!(db.get_src_uri("foo.tar.gz").unwrap().len(), 1);
}

#[test]
fn uri_without_manifest_row_is_rejected() {
    let mut db = RepoDB::new_in_memory().unwrap();
    assert!(db.insert_src_uri("unknown.tar.gz", "http://a/x").is_err());
}

#[test]
fn manifest_upsert_replaces_the_row() {
    let mut db = RepoDB::new_in_memory().unwrap();
    db.insert_manifest_entry(&entry("foo.tar.gz", 10)).unwrap();
    db.insert_manifest_entry(&entry("foo.tar.gz", 20)).unwrap();
    // the uri still attaches to the single row
    db.insert_src_uri("foo.tar.gz", "http://a/foo.tar.gz").unwrap();
    assert_eq!(db.get_src_uri("foo.tar.gz").unwrap().len(), 1);
}

#[test]
fn deleting_a_manifest_row_cascades_to_its_uris() {
    let mut db = RepoDB::new_in_memory().unwrap();
    db.insert_manifest_entry(&entry("foo.tar.gz", 10)).unwrap();
    db.insert_manifest_entry(&entry("bar.tar.gz", 20)).unwrap();
    db.insert_src_uri("foo.tar.gz", "http://a/foo.tar.gz").unwrap();
    db.insert_src_uri("foo.tar.gz", "http://b/foo.tar.gz").unwrap();
    db.insert_src_uri("bar.tar.gz", "http://a/bar.tar.gz").unwrap();
    db.delete_manifest_entry("foo.tar.gz").unwrap();
    assert!(db.get_src_uri("foo.tar.gz").unwrap().is_empty());
    // unrelated rows survive the cascade
    assert_eq!(db.get_src_uri("bar.tar.gz").unwrap().len(), 1);
}

#[test]
fn checksums_are_stored_nullable() {
    let mut db = RepoDB::new_in_memory().unwrap();
    let e = ManifestEntry {
        origin: "/repo/c/p/Manifest".to_string(),
        file: "foo.tar.gz".to_string(),
        size: 1,
        blake2b: Some("aa".to_string()),
        sha512: None,
    };
    db.insert_manifest_entry(&e).unwrap();
}

#[test]
fn ebuild_json_decodes_to_uri_pairs() {
    let json = "{\"foo.tar.gz\": [\"http://a/foo.tar.gz\", \"http://b/foo.tar.gz\"], \"bar.zip\": []}";
    let e = Ebuild::parse(json).unwrap();
    let pairs = e.src_uri();
    assert_eq!(pairs.len(), 2);
    // keys decode each once; values keep their order
    let foo = pairs.iter().find(|p| p.0 == "foo.tar.gz").unwrap();
    assert_eq!(foo.1, vec!["http://a/foo.tar.gz".to_string(), "http://b/foo.tar.gz".to_string()]);
    let bar = pairs.iter().find(|p| p.0 == "bar.zip").unwrap();
    assert!(bar.1.is_empty());
}

#[test]
fn ebuild_rejects_malformed_json() {
    assert!(Ebuild::parse("not json").is_err());
    assert!(Ebuild::parse("{\"f\": \"not a list\"}").is_err());
    assert!(Ebuild::parse("[1, 2]").is_err());
}
