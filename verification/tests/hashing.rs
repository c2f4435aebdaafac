use portcache::frontend::layout_conf;
use portcache::frontend::validate_request;
use portcache::utils::filename_hash_dir_blake2b;

#[test]
fn digest_dir_known_values() {
    // first hex pair of BLAKE2b-512, cross-checked with an independent
    // implementation
    assert_eq!(filename_hash_dir_blake2b("foo.tar.gz"), "f2");
    assert_eq!(filename_hash_dir_blake2b("bar-1.0.tar.xz"), "52");
    assert_eq!(filename_hash_dir_blake2b(""), "78");
    assert_eq!(filename_hash_dir_blake2b("a"), "33");
}

#[test]
fn digest_dir_is_two_lowercase_hex_chars() {
    let names = ["foo.tar.gz", "x", "weird name with spaces", "\u{e9}\u{1f600}.tar"];
    for name in names {
        let d = filename_hash_dir_blake2b(name);
        assert_eq!(d.len(), 2);
        for c in d.chars() {
            assert!(c.is_ascii_hexdigit());
            assert!(!c.is_ascii_uppercase());
        }
    }
}

#[test]
fn digest_dir_differs_from_unrelated_name() {
    // the wrapper really hashes its argument: two different names land in
    // different directories here
    assert_ne!(filename_hash_dir_blake2b("foo.tar.gz"), filename_hash_dir_blake2b("a"));
}

#[test]
fn layout_conf_is_canonical() {
    assert_eq!(layout_conf(), "[structure]\n0=filename-hash BLAKE2B 8\n");
}

#[test]
fn request_validation_accepts_matching_digest() {
    assert!(validate_request("f2", "foo.tar.gz"));
}

#[test]
fn request_validation_rejects_mismatch() {
    // digest_dir("foo.tar.gz") != "zz": answered with a client error, no
    // fetch attempted
    assert!(!validate_request("zz", "foo.tar.gz"));
    assert!(!validate_request("F2", "foo.tar.gz"));
    assert!(!validate_request("f", "foo.tar.gz"));
    assert!(!validate_request("f2a", "foo.tar.gz"));
    assert!(!validate_request("", "foo.tar.gz"));
}
