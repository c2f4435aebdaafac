use portcache::config::Config;
use portcache::config::FetcherConfig;
use portcache::config::RepoConfig;
use portcache::config::ServerConfig;
use portcache::config::StorageConfig;
use portcache::fetcher::Fetcher;
use portcache::fetcher::Layout;
use portcache::fetcher::StorePlan;
use portcache::fetcher::layout_url;
use portcache::fetcher::mirror_file_url;
use portcache::fetcher::parse_layout;
use portcache::fetcher::plan_store;
use portcache::fetcher::sanitize_mirror_url;
use portcache::repo_db::RepoDB;

fn config_with_mirrors(mirrors: Vec<String>) -> Config {
    Config {
        storage: StorageConfig { location: "/var/cache/portcache".to_string() },
        fetcher: FetcherConfig { mirrors },
        server: ServerConfig { address: "127.0.0.1".to_string(), port: 8080 },
        repo: RepoConfig { sync_interval: 60, repos: vec![] },
    }
}

#[test]
fn empty_mirror_list_is_a_constructor_error() {
    let config = config_with_mirrors(vec![]);
    assert!(Fetcher::new(&config).is_err());
}

#[test]
fn mirror_urls_are_sanitized() {
    assert_eq!(sanitize_mirror_url("http://m1/"), "http://m1");
    assert_eq!(sanitize_mirror_url("http://m1///"), "http://m1");
    assert_eq!(sanitize_mirror_url("http://m1"), "http://m1");
    let config = config_with_mirrors(vec!["http://m1/".to_string(), "http://m2".to_string()]);
    let f = Fetcher::new(&config).unwrap();
    assert_eq!(f.mirrors, vec!["http://m1".to_string(), "http://m2".to_string()]);
}

#[test]
fn round_robin_cursor_wraps_and_persists() {
    let config = config_with_mirrors(vec!["http://m1".to_string(), "http://m2".to_string()]);
    let mut f = Fetcher::new(&config).unwrap();
    assert_eq!(f.select_mirror(), "http://m1");
    assert_eq!(f.select_mirror(), "http://m2");
    // the cursor advanced past both mirrors and wrapped: the next fetch,
    // for whatever file, starts at the first mirror again
    assert_eq!(f.select_mirror(), "http://m1");
}

#[test]
fn layout_is_recognized_only_character_for_character() {
    assert!(matches!(
        parse_layout("[structure]\n0=filename-hash BLAKE2B 8\n"),
        Some(Layout::FileNameHashBlake2B)
    ));
    assert!(parse_layout("[structure]\n0=filename-hash BLAKE2B 8").is_none());
    assert!(parse_layout("[structure]\n0=filename-hash BLAKE2B 8\n\n").is_none());
    assert!(parse_layout("[structure]\r\n0=filename-hash BLAKE2B 8\r\n").is_none());
    assert!(parse_layout("").is_none());
}

#[test]
fn urls_follow_the_digest_layout() {
    assert_eq!(layout_url("http://m1"), "http://m1/distfiles/layout.conf");
    assert_eq!(
        mirror_file_url("http://m1", "foo.tar.gz"),
        "http://m1/distfiles/f2/foo.tar.gz"
    );
}

#[test]
fn session_hands_out_each_mirror_once_then_falls_back() {
    let config = config_with_mirrors(vec!["http://m1".to_string(), "http://m2".to_string()]);
    let mut f = Fetcher::new(&config).unwrap();
    let mut s = f.begin_fetch("foo.tar.gz");

    // mirror phase: one attempt per configured mirror, round robin
    assert_eq!(f.next_mirror_attempt(&mut s), Some("http://m1".to_string()));
    assert_eq!(f.next_mirror_attempt(&mut s), Some("http://m2".to_string()));
    assert_eq!(f.next_mirror_attempt(&mut s), None);

    // uri fallback: the recorded uris in index order, then give up
    let db = RepoDB::new_in_memory().unwrap();
    let uris = db.get_src_uri_or_empty("foo.tar.gz");
    assert!(uris.is_empty());
    s.begin_uri_phase(vec!["http://a/f".to_string(), "http://b/f".to_string()]);
    assert_eq!(s.next_uri_attempt(), Some("http://a/f".to_string()));
    assert_eq!(s.next_uri_attempt(), Some("http://b/f".to_string()));
    assert_eq!(s.next_uri_attempt(), None);
    s.mark_failed();
}

#[test]
fn session_failover_takes_the_second_mirror() {
    // m1 answers with an error, m2 delivers: the session hands out m1,
    // then m2, and the download succeeds on the second attempt
    let config = config_with_mirrors(vec!["http://m1".to_string(), "http://m2".to_string()]);
    let mut f = Fetcher::new(&config).unwrap();
    let mut s = f.begin_fetch("foo.tar.gz");
    assert_eq!(f.next_mirror_attempt(&mut s), Some("http://m1".to_string()));
    assert_eq!(f.next_mirror_attempt(&mut s), Some("http://m2".to_string()));
    s.mark_fetched();
    // the next session starts past m2, so m1 is tried first again
    let mut s2 = f.begin_fetch("bar.tar.gz");
    assert_eq!(f.next_mirror_attempt(&mut s2), Some("http://m1".to_string()));
}

#[test]
fn store_plan_prefers_existing_file() {
    assert_eq!(plan_store(true, true), StorePlan::AlreadyComplete);
    assert_eq!(plan_store(true, false), StorePlan::AlreadyComplete);
    assert_eq!(plan_store(false, false), StorePlan::CreateDirAndWrite);
    assert_eq!(plan_store(false, true), StorePlan::Write);
}
