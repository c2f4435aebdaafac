use portcache::blob_storage::BlobStorage;
use portcache::blob_storage::Decision;
use portcache::blob_storage::FetchJobs;
use portcache::config::Config;
use portcache::config::FetcherConfig;
use portcache::config::RepoConfig;
use portcache::config::ServerConfig;
use portcache::config::StorageConfig;

fn storage_config(mirrors: Vec<String>) -> Config {
    Config {
        storage: StorageConfig { location: "/srv/cache".to_string() },
        fetcher: FetcherConfig { mirrors },
        server: ServerConfig { address: "0.0.0.0".to_string(), port: 8000 },
        repo: RepoConfig { sync_interval: 30, repos: vec![] },
    }
}

#[test]
fn storage_construction_requires_mirrors() {
    assert!(BlobStorage::new(&storage_config(vec![])).is_err());
    assert!(BlobStorage::new(&storage_config(vec!["http://m1".to_string()])).is_ok());
}

#[test]
fn blob_location_is_the_content_addressed_path() {
    let s = BlobStorage::new(&storage_config(vec!["http://m1".to_string()])).unwrap();
    assert_eq!(
        s.blob_location("foo.tar.gz"),
        "/srv/cache/distfiles/f2/foo.tar.gz"
    );
}

#[test]
fn cached_file_is_a_hit_without_any_fetch() {
    // the file sits at its blob path and nothing is in flight: the
    // requester is told to serve it directly
    let mut jobs = FetchJobs::new();
    assert_eq!(jobs.arrive("foo.tar.gz", true), Decision::Hit);
}

#[test]
fn missing_file_elects_exactly_one_leader() {
    // fifty requesters arrive for the same missing file: the first leads
    // the download, the other forty-nine wait on its notifier
    let mut jobs = FetchJobs::new();
    assert_eq!(jobs.arrive("foo.tar.gz", false), Decision::Lead);
    for _ in 0..49 {
        assert_eq!(jobs.arrive("foo.tar.gz", false), Decision::Wait);
    }
    // a request for a different file is coalesced separately
    assert_eq!(jobs.arrive("bar.tar.gz", false), Decision::Lead);
}

#[test]
fn success_wakes_everyone_and_the_next_request_hits() {
    let mut jobs = FetchJobs::new();
    assert_eq!(jobs.arrive("foo.tar.gz", false), Decision::Lead);
    assert_eq!(jobs.arrive("foo.tar.gz", false), Decision::Wait);
    jobs.on_success("foo.tar.gz");
    // back-to-back request after the download: a cache hit, no new fetch
    assert_eq!(jobs.arrive("foo.tar.gz", true), Decision::Hit);
}

#[test]
fn failure_hands_leadership_to_one_waiter_at_a_time() {
    // three requesters, every source unreachable: the leader fails and
    // elects one waiter, that waiter fails and elects the next, and the
    // last failure drops the job
    let mut jobs = FetchJobs::new();
    assert_eq!(jobs.arrive("foo.tar.gz", false), Decision::Lead);
    assert_eq!(jobs.arrive("foo.tar.gz", false), Decision::Wait);
    assert_eq!(jobs.arrive("foo.tar.gz", false), Decision::Wait);
    assert!(jobs.on_failure("foo.tar.gz"));
    assert!(jobs.on_failure("foo.tar.gz"));
    assert!(!jobs.on_failure("foo.tar.gz"));
    // the job is gone: a new requester starts a fresh download
    assert_eq!(jobs.arrive("foo.tar.gz", false), Decision::Lead);
}

#[test]
fn waiting_does_not_disturb_other_files() {
    let mut jobs = FetchJobs::new();
    assert_eq!(jobs.arrive("a.tar.gz", false), Decision::Lead);
    assert_eq!(jobs.arrive("b.tar.gz", false), Decision::Lead);
    assert_eq!(jobs.arrive("a.tar.gz", false), Decision::Wait);
    jobs.on_success("a.tar.gz");
    // the other download is still in flight
    assert_eq!(jobs.arrive("b.tar.gz", false), Decision::Wait);
    assert_eq!(jobs.arrive("a.tar.gz", true), Decision::Hit);
}
