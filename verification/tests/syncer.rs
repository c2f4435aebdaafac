use portcache::config::Config;
use portcache::config::FetcherConfig;
use portcache::config::RepoConfig;
use portcache::config::ServerConfig;
use portcache::config::StorageConfig;
use portcache::manifest_walker::ManifestEntry;
use portcache::repo_db::RepoDB;
use portcache::repo_syncer::RepoSyncer;
use portcache::repo_syncer::TickPhase;
use portcache::repo_syncer::last_segment;
use portcache::repo_syncer::remote_tracking_ref;
use portcache::repo_syncer::sync_outcome;

fn syncer_config() -> Config {
    Config {
        storage: StorageConfig { location: "/srv/portcache".to_string() },
        fetcher: FetcherConfig { mirrors: vec!["http://m1".to_string()] },
        server: ServerConfig { address: "127.0.0.1".to_string(), port: 8080 },
        repo: RepoConfig {
            sync_interval: 2,
            repos: vec!["https://example.org/repos/gentoo.git".to_string()],
        },
    }
}

#[test]
fn syncer_construction() {
    let s = RepoSyncer::new(&syncer_config());
    assert_eq!(s.sync_interval_secs, 120);
    assert_eq!(s.storage_root, "/srv/portcache/repos");
    assert_eq!(s.phase, TickPhase::Idle);
}

#[test]
fn clone_path_uses_the_last_url_segment() {
    let s = RepoSyncer::new(&syncer_config());
    assert_eq!(
        s.clone_path("https://example.org/repos/gentoo.git"),
        "/srv/portcache/repos/gentoo.git"
    );
}

#[test]
fn last_segment_of_urls_and_refs() {
    assert_eq!(last_segment("https://example.org/a/b"), "b");
    assert_eq!(last_segment("no-slash"), "no-slash");
    assert_eq!(last_segment("trailing/"), "");
    assert_eq!(last_segment(""), "");
}

#[test]
fn tracking_ref_for_default_branch() {
    assert_eq!(remote_tracking_ref("refs/heads/main"), "refs/remotes/origin/main");
    assert_eq!(remote_tracking_ref("master"), "refs/remotes/origin/master");
}

#[test]
fn sync_outcome_reports_failed_repos() {
    assert!(sync_outcome(&vec![]).is_ok());
    let err = sync_outcome(&vec!["/r/a".to_string(), "/r/b".to_string()]).unwrap_err();
    assert_eq!(err, "Failed repos: /r/a, /r/b");
}

#[test]
fn a_tick_runs_its_three_phases_in_order() {
    // sync precedes the Manifest walk precedes the recipe pass, and the
    // cycle ends back between ticks
    let mut s = RepoSyncer::new(&syncer_config());
    let mut db = RepoDB::new_in_memory().unwrap();

    assert_eq!(s.phase, TickPhase::Idle);
    s.note_synced();
    assert_eq!(s.phase, TickPhase::Synced);

    let entries = vec![
        ManifestEntry {
            origin: "/repo/c/p/Manifest".to_string(),
            file: "foo.tar.gz".to_string(),
            size: 10,
            blake2b: None,
            sha512: None,
        },
        ManifestEntry {
            origin: "/repo/c/q/Manifest".to_string(),
            file: "bar.tar.gz".to_string(),
            size: 20,
            blake2b: None,
            sha512: None,
        },
    ];
    let changed = s.parse_manifests(&mut db, &entries);
    assert_eq!(s.phase, TickPhase::Parsed);
    assert_eq!(changed, vec!["/repo/c/p/Manifest".to_string(), "/repo/c/q/Manifest".to_string()]);

    let pairs = vec![
        (
            "foo.tar.gz".to_string(),
            vec!["http://a/foo.tar.gz".to_string(), "http://a/foo.tar.gz".to_string()],
        ),
        ("unknown.tar.gz".to_string(), vec!["http://a/unknown".to_string()]),
    ];
    s.parse_ebuilds(&mut db, &pairs);
    assert_eq!(s.phase, TickPhase::Idle);

    // the duplicate uri collapsed to one row; the pair without a manifest
    // row was skipped and did not abort the pass
    assert_eq!(db.get_src_uri("foo.tar.gz").unwrap().len(), 1);
    assert!(db.get_src_uri("unknown.tar.gz").unwrap().is_empty());

    // the next tick may start now
    s.note_synced();
    assert_eq!(s.phase, TickPhase::Synced);
}
