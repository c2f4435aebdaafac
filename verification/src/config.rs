//! The typed configuration the components consume.  Reading the
//! configuration file and deserializing it happens outside the library;
//! here the values arrive as plain data.

use vstd::prelude::*;

verus! {

/// Where blobs, repo clones and the index database live.
pub struct StorageConfig {
    /// storage root
    pub location: String,
}

/// Upstream mirror pool.
pub struct FetcherConfig {
    /// list of mirror urls, tried in round-robin order
    pub mirrors: Vec<String>,
}

/// Address the front-end binds to.
pub struct ServerConfig {
    /// listen address
    pub address: String,
    /// listen port
    pub port: u16,
}

/// Package-tree repositories to keep in sync.
pub struct RepoConfig {
    /// interval in which to sync repos, in minutes
    pub sync_interval: u64,
    /// list of repo urls to clone
    pub repos: Vec<String>,
}

/// The whole configuration.
pub struct Config {
    pub storage: StorageConfig,
    pub fetcher: FetcherConfig,
    pub server: ServerConfig,
    pub repo: RepoConfig,
}

} // verus!
