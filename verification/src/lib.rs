//! Core of a caching mirror for source-distribution archives.
//!
//! Filenames are content-addressed into two-character digest directories,
//! missing files are fetched from upstream mirrors in round-robin order with
//! a fallback through an index of source URIs, and concurrent requests for
//! the same file are coalesced into a single download.

pub mod blob_storage;
pub mod config;
pub mod ebuild_parser;
pub mod fetcher;
pub mod frontend;
pub mod manifest_walker;
pub mod repo_db;
pub mod repo_syncer;
pub mod strutil;
pub mod utils;
