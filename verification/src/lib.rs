//! A music-library indexer: resolves per-file metadata into track records,
//! groups tracks into albums, and guards the scan lifecycle.

pub mod commands;
pub mod metadata;
pub mod models;
pub mod store;
