//! Files on demand: what is known of files, their content in the local cache,
//! what waits to be brought to the cloud, and the file system over it.

pub mod activity;
pub mod conflicts;
pub mod filesystem;
pub mod hydration;
pub mod inodes;
pub mod laws;
pub mod listings;
pub mod metadata;
pub mod probes;
pub mod record;
pub mod recovery;
pub mod sweep;
pub mod upload_queue;
