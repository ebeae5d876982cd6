//! Key/value text metadata stored in the uncompressed text chunks of PNG files.

pub mod codec;
pub mod config;
pub mod edit;
pub mod error;
pub mod report;
pub mod tags;
