//! Verified core of a recurring extract-transform-load pipeline: newest-file
//! selection with timestamp-aware ordering, write-stability detection,
//! tabular-report reshaping, remote lookup enrichment, and a resilient
//! upload policy with retry and backoff.

pub mod config;
pub mod file_utils;
pub mod lookup;
pub mod text;
pub mod timestamp;
pub mod transform;
pub mod upload;

