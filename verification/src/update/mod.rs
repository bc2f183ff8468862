//! Update checking: manifests, version selection, URLs and file decisions.

pub mod digest;
pub mod download;
pub mod install;
pub mod listing;
pub mod modules;
pub mod plan;
