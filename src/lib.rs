//! An incremental build orchestrator for multi-module native-code projects:
//! workspace dependency ordering, a persistent build cache with staleness
//! detection, and the per-member compilation plan that ties them together.

pub mod error;
pub mod paths;
pub mod text;
pub mod cache;
pub mod config;
pub mod workspace;
pub mod target;
pub mod toolchains;
pub mod compiler;
pub mod platform;
pub mod builder;
pub mod session;
