//! Verified core of a cross-build bootstrap pipeline: a package manifest
//! with a lossless text codec, build-profile generation, download-name and
//! progress bookkeeping, checksum verification, environment provisioning
//! plans, and the acquisition orchestrator that drives fetch + verify over
//! a manifest with soft-failure accumulation.

pub mod build_meta;
pub mod codec;
pub mod config;
pub mod downloader;
pub mod instruction;
pub mod integrity;
pub mod orchestrator;
pub mod prepare;
pub mod profile;
pub mod strutil;
