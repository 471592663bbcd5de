//! Batch synchronization engine for SBOM (Software Bill of Materials)
//! documents: normalizes third-party documents into an internal entity
//! model and persists them idempotently while tracking per-target
//! success and failure across a batch run.

pub mod auth;
pub mod blobs;
pub mod commands;
pub mod config;
pub mod cyclonedx;
pub mod errmap;
pub mod errors;
pub mod jsonio;
pub mod packages;
pub mod provider;
pub mod sboms;
pub mod snyk;
pub mod store;
pub mod strings;
pub mod tasks;
pub mod xrefs;
