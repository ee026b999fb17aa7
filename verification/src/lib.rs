//! A verified domain model for a catalog of mobile apps, their versioned
//! releases, uploaded binary assets and distribution platforms.
//!
//! The [`store::Store`] type holds the catalog state and offers the
//! create / fetch / update / delete / query operations together with the
//! update-availability check; every operation carries a contract that pins
//! down the resulting state. Hashing and clock readings are delegated to
//! outside crates behind small trusted wrappers.

pub mod ambient;
pub mod api_response;
pub mod checksum;
pub mod laws;
pub mod pagination;
pub mod records;
pub mod store;
pub mod store_apps;
pub mod store_files;
pub mod store_deletes;
pub mod store_queries;
pub mod store_versions;
pub mod seq_helpers;
pub mod text;
