//! The iceman TOML configuration format.
pub use crate::catalog::{IcemanCatalogConfig, IcemanConfig};
