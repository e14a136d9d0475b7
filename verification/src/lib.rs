//! Verified core of a small command-line tool for inspecting Apache Iceberg
//! catalogs and table metadata.
pub mod catalog;
pub mod cli;
pub mod commands;
pub mod common;
pub mod error;
pub mod json;
pub mod props;
pub mod render;
pub mod sorted;
pub mod text;
