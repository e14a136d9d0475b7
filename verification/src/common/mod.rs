//! Catalog loading decisions and configuration formats shared by both front ends.
pub mod catalog;
pub mod config;
