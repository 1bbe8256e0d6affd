//! Account catalog, credential identity and backup logic for a Codex account switcher.

pub mod text;
pub mod types;
pub mod jwt;
pub mod digest;
pub mod identity;
pub mod live;
pub mod catalog;
pub mod activation;
pub mod process;
pub mod backup;
pub mod oauth;
pub mod web;
pub mod refresh;
pub mod usage;
pub mod files;
pub mod warmup;
