//! Deleting the items of a configuration, or all of them.

pub mod prune_config;
pub mod purge_vault;
pub mod types;

pub use types::{CleanupArgs, Config, SecretConfig, VaultwardenConfig};
