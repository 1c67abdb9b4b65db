//! Creating the ciphers that a configuration names and the vault lacks.

pub mod access;
pub mod builder;
pub mod existence;
pub mod process;
pub mod types;

pub use types::{Config, CreateItemsArgs, KeyConfig, KeyDef, SecretConfig, VaultwardenConfig};
