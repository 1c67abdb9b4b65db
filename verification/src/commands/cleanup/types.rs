//! The configuration of a cleanup.

use vstd::prelude::*;

verus! {

/// The arguments of the command.
pub struct CleanupArgs {
    pub config: String,
    /// Whether everything in the vault is deleted.
    pub all: bool,
}

/// The secrets to delete.
pub struct Config {
    pub secrets: Vec<SecretConfig>,
}

/// One secret to delete.
pub struct SecretConfig {
    pub name: String,
    pub env: Option<String>,
    pub vaultwarden: Option<VaultwardenConfig>,
}

/// How to find the cipher of a secret.
pub struct VaultwardenConfig {
    pub cipher_id: Option<String>,
    pub name: Option<String>,
    pub folder: Option<String>,
}

} // verus!
