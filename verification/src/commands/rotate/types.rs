//! The arguments of a rotation.

use vstd::prelude::*;

verus! {

/// The arguments of the command.
#[derive(Clone)]
pub struct RotateArgs {
    pub config: String,
    /// Whether the manifests of the repository are read in place of the
    /// configuration file.
    pub scan: bool,
    /// Whether nothing is written: not to the vault, not to disk.
    pub dry_run: bool,
    pub debug: bool,
    /// Whether secrets are rotated though the policy says they are not due.
    pub force: bool,
    pub debug_api: bool,
    pub debug_crypto: bool,
    pub debug_auth: bool,
    /// A text that the names of the secrets to rotate hold.
    pub secret: Option<String>,
}

} // verus!
