//! The manifest and the secrets it defines.

use crate::models::authentik::AuthentikTarget;
use crate::models::k8s::KubernetesTarget;
use crate::models::keys::KeyDefinition;
use crate::models::user::UserDefinition;
use crate::models::vaultwarden_target::VaultwardenTarget;
use vstd::prelude::*;

verus! {

/// One manifest file.
#[derive(Debug, Clone)]
pub struct RotationManifest {
    pub version: String,
    pub secrets: Vec<SecretDefinition>,
    pub users: Vec<UserDefinition>,
}

/// One secret: its cipher in the vault, its sealed copies, and its keys.
#[derive(Debug, Clone)]
pub struct SecretDefinition {
    pub name: String,
    pub description: Option<String>,
    pub vaultwarden: VaultwardenTarget,
    pub kubernetes: KubernetesTarget,
    pub additional_kubernetes: Option<Vec<KubernetesTarget>>,
    pub authentik: Option<AuthentikTarget>,
    pub keys: Vec<KeyDefinition>,
    pub policy: Option<RotationPolicy>,
    pub hooks: Option<SecretHooks>,
    pub access_users: Option<Vec<String>>,
}

/// The commands to run before and after a rotation.
#[derive(Debug, Clone)]
pub struct SecretHooks {
    pub pre: Option<Vec<HookCommand>>,
    pub post: Option<Vec<HookCommand>>,
}

/// One command of a hook.
#[derive(Debug, Clone)]
pub struct HookCommand {
    pub command: String,
    pub args: Option<Vec<String>>,
    /// Variables for the command's environment, each name once.
    pub env: Option<Vec<(String, String)>>,
    /// Whether the command line is handed to `sh -c`.
    pub shell: Option<bool>,
}

/// When a secret is due.
#[derive(Debug, Clone)]
pub struct RotationPolicy {
    /// The window, such as `30d`.
    pub schedule: Option<String>,
}

} // verus!
