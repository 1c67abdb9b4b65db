//! The rotation manifest: what to rotate, where it lives in the vault, and
//! where its sealed copy goes.

pub mod authentik;
pub mod config;
pub mod k8s;
pub mod keys;
pub mod user;
pub mod vaultwarden_target;

pub use authentik::{default_secret_field, AuthentikMetadata, AuthentikTarget};
pub use config::{HookCommand, RotationManifest, RotationPolicy, SecretDefinition, SecretHooks};
pub use k8s::KubernetesTarget;
pub use keys::{FileSource, KeyDefinition, KeyType};
pub use user::UserDefinition;
pub use vaultwarden_target::VaultwardenTarget;
