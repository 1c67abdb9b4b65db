//! The rotation of the secrets that the manifests define.

pub mod authentik;
pub mod collections;
pub mod hooks;
pub mod item_ops;
pub mod kube;
pub mod lookup;
pub mod prepared;
pub mod process;
pub mod run;
pub mod types;
pub mod user;
pub mod values;

pub use types::RotateArgs;
