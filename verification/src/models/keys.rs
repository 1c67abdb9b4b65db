//! The keys of a secret and how each gets its value.

use vstd::prelude::*;

verus! {

/// One key of a secret.
#[derive(Debug, Clone, Default)]
pub struct KeyDefinition {
    pub name: String,
    pub key_type: KeyType,
    /// The length of a random value.
    pub length: Option<usize>,
    /// The value of a static key.
    pub value: Option<String>,
    pub generator: Option<String>,
    /// Where a file key is read from.
    pub source: Option<FileSource>,
}

/// How a key gets its value.
#[derive(Debug, Clone, Copy, PartialEq, Eq, Structural, Default)]
pub enum KeyType {
    /// Random characters, kept from one rotation to the next unless forced.
    #[default]
    Random,
    /// The value written in the manifest.
    Static,
    /// A value read from a YAML file.
    File,
    /// A value fetched from the cluster.
    K8s,
    /// A fresh SSH key pair.
    Ssh,
}

/// A value in a YAML file.
#[derive(Debug, Clone)]
pub struct FileSource {
    /// The path of the file, relative to the root of the repository.
    pub path: String,
    /// The keys that lead to the value, with dots between them.
    pub key_path: String,
}

} // verus!
