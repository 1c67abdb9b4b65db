//! The sealed copy of a secret in the source tree.

use vstd::prelude::*;

verus! {

/// The Kubernetes secret that a rotation seals and writes.
#[derive(Debug, Clone)]
pub struct KubernetesTarget {
    pub namespace: String,
    pub secret_name: String,
    /// The path of the sealed file, relative to the root of the repository.
    pub path: String,
    /// Labels for the secret, each name once.
    pub labels: Option<Vec<(String, String)>>,
}

} // verus!
