//! The cipher of a secret in the vault.

use vstd::prelude::*;

verus! {

/// How to find the cipher, and where to file it.
#[derive(Debug, Clone)]
pub struct VaultwardenTarget {
    pub cipher_id: Option<String>,
    /// The name to look the cipher up by.
    pub name: Option<String>,
    pub collection_ids: Option<Vec<String>>,
    /// Collections by id or by name.
    pub collections: Option<Vec<String>>,
    pub folder: Option<String>,
    pub notes: Option<String>,
    pub fields: Option<Vec<(String, String)>>,
}

} // verus!
