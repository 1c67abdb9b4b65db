//! The identity-provider blueprint that a rotation may write.

use vstd::prelude::*;

verus! {

/// Where the blueprint goes and what it describes.
#[derive(Debug, Clone)]
pub struct AuthentikTarget {
    /// The path of the blueprint file.
    pub path: String,
    pub metadata: AuthentikMetadata,
}

/// The object of the identity provider that the blueprint reconciles.
#[derive(Debug, Clone)]
pub struct AuthentikMetadata {
    pub name: String,
    pub model: String,
    /// The identifiers of the object, each name once, in the order written.
    pub identifiers: Vec<(String, String)>,
    /// The attribute that takes the secret.
    pub secret_field: String,
}

/// The characters of `client_secret`.
pub open spec fn default_secret_field_spec() -> Seq<char> {
    seq!['c', 'l', 'i', 'e', 'n', 't', '_', 's', 'e', 'c', 'r', 'e', 't']
}

/// The attribute that takes the secret where the manifest names none:
/// `client_secret`.
pub fn default_secret_field() -> (r: String)
    ensures
        r@ == default_secret_field_spec(),
{
    proof {
        reveal_strlit("client_secret");
    }
    let r = "client_secret".to_owned();
    assert(r@ == default_secret_field_spec());
    r
}

} // verus!
