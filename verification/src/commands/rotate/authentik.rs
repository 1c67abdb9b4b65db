//! The blueprint that tells the identity provider of a rotated secret.

use crate::models::authentik::AuthentikTarget;
use crate::text::clone_pairs;
use crate::text_map::{lookup, TextMap};
use vstd::prelude::*;

verus! {

/// A blueprint with one entry: the object of the identity provider, by
/// model and identifiers, and the attribute that takes the secret.
#[derive(Debug)]
pub struct Blueprint {
    /// The path of the blueprint file.
    pub path: String,
    pub version: u32,
    pub model: String,
    pub identifiers: Vec<(String, String)>,
    pub secret_field: String,
    pub secret_value: String,
}

/// The version that blueprints are written in.
pub const BLUEPRINT_VERSION: u32 = 1;

/// Whether `b` is the blueprint for the target with `secret_value` as the
/// secret: it goes to the path of the target, is of version 1, names the
/// model and the identifiers of the target, and gives the attribute that
/// the target names the secret.
pub open spec fn is_blueprint_of(b: Blueprint, target: AuthentikTarget, secret_value: Seq<char>) -> bool {
    &&& b.path == target.path
    &&& b.version == BLUEPRINT_VERSION
    &&& b.model == target.metadata.model
    &&& b.identifiers@ == target.metadata.identifiers@
    &&& b.secret_field == target.metadata.secret_field
    &&& b.secret_value@ == secret_value
}

/// The blueprint for the target, with `secret_value` as the secret.
pub fn generate_blueprint(target: &AuthentikTarget, secret_value: &str) -> (b: Blueprint)
    ensures
        is_blueprint_of(b, *target, secret_value@),
{
    Blueprint {
        path: target.path.clone(),
        version: BLUEPRINT_VERSION,
        model: target.metadata.model.clone(),
        identifiers: clone_pairs(&target.metadata.identifiers),
        secret_field: target.metadata.secret_field.clone(),
        secret_value: secret_value.to_owned(),
    }
}

/// The characters of `client_secret`.
pub open spec fn client_secret_spec() -> Seq<char> {
    seq!['c', 'l', 'i', 'e', 'n', 't', '_', 's', 'e', 'c', 'r', 'e', 't']
}

/// The characters of `password`.
pub open spec fn password_key_spec() -> Seq<char> {
    seq!['p', 'a', 's', 's', 'w', 'o', 'r', 'd']
}

/// The characters of `secret`.
pub open spec fn secret_key_spec() -> Seq<char> {
    seq!['s', 'e', 'c', 'r', 'e', 't']
}

/// The value of a rotation that goes into the blueprint: that of the key
/// `client_secret`; where there is none, of `password`; where there is none,
/// of `secret`.
pub open spec fn blueprint_secret_spec(pairs: Seq<(Seq<char>, Seq<char>)>) -> Option<Seq<char>> {
    match lookup(pairs, client_secret_spec()) {
        Some(v) => Some(v),
        None => match lookup(pairs, password_key_spec()) {
            Some(v) => Some(v),
            None => lookup(pairs, secret_key_spec()),
        },
    }
}

/// The value of a rotation that goes into the blueprint.
pub fn blueprint_secret(secret_data: &TextMap) -> (r: Option<&String>)
    ensures
        r matches Some(v) ==> blueprint_secret_spec(secret_data.pairs()) == Some(v@),
        r is None ==> blueprint_secret_spec(secret_data.pairs()) is None,
{
    proof {
        reveal_strlit("client_secret");
        reveal_strlit("password");
        reveal_strlit("secret");
    }
    assert("client_secret"@ =~= client_secret_spec());
    assert("password"@ =~= password_key_spec());
    assert("secret"@ =~= secret_key_spec());
    match secret_data.get("client_secret") {
        Some(v) => Some(v),
        None => match secret_data.get("password") {
            Some(v) => Some(v),
            None => secret_data.get("secret"),
        },
    }
}

} // verus!
