//! Finding the secrets that belong to a user name.

use crate::logic::parsing::{is_username, username_spec};
use crate::models::config::SecretDefinition;
use crate::models::keys::KeyDefinition;
use crate::search::{first_index, lemma_first_index_at};
use crate::text::{opt_string, opt_text, str_eq};
use vstd::prelude::*;

verus! {

/// The arguments of the command.
pub struct FindArgs {
    /// The user name or e-mail address to look for.
    pub user: String,
}

/// Whether the key at an index is named `username`.
pub open spec fn is_username_key(keys: Seq<KeyDefinition>) -> spec_fn(int) -> bool {
    |i: int| keys[i].name@ == username_spec()
}

/// The user name that the manifest itself gives for a secret: the value
/// written at its first key named `username`, if that key has one.
pub open spec fn manifest_username_spec(secret: SecretDefinition) -> Option<Seq<char>> {
    let i = first_index(secret.keys@.len() as int, 0, is_username_key(secret.keys@));
    if i < secret.keys@.len() {
        opt_string(secret.keys@[i].value)
    } else {
        None
    }
}

/// A secret belongs to `user` where the manifest gives that user name for
/// it, or where the secret in the cluster holds it.
pub open spec fn belongs_to_spec(
    secret: SecretDefinition,
    cluster_username: Option<Seq<char>>,
    user: Seq<char>,
) -> bool {
    manifest_username_spec(secret) == Some(user) || cluster_username == Some(user)
}

/// The user name that the manifest gives for a secret.
pub fn manifest_username(secret: &SecretDefinition) -> (r: Option<&str>)
    ensures
        opt_text(r) == manifest_username_spec(*secret),
{
    let mut i: usize = 0;
    while i < secret.keys.len()
        invariant
            i <= secret.keys@.len(),
            forall|j: int| 0 <= j < i ==> !#[trigger] is_username_key(secret.keys@)(j),
        decreases secret.keys@.len() - i,
    {
        if is_username(secret.keys[i].name.as_str()) {
            proof {
                let p = is_username_key(secret.keys@);
                assert(p(i as int));
                lemma_first_index_at(secret.keys@.len() as int, 0, p, i as int);
            }
            return match &secret.keys[i].value {
                Some(v) => Some(v.as_str()),
                None => None,
            };
        }
        i += 1;
    }
    proof {
        lemma_first_index_at(
            secret.keys@.len() as int,
            0,
            is_username_key(secret.keys@),
            secret.keys@.len() as int,
        );
    }
    None
}

/// Whether a secret belongs to `user`, given the user name that the secret
/// in the cluster holds, if it could be fetched.
pub fn belongs_to(secret: &SecretDefinition, cluster_username: Option<&str>, user: &str) -> (r: bool)
    ensures
        r == belongs_to_spec(*secret, opt_text(cluster_username), user@),
{
    let in_manifest = match manifest_username(secret) {
        Some(u) => str_eq(u, user),
        None => false,
    };
    let in_cluster = match cluster_username {
        Some(u) => str_eq(u, user),
        None => false,
    };
    in_manifest || in_cluster
}

} // verus!
