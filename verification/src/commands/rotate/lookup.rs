//! Which cipher a secret means.

use crate::crypto::field::{decrypt_text_or_raw, decrypt_text_or_raw_spec};
use crate::error::{text_result, Error};
use crate::models::config::SecretDefinition;
use crate::search::{first_index, lemma_first_index_at};
use crate::text::str_eq;
use crate::vaultwarden::models::Cipher;
use vstd::prelude::*;

verus! {

/// The id that stands for "no cipher yet".
pub open spec fn nil_id_spec() -> Seq<char> {
    seq![
        '0', '0', '0', '0', '0', '0', '0', '0', '-', '0', '0', '0', '0', '-', '0', '0', '0', '0',
        '-', '0', '0', '0', '0', '-', '0', '0', '0', '0', '0', '0', '0', '0', '0', '0', '0', '0',
    ]
}

/// The id of the cipher where the manifest names one: an id that is not the
/// nil id.
pub open spec fn configured_id_spec(secret: SecretDefinition) -> Option<Seq<char>> {
    match secret.vaultwarden.cipher_id {
        Some(id) => if id@ != nil_id_spec() {
            Some(id@)
        } else {
            None
        },
        None => None,
    }
}

/// The id of the cipher where the manifest names one.
pub fn configured_cipher_id(secret: &SecretDefinition) -> (r: Option<String>)
    ensures
        r matches Some(id) ==> configured_id_spec(*secret) == Some(id@),
        r is None ==> configured_id_spec(*secret) is None,
{
    proof {
        reveal_strlit("00000000-0000-0000-0000-000000000000");
    }
    assert("00000000-0000-0000-0000-000000000000"@ =~= nil_id_spec());
    match &secret.vaultwarden.cipher_id {
        Some(id) => {
            if !str_eq(id.as_str(), "00000000-0000-0000-0000-000000000000") {
                Some(id.clone())
            } else {
                None
            }
        },
        None => None,
    }
}

/// The name by which the cipher is looked up: the name that the manifest
/// gives for the vault, or else the name of the secret.
pub open spec fn target_name_spec(secret: SecretDefinition) -> Seq<char> {
    match secret.vaultwarden.name {
        Some(n) => n@,
        None => secret.name@,
    }
}

/// The name by which the cipher is looked up.
pub fn target_name(secret: &SecretDefinition) -> (r: &str)
    ensures
        r@ == target_name_spec(*secret),
{
    match &secret.vaultwarden.name {
        Some(n) => n.as_str(),
        None => secret.name.as_str(),
    }
}

/// Whether the name of the cipher at an index decrypts to `name`. The name
/// is read as `IV|ciphertext|MAC` first and in the legacy form where that
/// does not decrypt.
pub open spec fn is_cipher_named(ciphers: Seq<Cipher>, name: Seq<char>, org_key: Seq<u8>) -> spec_fn(
    int,
) -> bool {
    |i: int| decrypt_text_or_raw_spec(ciphers[i].name@, org_key) == Some(name)
}

/// The id of the first cipher whose name decrypts to `name`.
pub open spec fn find_cipher_spec(ciphers: Seq<Cipher>, name: Seq<char>, org_key: Seq<u8>) -> Option<
    Seq<char>,
> {
    let i = first_index(ciphers.len() as int, 0, is_cipher_named(ciphers, name, org_key));
    if i < ciphers.len() {
        Some(ciphers[i].id@)
    } else {
        None
    }
}

/// Finds the cipher with the given name among the ciphers of the vault.
pub fn find_cipher_id(ciphers: &[Cipher], name: &str, org_key: &[u8]) -> (r: Option<String>)
    ensures
        r matches Some(id) ==> find_cipher_spec(ciphers@, name@, org_key@) == Some(id@),
        r is None ==> find_cipher_spec(ciphers@, name@, org_key@) is None,
{
    let mut i: usize = 0;
    while i < ciphers.len()
        invariant
            i <= ciphers@.len(),
            forall|j: int| 0 <= j < i ==> !#[trigger] is_cipher_named(ciphers@, name@, org_key@)(j),
        decreases ciphers@.len() - i,
    {
        let named = match decrypt_text_or_raw(ciphers[i].name.as_str(), org_key) {
            Some(n) => str_eq(n.as_str(), name),
            None => false,
        };
        if named {
            proof {
                let p = is_cipher_named(ciphers@, name@, org_key@);
                assert(p(i as int));
                lemma_first_index_at(ciphers@.len() as int, 0, p, i as int);
            }
            return Some(ciphers[i].id.clone());
        }
        i += 1;
    }
    proof {
        lemma_first_index_at(
            ciphers@.len() as int,
            0,
            is_cipher_named(ciphers@, name@, org_key@),
            ciphers@.len() as int,
        );
    }
    None
}

/// The id of the cipher of a secret: the id that the manifest names, unless
/// it is the nil id, or else the id of the first cipher of the vault whose
/// name decrypts to the name that the secret is looked up by.
pub open spec fn resolve_cipher_id_spec(
    secret: SecretDefinition,
    ciphers: Seq<Cipher>,
    org_key: Seq<u8>,
) -> Result<Seq<char>, Error> {
    match configured_id_spec(secret) {
        Some(id) => Ok(id),
        None => match find_cipher_spec(ciphers, target_name_spec(secret), org_key) {
            Some(id) => Ok(id),
            None => Err(Error::CipherNotFound),
        },
    }
}

/// Resolves the cipher of a secret among the ciphers of the vault.
pub fn resolve_cipher_id(secret: &SecretDefinition, ciphers: &[Cipher], org_key: &[u8]) -> (r: Result<
    String,
    Error,
>)
    ensures
        text_result(r) == resolve_cipher_id_spec(*secret, ciphers@, org_key@),
{
    match configured_cipher_id(secret) {
        Some(id) => Ok(id),
        None => match find_cipher_id(ciphers, target_name(secret), org_key) {
            Some(id) => Ok(id),
            None => Err(Error::CipherNotFound),
        },
    }
}

} // verus!
