//! What a cipher already holds for a key.

use crate::crypto::field::{decrypt_text, decrypt_text_spec};
use crate::search::{first_index, lemma_first_index_at};
use crate::text::str_eq;
use crate::vaultwarden::item::{ItemField, VaultItem};
use vstd::prelude::*;

verus! {

/// The characters of `username`.
pub open spec fn username_spec() -> Seq<char> {
    seq!['u', 's', 'e', 'r', 'n', 'a', 'm', 'e']
}

/// The characters of `password`.
pub open spec fn password_spec() -> Seq<char> {
    seq!['p', 'a', 's', 's', 'w', 'o', 'r', 'd']
}

/// Whether `key` is `username`.
pub fn is_username(key: &str) -> (r: bool)
    ensures
        r == (key@ == username_spec()),
{
    proof {
        reveal_strlit("username");
    }
    assert("username"@ =~= username_spec());
    str_eq(key, "username")
}

/// Whether `key` is `password`.
pub fn is_password(key: &str) -> (r: bool)
    ensures
        r == (key@ == password_spec()),
{
    proof {
        reveal_strlit("password");
    }
    assert("password"@ =~= password_spec());
    str_eq(key, "password")
}

/// Whether the value of `key` lives in the login block of a cipher: the keys
/// `username` and `password` do, every other key is a custom field.
pub open spec fn is_login_key(key: Seq<char>) -> bool {
    key == username_spec() || key == password_spec()
}

/// The cipher string that the login block holds for `key`, where `key` is
/// `username` or `password` and the block holds a text that is not empty.
pub open spec fn login_text(item: VaultItem, key: Seq<char>) -> Option<Seq<char>> {
    match item.login {
        None => None,
        Some(login) => if key == username_spec() {
            match login.username {
                Some(v) => if v@.len() > 0 {
                    Some(v@)
                } else {
                    None
                },
                None => None,
            }
        } else if key == password_spec() {
            match login.password {
                Some(v) => if v@.len() > 0 {
                    Some(v@)
                } else {
                    None
                },
                None => None,
            }
        } else {
            None
        },
    }
}

/// Whether the name of the field decrypts to `key` under the organization
/// key.
pub open spec fn field_is_named(field: ItemField, key: Seq<char>, org_key: Seq<u8>) -> bool {
    field.name matches Some(n) && decrypt_text_spec(n@, org_key) == Some(key)
}

/// Whether the field at an index is named `key` and holds a text.
pub open spec fn holds_text_for(fields: Seq<ItemField>, key: Seq<char>, org_key: Seq<u8>) -> spec_fn(
    int,
) -> bool {
    |i: int| field_is_named(fields[i], key, org_key) && fields[i].value is Some
}

/// The index of the first field that is named `key` and holds a text, or the
/// number of fields.
pub open spec fn first_holding(fields: Seq<ItemField>, key: Seq<char>, org_key: Seq<u8>) -> int {
    first_index(fields.len() as int, 0, holds_text_for(fields, key, org_key))
}

/// What the custom fields hold for `key`: the decrypted value of the first
/// field whose name decrypts to `key` and whose value is a text. A value
/// that does not decrypt gives `None`: later fields are not read.
pub open spec fn field_value_spec(fields: Seq<ItemField>, key: Seq<char>, org_key: Seq<u8>) -> Option<
    Seq<char>,
> {
    let i = first_holding(fields, key, org_key);
    if i < fields.len() {
        decrypt_text_spec(fields[i].value->0@, org_key)
    } else {
        None
    }
}

/// What the cipher holds for `key`: the decrypted text of the login block
/// for `username` and `password`, where the block holds one; what the custom
/// fields hold otherwise.
pub open spec fn existing_value_spec(item: VaultItem, key: Seq<char>, org_key: Seq<u8>) -> Option<
    Seq<char>,
> {
    match login_text(item, key) {
        Some(v) => decrypt_text_spec(v, org_key),
        None => match item.fields {
            Some(fields) => field_value_spec(fields@, key, org_key),
            None => None,
        },
    }
}

/// The value that the cipher holds for `key`, decrypted under the
/// organization key.
pub fn find_existing_encrypted_value(item: &VaultItem, key: &str, org_key: &[u8]) -> (r: Option<
    String,
>)
    ensures
        r matches Some(v) ==> existing_value_spec(*item, key@, org_key@) == Some(v@),
        r is None ==> existing_value_spec(*item, key@, org_key@) is None,
{
    let wants_username = is_username(key);
    let wants_password = is_password(key);
    match &item.login {
        Some(login) => {
            if wants_username {
                match &login.username {
                    Some(v) => {
                        if !v.as_str().is_empty() {
                            return decrypt_text(v.as_str(), org_key);
                        }
                    },
                    None => {},
                }
            } else if wants_password {
                match &login.password {
                    Some(v) => {
                        if !v.as_str().is_empty() {
                            return decrypt_text(v.as_str(), org_key);
                        }
                    },
                    None => {},
                }
            }
        },
        None => {},
    }
    match &item.fields {
        None => None,
        Some(fields) => {
            let mut i: usize = 0;
            while i < fields.len()
                invariant
                    i <= fields.len(),
                    existing_value_spec(*item, key@, org_key@) == field_value_spec(
                        fields@,
                        key@,
                        org_key@,
                    ),
                    forall|j: int| 0 <= j < i ==> !#[trigger] holds_text_for(fields@, key@, org_key@)(j),
                decreases fields.len() - i,
            {
                let field = &fields[i];
                match &field.name {
                    Some(n) => {
                        match decrypt_text(n.as_str(), org_key) {
                            Some(name) => {
                                if str_eq(name.as_str(), key) {
                                    match &field.value {
                                        Some(v) => {
                                            proof {
                                                let p = holds_text_for(fields@, key@, org_key@);
                                                assert(p(i as int));
                                                lemma_first_index_at(
                                                    fields@.len() as int,
                                                    0,
                                                    p,
                                                    i as int,
                                                );
                                            }
                                            return decrypt_text(v.as_str(), org_key);
                                        },
                                        None => {},
                                    }
                                }
                            },
                            None => {},
                        }
                    },
                    None => {},
                }
                i += 1;
            }
            proof {
                lemma_first_index_at(
                    fields@.len() as int,
                    0,
                    holds_text_for(fields@, key@, org_key@),
                    fields@.len() as int,
                );
            }
            None
        },
    }
}

} // verus!
