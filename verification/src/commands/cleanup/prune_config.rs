//! Deleting the ciphers and folders that a configuration names.

use crate::commands::cleanup::types::{Config, SecretConfig};
use crate::commands::create_items::builder::{item_label, label_spec};
use crate::commands::rotate::lookup::{find_cipher_id, find_cipher_spec};
use crate::text::str_eq;
use crate::vaultwarden::models::Cipher;
use vstd::prelude::*;

verus! {

/// The name by which the cipher of a secret is looked up: the name that the
/// configuration gives for the vault, or else the label of the secret.
pub open spec fn prune_name_spec(secret: SecretConfig) -> Seq<char> {
    match secret.vaultwarden {
        Some(vw) => match vw.name {
            Some(n) => n@,
            None => label_spec(
                secret.name@,
                match secret.env {
                    Some(e) => Some(e@),
                    None => None,
                },
            ),
        },
        None => label_spec(
            secret.name@,
            match secret.env {
                Some(e) => Some(e@),
                None => None,
            },
        ),
    }
}

/// The name by which the cipher of a secret is looked up.
pub fn prune_name(secret: &SecretConfig) -> (name: String)
    ensures
        name@ == prune_name_spec(*secret),
{
    let named = match &secret.vaultwarden {
        Some(vw) => match &vw.name {
            Some(n) => Some(n.clone()),
            None => None,
        },
        None => None,
    };
    match named {
        Some(n) => n,
        None => {
            let env = match &secret.env {
                Some(e) => Some(e.as_str()),
                None => None,
            };
            item_label(secret.name.as_str(), env)
        },
    }
}

/// The id of the cipher to delete for a secret: the id that the
/// configuration names, or else the id of the first cipher of the vault
/// whose name decrypts to the name of the secret. A secret without vault
/// section has no cipher.
pub open spec fn prune_target_spec(secret: SecretConfig, ciphers: Seq<Cipher>, org_key: Seq<u8>) -> Option<
    Seq<char>,
> {
    match secret.vaultwarden {
        None => None,
        Some(vw) => match vw.cipher_id {
            Some(id) => Some(id@),
            None => find_cipher_spec(ciphers, prune_name_spec(secret), org_key),
        },
    }
}

/// The id of the cipher to delete for a secret.
pub fn prune_from_config(secret: &SecretConfig, ciphers: &[Cipher], org_key: &[u8]) -> (r: Option<
    String,
>)
    ensures
        r matches Some(id) ==> prune_target_spec(*secret, ciphers@, org_key@) == Some(id@),
        r is None ==> prune_target_spec(*secret, ciphers@, org_key@) is None,
{
    match &secret.vaultwarden {
        None => None,
        Some(vw) => match &vw.cipher_id {
            Some(id) => Some(id.clone()),
            None => {
                let name = prune_name(secret);
                find_cipher_id(ciphers, name.as_str(), org_key)
            },
        },
    }
}

/// Whether the list holds the name.
pub open spec fn holds_name(names: Seq<String>, name: Seq<char>) -> bool {
    exists|i: int| 0 <= i < names.len() && (#[trigger] names[i])@ == name
}

/// The folder that a secret names.
pub open spec fn folder_of(secret: SecretConfig) -> Option<Seq<char>> {
    match secret.vaultwarden {
        Some(vw) => match vw.folder {
            Some(f) => Some(f@),
            None => None,
        },
        None => None,
    }
}

/// Whether a secret of the configuration names the folder.
pub open spec fn is_named_folder(config: Config, name: Seq<char>) -> bool {
    exists|i: int|
        0 <= i < config.secrets@.len() && folder_of(#[trigger] config.secrets@[i]) == Some(name)
}

/// The folders that the secrets of a configuration name, each once.
pub fn folders_to_delete(config: &Config) -> (folders: Vec<String>)
    ensures
        forall|i: int|
            0 <= i < folders@.len() ==> is_named_folder(*config, (#[trigger] folders@[i])@),
        forall|i: int, j: int|
            0 <= i < j < folders@.len() ==> (#[trigger] folders@[i])@ != (#[trigger] folders@[j])@,
        forall|i: int|
            0 <= i < config.secrets@.len() ==> match (#[trigger] config.secrets@[i]).vaultwarden {
                Some(vw) => match vw.folder {
                    Some(f) => holds_name(folders@, f@),
                    None => true,
                },
                None => true,
            },
{
    let mut folders: Vec<String> = Vec::new();
    let mut i: usize = 0;
    while i < config.secrets.len()
        invariant
            i <= config.secrets@.len(),
            forall|a: int|
                0 <= a < folders@.len() ==> is_named_folder(*config, (#[trigger] folders@[a])@),
            forall|a: int, b: int|
                0 <= a < b < folders@.len() ==> (#[trigger] folders@[a])@ != (
                #[trigger] folders@[b])@,
            forall|k: int|
                0 <= k < i ==> match (#[trigger] config.secrets@[k]).vaultwarden {
                    Some(vw) => match vw.folder {
                        Some(f) => holds_name(folders@, f@),
                        None => true,
                    },
                    None => true,
                },
        decreases config.secrets@.len() - i,
    {
        match &config.secrets[i].vaultwarden {
            Some(vw) => match &vw.folder {
                Some(f) => {
                    let mut j: usize = 0;
                    let mut known = false;
                    while j < folders.len()
                        invariant
                            j <= folders@.len(),
                            known ==> holds_name(folders@, f@),
                            !known ==> forall|k: int| 0 <= k < j ==> (#[trigger] folders@[k])@ != f@,
                        decreases folders@.len() - j,
                    {
                        if str_eq(folders[j].as_str(), f.as_str()) {
                            known = true;
                        }
                        j += 1;
                    }
                    if !known {
                        let ghost before = folders@;
                        folders.push(f.clone());
                        proof {
                            assert(folders@[before.len() as int]@ == f@);
                            assert(folder_of(config.secrets@[i as int]) == Some(f@));
                            assert(is_named_folder(*config, f@));
                            assert forall|a: int| 0 <= a < folders@.len() implies is_named_folder(
                                *config,
                                (#[trigger] folders@[a])@,
                            ) by {
                                if a < before.len() {
                                    assert(folders@[a] == before[a]);
                                }
                            }
                            assert forall|k: int| 0 <= k < i implies match (
                            #[trigger] config.secrets@[k]).vaultwarden {
                                Some(vw) => match vw.folder {
                                    Some(g) => holds_name(folders@, g@),
                                    None => true,
                                },
                                None => true,
                            } by {
                                match config.secrets@[k].vaultwarden {
                                    Some(vw) => match vw.folder {
                                        Some(g) => {
                                            let w = choose|w: int|
                                                0 <= w < before.len() && (#[trigger] before[w])@
                                                    == g@;
                                            assert(folders@[w]@ == g@);
                                        },
                                        None => {},
                                    },
                                    None => {},
                                }
                            }
                        }
                    }
                },
                None => {},
            },
            None => {},
        }
        i += 1;
    }
    folders
}

} // verus!
