//! Whether the cipher of a secret exists already.

use crate::commands::create_items::types::SecretConfig;
use crate::text::str_eq;
use crate::vaultwarden::item::VaultItem;
use vstd::prelude::*;

verus! {

/// The id under which the cipher of a secret is looked for, where the
/// configuration names one that is not empty.
pub open spec fn known_cipher_id_spec(secret: SecretConfig) -> Option<Seq<char>> {
    match secret.vaultwarden {
        Some(vw) => match vw.cipher_id {
            Some(id) => if id@.len() > 0 {
                Some(id@)
            } else {
                None
            },
            None => None,
        },
        None => None,
    }
}

/// The id under which the cipher of a secret is looked for.
pub fn known_cipher_id(secret: &SecretConfig) -> (r: Option<&String>)
    ensures
        r matches Some(id) ==> known_cipher_id_spec(*secret) == Some(id@),
        r is None ==> known_cipher_id_spec(*secret) is None,
{
    match &secret.vaultwarden {
        Some(vw) => match &vw.cipher_id {
            Some(id) => if !id.as_str().is_empty() {
                Some(id)
            } else {
                None
            },
            None => None,
        },
        None => None,
    }
}

/// Whether an existing cipher is to be moved: a folder is wanted, and the
/// cipher is not in it.
pub open spec fn needs_folder_update_spec(existing: VaultItem, folder_id: Option<Seq<char>>) -> bool {
    match folder_id {
        None => false,
        Some(wanted) => match existing.folder_id {
            Some(current) => current@ != wanted,
            None => true,
        },
    }
}

/// Moves an existing cipher into the wanted folder, and says whether it was
/// moved, in which case the cipher is to be written back. The cipher exists
/// either way: nothing is created for the secret.
pub fn check_exists_and_update_folder(existing: &mut VaultItem, folder_id: Option<&String>) -> (moved:
    bool)
    ensures
        moved == needs_folder_update_spec(
            *old(existing),
            match folder_id {
                Some(f) => Some(f@),
                None => None,
            },
        ),
        !moved ==> *final(existing) == *old(existing),
        moved ==> (final(existing).folder_id matches Some(f) && f@ == folder_id->0@),
        final(existing).id == old(existing).id,
        final(existing).name == old(existing).name,
        final(existing).notes == old(existing).notes,
        final(existing).login == old(existing).login,
        final(existing).fields == old(existing).fields,
        final(existing).collection_ids == old(existing).collection_ids,
        final(existing).has_collections == old(existing).has_collections,
{
    match folder_id {
        None => false,
        Some(wanted) => {
            let same = match &existing.folder_id {
                Some(current) => str_eq(current.as_str(), wanted.as_str()),
                None => false,
            };
            if same {
                false
            } else {
                existing.folder_id = Some(wanted.clone());
                true
            }
        },
    }
}

} // verus!
