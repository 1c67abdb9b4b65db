//! Where a rotated cipher is filed: its folder and its collections.

use crate::logic::resolution::{resolve_all_spec, resolve_collection_ids};
use crate::models::config::SecretDefinition;
use crate::text::{clone_strings, string_views};
use crate::vaultwarden::item::VaultItem;
use crate::vaultwarden::models::Collection;
use vstd::prelude::*;

verus! {

/// Files the cipher in the folder with the given id, where there is one.
pub fn handle_folder(item: &mut VaultItem, folder_id: Option<String>)
    ensures
        final(item).folder_id == match folder_id {
            Some(id) => Some(id),
            None => old(item).folder_id,
        },
        final(item).id == old(item).id,
        final(item).name == old(item).name,
        final(item).notes == old(item).notes,
        final(item).login == old(item).login,
        final(item).fields == old(item).fields,
        final(item).collection_ids == old(item).collection_ids,
        final(item).has_collections == old(item).has_collections,
{
    match folder_id {
        Some(id) => {
            item.folder_id = Some(id);
        },
        None => {},
    }
}

/// Whether the manifest names the collections of the cipher by id.
pub open spec fn has_collection_ids(secret: SecretDefinition) -> bool {
    secret.vaultwarden.collection_ids matches Some(ids) && ids@.len() > 0
}

/// Whether the collections of the organization are needed to file the
/// cipher: the manifest names collections, and not by id.
pub open spec fn needs_collections_spec(secret: SecretDefinition) -> bool {
    !has_collection_ids(secret) && secret.vaultwarden.collections is Some
}

/// Whether the collections of the organization are needed to file the
/// cipher.
pub fn needs_collections(secret: &SecretDefinition) -> (r: bool)
    ensures
        r == needs_collections_spec(*secret),
{
    let by_id = match &secret.vaultwarden.collection_ids {
        Some(ids) => ids.len() > 0,
        None => false,
    };
    !by_id && secret.vaultwarden.collections.is_some()
}

/// The collections that the cipher is filed in: the ids that the manifest
/// names; or else what the collections that it names resolve to; or else
/// nothing to change.
pub open spec fn collection_ids_spec(
    secret: SecretDefinition,
    all_collections: Seq<Collection>,
    org_key: Seq<u8>,
) -> Option<Seq<Seq<char>>> {
    if has_collection_ids(secret) {
        Some(string_views(secret.vaultwarden.collection_ids->0@))
    } else {
        match secret.vaultwarden.collections {
            Some(cols) => Some(resolve_all_spec(string_views(cols@), all_collections, org_key)),
            None => None,
        }
    }
}

/// The ids of some collections that may be missing, as characters.
pub open spec fn opt_string_views(ids: Option<Vec<String>>) -> Option<Seq<Seq<char>>> {
    match ids {
        Some(v) => Some(string_views(v@)),
        None => None,
    }
}

/// Files the cipher in its collections and strips the read-only list of
/// collections from it. The ids come back where the manifest says anything
/// of collections.
pub fn handle_collections(
    item: &mut VaultItem,
    secret: &SecretDefinition,
    all_collections: &[Collection],
    org_key: &[u8],
) -> (r: Option<Vec<String>>)
    ensures
        opt_string_views(r) == collection_ids_spec(*secret, all_collections@, org_key@),
        !final(item).has_collections,
        opt_string_views(final(item).collection_ids) == match collection_ids_spec(
            *secret,
            all_collections@,
            org_key@,
        ) {
            Some(ids) => Some(ids),
            None => opt_string_views(old(item).collection_ids),
        },
        final(item).id == old(item).id,
        final(item).name == old(item).name,
        final(item).notes == old(item).notes,
        final(item).login == old(item).login,
        final(item).fields == old(item).fields,
        final(item).folder_id == old(item).folder_id,
{
    item.has_collections = false;
    match &secret.vaultwarden.collection_ids {
        Some(ids) => {
            if ids.len() > 0 {
                item.collection_ids = Some(clone_strings(ids));
                return Some(clone_strings(ids));
            }
        },
        None => {},
    }
    match &secret.vaultwarden.collections {
        Some(cols) => {
            let resolved = resolve_collection_ids(cols.as_slice(), all_collections, org_key);
            item.collection_ids = Some(clone_strings(&resolved));
            Some(resolved)
        },
        None => None,
    }
}

} // verus!
