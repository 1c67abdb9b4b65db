//! Folders by name. The names of folders are encrypted under the user's
//! symmetric key: folders are personal.

use crate::crypto::aes::MAX_PLAINTEXT_LEN;
use crate::crypto::field::{decrypt_text, decrypt_text_spec, encrypt_text};
use crate::error::Error;
use crate::search::{first_index, lemma_first_index, lemma_first_index_at};
use crate::text::str_eq;
use crate::vaultwarden::models::FolderData;
use vstd::prelude::*;
use vstd::utf8::encode_utf8;

verus! {

/// Whether the name of the folder decrypts to `name` under `key`.
pub open spec fn folder_is_named(folder: FolderData, name: Seq<char>, key: Seq<u8>) -> bool {
    decrypt_text_spec(folder.name@, key) == Some(name)
}

/// Whether the folder at an index is named `name`.
pub open spec fn is_folder_named(folders: Seq<FolderData>, name: Seq<char>, key: Seq<u8>) -> spec_fn(
    int,
) -> bool {
    |i: int| folder_is_named(folders[i], name, key)
}

/// The id of the first folder whose name decrypts to `name`.
pub open spec fn find_folder_spec(folders: Seq<FolderData>, name: Seq<char>, key: Seq<u8>) -> Option<
    Seq<char>,
> {
    let i = first_index(folders.len() as int, 0, is_folder_named(folders, name, key));
    if i < folders.len() {
        Some(folders[i].id@)
    } else {
        None
    }
}

/// Finds the folder with the given name among the folders of the account.
pub fn find_folder_id(folders: &[FolderData], name: &str, key: &[u8]) -> (r: Option<String>)
    ensures
        r matches Some(id) ==> find_folder_spec(folders@, name@, key@) == Some(id@),
        r is None ==> find_folder_spec(folders@, name@, key@) is None,
{
    let mut i: usize = 0;
    while i < folders.len()
        invariant
            i <= folders@.len(),
            forall|j: int| 0 <= j < i ==> !#[trigger] is_folder_named(folders@, name@, key@)(j),
        decreases folders@.len() - i,
    {
        let named = match decrypt_text(folders[i].name.as_str(), key) {
            Some(n) => str_eq(n.as_str(), name),
            None => false,
        };
        if named {
            proof {
                let p = is_folder_named(folders@, name@, key@);
                assert(p(i as int));
                lemma_first_index_at(folders@.len() as int, 0, p, i as int);
            }
            return Some(folders[i].id.clone());
        }
        i += 1;
    }
    proof {
        lemma_first_index_at(
            folders@.len() as int,
            0,
            is_folder_named(folders@, name@, key@),
            folders@.len() as int,
        );
    }
    None
}

/// What resolving a folder leads to.
pub enum FolderResolution {
    /// The folder exists: here is its id.
    Found(String),
    /// The folder is to be created, under this encrypted name.
    Create(String),
    /// There is no such folder, and none is to be created.
    Missing,
}

/// Resolves a folder by name among the folders of the account. Where there
/// is none and one is wanted, the name comes back encrypted, for the folder
/// to be created with.
pub fn resolve_folder_id(
    folders: &[FolderData],
    name: &str,
    key: &[u8],
    create_if_missing: bool,
) -> (r: Result<FolderResolution, Error>)
    ensures
        match find_folder_spec(folders@, name@, key@) {
            Some(id) => r matches Ok(FolderResolution::Found(found)) && found@ == id,
            None => if !create_if_missing {
                r matches Ok(FolderResolution::Missing)
            } else if key@.len() < 64 {
                r matches Err(e) && e == Error::KeyTooShort
            } else if encode_utf8(name@).len() > MAX_PLAINTEXT_LEN {
                r matches Err(e) && e == Error::PlaintextTooLong
            } else {
                r matches Ok(FolderResolution::Create(encrypted)) && decrypt_text_spec(
                    encrypted@,
                    key@,
                ) == Some(name@)
            },
        },
{
    match find_folder_id(folders, name, key) {
        Some(id) => Ok(FolderResolution::Found(id)),
        None => {
            if create_if_missing {
                match encrypt_text(name, key) {
                    Ok(encrypted) => Ok(FolderResolution::Create(encrypted)),
                    Err(e) => Err(e),
                }
            } else {
                Ok(FolderResolution::Missing)
            }
        },
    }
}

/// Once a folder has been created for a name, resolving the name again finds
/// that folder: in any list of folders in which a folder has the name and
/// every folder with the name has the id `id`, the name resolves to `id`.
pub proof fn lemma_created_folder_is_found(
    folders: Seq<FolderData>,
    name: Seq<char>,
    key: Seq<u8>,
    id: Seq<char>,
)
    requires
        exists|i: int| 0 <= i < folders.len() && folder_is_named(#[trigger] folders[i], name, key),
        forall|i: int|
            0 <= i < folders.len() && folder_is_named(#[trigger] folders[i], name, key)
                ==> folders[i].id@ == id,
    ensures
        find_folder_spec(folders, name, key) == Some(id),
{
    let p = is_folder_named(folders, name, key);
    lemma_first_index(folders.len() as int, 0, p);
    let w = choose|i: int| 0 <= i < folders.len() && folder_is_named(#[trigger] folders[i], name, key);
    assert(p(w));
    let k = first_index(folders.len() as int, 0, p);
    assert(p(k));
}

} // verus!
