//! The records of the vault's API, as far as the library reads them.

use vstd::prelude::*;

verus! {

/// The key derivation that the server wants for an account.
#[derive(Debug, Clone, Copy, PartialEq, Eq, Structural)]
pub struct KdfInfo {
    /// 0 for PBKDF2, 1 for Argon2id.
    pub kdf: i32,
    pub kdf_iterations: u32,
    /// Memory in MiB, for Argon2id.
    pub kdf_memory: Option<u32>,
    pub kdf_parallelism: Option<u32>,
}

/// What a sync returns.
#[derive(Debug)]
pub struct SyncData {
    pub profile: Profile,
    pub folders: Vec<FolderData>,
    pub ciphers: Option<Vec<Cipher>>,
}

/// A cipher of the vault: its id and its encrypted name.
#[derive(Debug)]
pub struct Cipher {
    pub id: String,
    pub name: String,
}

/// An organization the account belongs to, with its key as the account
/// holds it.
#[derive(Debug)]
pub struct Organization {
    pub id: String,
    pub name: String,
    pub key: Option<String>,
}

/// The account: its encrypted symmetric key, its encrypted private key and
/// its organizations.
#[derive(Debug)]
pub struct Profile {
    pub id: String,
    pub email: String,
    pub key: String,
    pub private_key: Option<String>,
    pub organizations: Option<Vec<Organization>>,
}

/// A collection of an organization. Its name is plain or a cipher string.
#[derive(Debug, Clone)]
pub struct Collection {
    pub id: String,
    pub organization_id: String,
    pub name: String,
    pub external_id: Option<String>,
}

/// A folder to create, by its encrypted name.
#[derive(Debug)]
pub struct Folder {
    pub name: String,
}

/// A folder of the account, with its encrypted name.
#[derive(Debug, Clone)]
pub struct FolderData {
    pub id: String,
    pub name: String,
}

/// A member of an organization.
#[derive(Debug, Clone)]
pub struct Member {
    pub id: String,
    pub user_id: Option<String>,
    pub name: Option<String>,
    pub email: Option<String>,
    pub status: i32,
    pub member_type: i32,
}

/// What a member may do in a collection.
#[derive(Debug, Clone)]
pub struct MemberCollectionAccess {
}

} // verus!
