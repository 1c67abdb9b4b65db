//! What the vault sends and takes.

pub mod client;
pub mod folders;
pub mod item;
pub mod models;

pub use folders::{find_folder_id, resolve_folder_id, FolderResolution};
pub use item::{ItemField, ItemLogin, VaultItem, HIDDEN_FIELD};
pub use models::{
    Cipher, Collection, Folder, FolderData, KdfInfo, Member, MemberCollectionAccess,
    Organization, Profile, SyncData,
};
