//! A cipher of the vault as the rotation reads and changes it. What else the
//! cipher's JSON holds is not kept here; whoever fetched it puts the
//! changes back.

use vstd::prelude::*;

verus! {

/// The login block of a cipher: user name and password, each a cipher
/// string.
#[derive(Debug)]
pub struct ItemLogin {
    pub username: Option<String>,
    pub password: Option<String>,
}

/// A custom field of a cipher. Name and value are cipher strings; either is
/// `None` where the JSON holds no string there.
#[derive(Debug)]
pub struct ItemField {
    pub name: Option<String>,
    pub value: Option<String>,
    /// The type of the field; 1 is a hidden field.
    pub field_type: Option<i64>,
}

/// A cipher.
#[derive(Debug)]
pub struct VaultItem {
    pub id: Option<String>,
    /// The encrypted name.
    pub name: Option<String>,
    /// The notes, in plain text: they carry the marker of the last rotation.
    pub notes: Option<String>,
    /// The login block; `None` where the JSON has none or has `null`.
    pub login: Option<ItemLogin>,
    /// The custom fields; `None` where the JSON holds no array there.
    pub fields: Option<Vec<ItemField>>,
    pub folder_id: Option<String>,
    pub collection_ids: Option<Vec<String>>,
    /// Whether the JSON holds the read-only list of collections.
    pub has_collections: bool,
}

/// The type of a hidden field.
pub const HIDDEN_FIELD: i64 = 1;

} // verus!
