//! The configuration of the ciphers to create.

use vstd::prelude::*;

verus! {

/// The arguments of the command.
pub struct CreateItemsArgs {
    pub base_url: String,
    pub client_id: Option<String>,
    pub client_secret: Option<String>,
    pub org_id: Option<String>,
    /// The organization key, decrypted, in base64.
    pub org_key: Option<String>,
    pub config: String,
    /// Whether the manifests of the repository are read in place of the
    /// configuration file.
    pub scan: bool,
    pub secret: Option<String>,
}

/// The secrets to create.
pub struct Config {
    pub secrets: Vec<SecretConfig>,
}

/// One secret to create.
pub struct SecretConfig {
    pub name: String,
    pub env: Option<String>,
    pub vaultwarden: Option<VaultwardenConfig>,
    pub keys: Option<Vec<KeyConfig>>,
    /// The names of the source files, each once.
    pub source_files: Option<Vec<(String, String)>>,
    pub namespace: Option<String>,
    pub secret_name: Option<String>,
    pub argocd_app: Option<String>,
    pub notes: Option<String>,
    pub repo: Option<String>,
    pub path: Option<String>,
    pub access_users: Option<Vec<String>>,
}

/// A key, by its name alone or with what else the configuration says of it.
#[derive(Clone)]
pub enum KeyConfig {
    Name(String),
    Def(KeyDef),
}

/// A key with its definition.
#[derive(Clone)]
pub struct KeyDef {
    pub name: String,
    pub type_: Option<String>,
    pub length: Option<usize>,
    pub value: Option<String>,
    pub generator: Option<String>,
}

impl KeyConfig {
    /// The name of the key.
    pub open spec fn name_spec(&self) -> Seq<char> {
        match self {
            KeyConfig::Name(s) => s@,
            KeyConfig::Def(d) => d.name@,
        }
    }

    /// The name of the key.
    pub fn name(&self) -> (r: &str)
        ensures
            r@ == self.name_spec(),
    {
        match self {
            KeyConfig::Name(s) => s.as_str(),
            KeyConfig::Def(d) => d.name.as_str(),
        }
    }
}

/// Where the cipher of a secret is filed.
pub struct VaultwardenConfig {
    pub cipher_id: Option<String>,
    pub collection_ids: Option<Vec<String>>,
    pub collections: Option<Vec<String>>,
    pub folder: Option<String>,
    pub notes: Option<String>,
}

} // verus!
