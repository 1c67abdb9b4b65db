//! Writing a first manifest for an application.

use crate::models::config::{RotationManifest, SecretDefinition};
use crate::models::k8s::KubernetesTarget;
use crate::models::keys::{KeyDefinition, KeyType};
use crate::models::vaultwarden_target::VaultwardenTarget;
use crate::text::{chars_of, enclose, string_views, trim, trim_spec};
use vstd::prelude::*;

verus! {

/// The arguments of the command.
pub struct ScaffoldArgs {
    pub app: Option<String>,
    pub namespace: Option<String>,
    pub env: String,
    pub output: Option<String>,
}

/// The length of the random password of a first manifest.
pub const PASSWORD_LENGTH: usize = 32;

/// The name of the secret with the administrator's credentials of an
/// application.
pub open spec fn credentials_name_spec(app: Seq<char>) -> Seq<char> {
    app + "-admin-credentials"@
}

/// The namespace of an application in an environment, where none is given.
pub open spec fn default_namespace_spec(app: Seq<char>, env: Seq<char>) -> Seq<char> {
    app + "-"@ + env
}

/// Where the manifest of an application is written, where no place is given.
pub open spec fn default_output_spec(app: Seq<char>) -> Seq<char> {
    "apps/<category>/"@ + app + "/rotation.yaml"@
}

/// The description of the secret.
pub open spec fn description_spec(app: Seq<char>, env: Seq<char>) -> Seq<char> {
    "Admin credentials for "@ + app + " ("@ + env + ")"@
}

/// The notes of the cipher.
pub open spec fn notes_spec(app: Seq<char>) -> Seq<char> {
    "Rotated by GitOps Rotator for "@ + app
}

/// The path of the sealed file in an environment.
pub open spec fn sealed_path_spec(env: Seq<char>) -> Seq<char> {
    "overlays/"@ + env + "/components/sealed_secrets/sealed-admin-credentials.yaml"@
}

/// Whether `key` is the password of a first manifest: random, of 32
/// characters.
pub open spec fn is_password_key(key: KeyDefinition) -> bool {
    &&& key.name@ == "password"@
    &&& key.key_type == KeyType::Random
    &&& key.length == Some(PASSWORD_LENGTH)
    &&& key.value is None
    &&& key.generator is None
    &&& key.source is None
}

/// Whether `key` is the user name of a first manifest: the static value
/// `admin`.
pub open spec fn is_username_key(key: KeyDefinition) -> bool {
    &&& key.name@ == "username"@
    &&& key.key_type == KeyType::Static
    &&& key.length is None
    &&& key.value matches Some(v)
    &&& v@ == "admin"@
    &&& key.generator is None
    &&& key.source is None
}

/// Whether `secret` is the secret of a first manifest for an application in
/// an environment and a namespace: the administrator's credentials, a random
/// password and the user name `admin`, filed in the collection
/// `infrastructure-team`, with no cipher chosen yet.
pub open spec fn is_first_secret(
    secret: SecretDefinition,
    app: Seq<char>,
    env: Seq<char>,
    namespace: Seq<char>,
) -> bool {
    &&& secret.name@ == credentials_name_spec(app)
    &&& secret.description matches Some(d)
    &&& d@ == description_spec(app, env)
    &&& secret.vaultwarden.cipher_id is None
    &&& secret.vaultwarden.name is None
    &&& secret.vaultwarden.collection_ids is None
    &&& secret.vaultwarden.collections matches Some(c)
    &&& string_views(c@) == seq!["infrastructure-team"@]
    &&& secret.vaultwarden.folder is None
    &&& secret.vaultwarden.notes matches Some(n)
    &&& n@ == notes_spec(app)
    &&& secret.vaultwarden.fields is None
    &&& secret.kubernetes.namespace@ == namespace
    &&& secret.kubernetes.secret_name@ == credentials_name_spec(app)
    &&& secret.kubernetes.path@ == sealed_path_spec(env)
    &&& secret.kubernetes.labels is None
    &&& secret.additional_kubernetes is None
    &&& secret.authentik is None
    &&& secret.keys@.len() == 2
    &&& is_password_key(secret.keys@[0])
    &&& is_username_key(secret.keys@[1])
    &&& secret.policy is None
    &&& secret.hooks is None
    &&& secret.access_users is None
}

/// Whether `manifest` is the first manifest for an application: version
/// `v1`, one secret, no users.
pub open spec fn is_first_manifest(
    manifest: RotationManifest,
    app: Seq<char>,
    env: Seq<char>,
    namespace: Seq<char>,
) -> bool {
    &&& manifest.version@ == "v1"@
    &&& manifest.secrets@.len() == 1
    &&& is_first_secret(manifest.secrets@[0], app, env, namespace)
    &&& manifest.users@.len() == 0
}

/// The namespace of an application in an environment, where none is given.
pub fn default_namespace(app: &str, env: &str) -> (r: String)
    ensures
        r@ == default_namespace_spec(app@, env@),
{
    enclose(app, "-", env)
}

/// Where the manifest of an application is written, where no place is given.
pub fn default_output_path(app: &str) -> (r: String)
    ensures
        r@ == default_output_spec(app@),
{
    enclose("apps/<category>/", app, "/rotation.yaml")
}

/// The first manifest for an application.
pub fn first_manifest(app: &str, env: &str, namespace: &str) -> (manifest: RotationManifest)
    ensures
        is_first_manifest(manifest, app@, env@, namespace@),
{
    let name = enclose("", app, "-admin-credentials");
    let secret_name = enclose("", app, "-admin-credentials");
    let described = enclose("Admin credentials for ", app, " (");
    let description = enclose(described.as_str(), env, ")");
    let notes = enclose("Rotated by GitOps Rotator for ", app, "");
    let path = enclose("overlays/", env, "/components/sealed_secrets/sealed-admin-credentials.yaml");
    let namespace = enclose("", namespace, "");
    proof {
        reveal_strlit("");
        assert(""@ + app@ == app@);
        assert(""@ + namespace@ + ""@ == namespace@);
        assert("Rotated by GitOps Rotator for "@ + app@ + ""@ == notes_spec(app@));
    }
    let collections = vec!["infrastructure-team".to_owned()];
    assert(string_views(collections@) =~= seq!["infrastructure-team"@]);
    let password = KeyDefinition {
        name: "password".to_owned(),
        key_type: KeyType::Random,
        length: Some(PASSWORD_LENGTH),
        value: None,
        generator: None,
        source: None,
    };
    let username = KeyDefinition {
        name: "username".to_owned(),
        key_type: KeyType::Static,
        length: None,
        value: Some("admin".to_owned()),
        generator: None,
        source: None,
    };
    let secret = SecretDefinition {
        name,
        description: Some(description),
        vaultwarden: VaultwardenTarget {
            cipher_id: None,
            name: None,
            collection_ids: None,
            collections: Some(collections),
            folder: None,
            notes: Some(notes),
            fields: None,
        },
        kubernetes: KubernetesTarget { namespace, secret_name, path, labels: None },
        additional_kubernetes: None,
        authentik: None,
        keys: vec![password, username],
        policy: None,
        hooks: None,
        access_users: None,
    };
    RotationManifest { version: "v1".to_owned(), secrets: vec![secret], users: Vec::new() }
}

/// Whether an answer agrees to overwrite a file: `y` or `Y`, with white
/// space around it or without.
pub open spec fn agrees_spec(answer: Seq<char>) -> bool {
    trim_spec(answer) == seq!['y'] || trim_spec(answer) == seq!['Y']
}

/// Whether an answer agrees to overwrite a file.
pub fn agrees_to_overwrite(answer: &str) -> (r: bool)
    ensures
        r == agrees_spec(answer@),
{
    let chars = chars_of(answer);
    let trimmed = trim(chars.as_slice());
    let r = trimmed.len() == 1 && (trimmed[0] == 'y' || trimmed[0] == 'Y');
    assert(r == agrees_spec(answer@)) by {
        if trimmed@.len() == 1 {
            assert(trimmed@ =~= seq![trimmed@[0]]);
        }
        assert(seq!['y'].len() == 1 && seq!['y'][0] == 'y');
        assert(seq!['Y'].len() == 1 && seq!['Y'][0] == 'Y');
    }
    r
}

} // verus!
