//! The Kubernetes secret that a rotation seals and writes.

use crate::models::k8s::KubernetesTarget;
use crate::text::clone_pairs;
use crate::text_map::{pair_views, put_all, TextMap};
use vstd::prelude::*;

verus! {

/// A Kubernetes secret of type `Opaque`, before it is sealed.
#[derive(Debug)]
pub struct SecretManifest {
    pub name: String,
    pub namespace: String,
    pub labels: Vec<(String, String)>,
    /// The values of the secret, in plain text.
    pub string_data: Vec<(String, String)>,
}

/// A secret to seal, and the file that takes the sealed secret.
#[derive(Debug)]
pub struct SealedWrite {
    pub manifest: SecretManifest,
    /// The root of the repository.
    pub git_root: String,
    /// The path of the file, relative to the root of the repository.
    pub path: String,
}

/// The characters of `managed-by`.
pub open spec fn managed_by_spec() -> Seq<char> {
    seq!['m', 'a', 'n', 'a', 'g', 'e', 'd', '-', 'b', 'y']
}

/// The characters of `rotator-helper`.
pub open spec fn rotator_helper_spec() -> Seq<char> {
    seq!['r', 'o', 't', 'a', 't', 'o', 'r', '-', 'h', 'e', 'l', 'p', 'e', 'r']
}

/// The labels of the secret: `managed-by` with `rotator-helper`, then the
/// labels of the target, each set in its turn.
pub open spec fn labels_spec(target: KubernetesTarget) -> Seq<(Seq<char>, Seq<char>)> {
    let base = seq![(managed_by_spec(), rotator_helper_spec())];
    match target.labels {
        Some(own) => put_all(base, pair_views(own@)),
        None => base,
    }
}

/// Whether `m` is the secret of the target with the values of the rotation.
pub open spec fn is_manifest_of(
    m: SecretManifest,
    target: KubernetesTarget,
    pairs: Seq<(Seq<char>, Seq<char>)>,
) -> bool {
    &&& m.name@ == target.secret_name@
    &&& m.namespace@ == target.namespace@
    &&& pair_views(m.labels@) == labels_spec(target)
    &&& pair_views(m.string_data@) == pairs
}

/// The labels of the secret.
fn secret_labels(target: &KubernetesTarget) -> (labels: Vec<(String, String)>)
    ensures
        pair_views(labels@) == labels_spec(*target),
{
    proof {
        reveal_strlit("managed-by");
        reveal_strlit("rotator-helper");
    }
    let mut labels = TextMap::new();
    let name = "managed-by".to_owned();
    let value = "rotator-helper".to_owned();
    assert(name@ =~= managed_by_spec());
    assert(value@ =~= rotator_helper_spec());
    labels.insert(name, value);
    assert(labels.pairs() =~= seq![(managed_by_spec(), rotator_helper_spec())]);
    match &target.labels {
        Some(own) => {
            labels.extend(own);
        },
        None => {},
    }
    labels.entries
}

/// The secret of the target with the values of the rotation.
pub fn build_secret_manifest(target: &KubernetesTarget, secret_data: &TextMap) -> (m:
    SecretManifest)
    ensures
        is_manifest_of(m, *target, secret_data.pairs()),
{
    SecretManifest {
        name: target.secret_name.clone(),
        namespace: target.namespace.clone(),
        labels: secret_labels(target),
        string_data: clone_pairs(&secret_data.entries),
    }
}

/// The path of the certificate that secrets are sealed with, relative to the
/// root of the repository. Where the file exists, the sealing tool is told
/// to use it.
pub fn sealing_certificate_path() -> (path: String)
    ensures
        path@ == "apps/security/sealed-secrets/secrets/sealed-secrets-public-key.crt"@,
{
    "apps/security/sealed-secrets/secrets/sealed-secrets-public-key.crt".to_owned()
}

/// What is to be sealed and written for a target: nothing in a dry run, and
/// otherwise the secret with the values of the rotation, for the file of the
/// target under the root of the repository.
pub fn generate_and_write_secret(
    target: &KubernetesTarget,
    secret_data: &TextMap,
    git_root: &str,
    dry_run: bool,
) -> (r: Option<SealedWrite>)
    ensures
        dry_run ==> r is None,
        !dry_run ==> ({
            &&& r matches Some(w)
            &&& is_manifest_of(w.manifest, *target, secret_data.pairs())
            &&& w.git_root@ == git_root@
            &&& w.path@ == target.path@
        }),
{
    if dry_run {
        None
    } else {
        Some(
            SealedWrite {
                manifest: build_secret_manifest(target, secret_data),
                git_root: git_root.to_owned(),
                path: target.path.clone(),
            },
        )
    }
}

} // verus!
