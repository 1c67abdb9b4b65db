//! Sealing the credentials that the rotation job runs with.

use crate::text::enclose;
use vstd::prelude::*;

verus! {

/// The arguments of the command.
pub struct SetupArgs {
    pub client_id: Option<String>,
    pub client_secret: Option<String>,
    pub git_pat: Option<String>,
    pub output: String,
}

/// A secret of the cluster up to the value of the client id.
pub open spec fn token_head() -> Seq<char> {
    "apiVersion: v1\nkind: Secret\nmetadata:\n  name: vaultwarden-rotation-token\n  namespace: argocd\ntype: Opaque\nstringData:\n  BW_CLIENTID: \""@
}

/// What stands between the client id and the client secret.
pub open spec fn token_secret_line() -> Seq<char> {
    "\"\n  BW_CLIENTSECRET: \""@
}

/// What stands between the client secret and the access token.
pub open spec fn token_pat_line() -> Seq<char> {
    "\"\n  GIT_PAT: \""@
}

/// The end of the secret.
pub open spec fn token_tail() -> Seq<char> {
    "\"\n"@
}

/// The secret `vaultwarden-rotation-token` of the namespace `argocd` with
/// the three credentials as its string data, as YAML.
pub open spec fn token_secret_spec(
    client_id: Seq<char>,
    client_secret: Seq<char>,
    git_pat: Seq<char>,
) -> Seq<char> {
    token_head() + client_id + token_secret_line() + client_secret + token_pat_line() + git_pat
        + token_tail()
}

/// Whether all three credentials are there.
pub open spec fn credentials_complete(
    client_id: Seq<char>,
    client_secret: Seq<char>,
    git_pat: Seq<char>,
) -> bool {
    client_id.len() > 0 && client_secret.len() > 0 && git_pat.len() > 0
}

/// The secret to seal for the rotation job, as YAML; none where one of the
/// credentials is empty.
pub fn token_secret(client_id: &str, client_secret: &str, git_pat: &str) -> (r: Option<String>)
    ensures
        r is Some <==> credentials_complete(client_id@, client_secret@, git_pat@),
        r matches Some(yaml) ==> yaml@ == token_secret_spec(client_id@, client_secret@, git_pat@),
{
    if client_id.unicode_len() == 0 || client_secret.unicode_len() == 0 || git_pat.unicode_len() == 0 {
        return None;
    }
    let first = enclose(
        "apiVersion: v1\nkind: Secret\nmetadata:\n  name: vaultwarden-rotation-token\n  namespace: argocd\ntype: Opaque\nstringData:\n  BW_CLIENTID: \"",
        client_id,
        "\"\n  BW_CLIENTSECRET: \"",
    );
    let second = enclose(first.as_str(), client_secret, "\"\n  GIT_PAT: \"");
    let yaml = enclose(second.as_str(), git_pat, "\"\n");
    Some(yaml)
}

} // verus!
