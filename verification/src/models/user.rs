//! The users of the identity provider whose passwords are rotated.

use crate::models::authentik::AuthentikTarget;
use crate::models::vaultwarden_target::VaultwardenTarget;
use vstd::prelude::*;

verus! {

/// One user.
#[derive(Debug, Clone)]
pub struct UserDefinition {
    pub username: String,
    pub email: String,
    pub groups: Vec<String>,
    pub authentik: Option<AuthentikTarget>,
    pub vaultwarden: VaultwardenTarget,
}

} // verus!
