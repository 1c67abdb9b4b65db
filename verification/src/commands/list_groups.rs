//! Listing the groups of an organization.

use vstd::prelude::*;

verus! {

/// The arguments of the command.
pub struct ListGroupsArgs {
    pub base_url: String,
    pub org_id: Option<String>,
}

} // verus!
