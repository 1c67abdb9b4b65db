//! Listing the collections of an organization.

use vstd::prelude::*;

verus! {

/// The arguments of the command.
pub struct ListCollectionsArgs {
    pub base_url: String,
    pub client_id: Option<String>,
    pub client_secret: Option<String>,
    pub org_id: Option<String>,
}

} // verus!
