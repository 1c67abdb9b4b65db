//! Printing the organization key.

use vstd::prelude::*;

verus! {

/// The arguments of the command.
pub struct GetKeyArgs {
    pub base_url: String,
    pub email: Option<String>,
    pub session_key: Option<String>,
}

} // verus!
