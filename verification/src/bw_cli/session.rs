//! A session of the command-line client.

use vstd::prelude::*;

verus! {

/// An unlocked session, and the organization its commands speak of.
pub struct BwCli {
    pub session: String,
    pub org_id: Option<String>,
}

impl BwCli {
    /// A session with the given key.
    pub fn new(session: String, org_id: Option<String>) -> (cli: Self)
        ensures
            cli.session == session,
            cli.org_id == org_id,
    {
        Self { session, org_id }
    }

    /// Makes the commands of the session speak of `org_id`.
    pub fn set_org_id(&mut self, org_id: String)
        ensures
            final(self).org_id == Some(org_id),
            final(self).session == old(self).session,
    {
        self.org_id = Some(org_id);
    }
}

} // verus!
