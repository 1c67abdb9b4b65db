//! The creation of the cipher of one secret, as far as it decides anything.

use crate::commands::create_items::types::{SecretConfig, VaultwardenConfig};
use crate::text::clone_strings;
use vstd::prelude::*;

verus! {

/// The collections that the configuration names for a cipher: its ids, or
/// else its names.
pub fn collection_inputs(vw: &VaultwardenConfig) -> (r: Option<Vec<String>>)
    ensures
        match (vw.collection_ids, vw.collections) {
            (Some(ids), _) => r matches Some(v) && v@ == ids@,
            (None, Some(names)) => r matches Some(v) && v@ == names@,
            (None, None) => r is None,
        },
{
    match &vw.collection_ids {
        Some(ids) => Some(clone_strings(ids)),
        None => match &vw.collections {
            Some(names) => Some(clone_strings(names)),
            None => None,
        },
    }
}

/// Where the creation of one collection stands. It begins with the vault
/// being asked.
#[derive(Clone, Copy, Debug, PartialEq, Eq, Structural)]
pub enum EnsureState {
    /// The vault has been asked to create the collection.
    CreatingByApi,
    /// The command-line client has been asked to create the collection.
    CreatingByCli,
    Finished,
}

/// What is to be done for one collection.
#[derive(Clone, Copy, Debug, PartialEq, Eq, Structural)]
pub enum EnsureAction {
    /// The collection was created: use its id.
    Use,
    /// Ask the command-line client to create the collection.
    CreateByCli,
    /// The collection is left out.
    Skip,
}

/// The collections that are created for a cipher: all that the
/// configuration names, where none of them resolved; none, where any did.
/// What does not resolve beside collections that do is left out.
pub open spec fn collections_to_create_spec(inputs: Seq<String>, resolved: Seq<String>) -> Seq<
    String,
> {
    if resolved.len() == 0 {
        inputs
    } else {
        seq![]
    }
}

/// The collections that are created for a cipher.
pub fn collections_to_create(inputs: &Vec<String>, resolved: &Vec<String>) -> (r: Vec<String>)
    ensures
        r@ == collections_to_create_spec(inputs@, resolved@),
{
    if resolved.len() == 0 {
        clone_strings(inputs)
    } else {
        Vec::new()
    }
}

/// What follows an attempt to create a collection. Where the vault refuses,
/// the command-line client is asked, if there is a session of it; where that
/// fails too, or there is none, the collection is left out.
pub open spec fn ensure_step_spec(state: EnsureState, created: bool, cli_available: bool) -> (
    EnsureState,
    EnsureAction,
) {
    match state {
        EnsureState::CreatingByApi => if created {
            (EnsureState::Finished, EnsureAction::Use)
        } else if cli_available {
            (EnsureState::CreatingByCli, EnsureAction::CreateByCli)
        } else {
            (EnsureState::Finished, EnsureAction::Skip)
        },
        EnsureState::CreatingByCli => if created {
            (EnsureState::Finished, EnsureAction::Use)
        } else {
            (EnsureState::Finished, EnsureAction::Skip)
        },
        EnsureState::Finished => (EnsureState::Finished, EnsureAction::Skip),
    }
}

/// What follows an attempt to create a collection.
pub fn ensure_step(state: EnsureState, created: bool, cli_available: bool) -> (next: (
    EnsureState,
    EnsureAction,
))
    ensures
        next == ensure_step_spec(state, created, cli_available),
{
    match state {
        EnsureState::CreatingByApi => if created {
            (EnsureState::Finished, EnsureAction::Use)
        } else if cli_available {
            (EnsureState::CreatingByCli, EnsureAction::CreateByCli)
        } else {
            (EnsureState::Finished, EnsureAction::Skip)
        },
        EnsureState::CreatingByCli => if created {
            (EnsureState::Finished, EnsureAction::Use)
        } else {
            (EnsureState::Finished, EnsureAction::Skip)
        },
        EnsureState::Finished => (EnsureState::Finished, EnsureAction::Skip),
    }
}

/// Why no cipher is created for a secret.
#[derive(Clone, Copy, Debug, PartialEq, Eq, Structural)]
pub enum SkipReason {
    /// The secret says nothing of the vault.
    NoVaultSection,
    /// The secret names no collections.
    NoCollections,
    /// None of the collections resolved, and none could be created.
    NoCollectionResolved,
    /// The cipher exists already.
    Exists,
}

/// What is done for a secret.
#[derive(Clone, Copy, Debug, PartialEq, Eq, Structural)]
pub enum CreateDecision {
    Skip(SkipReason),
    Create,
}

/// What is done for a secret, given the ids of the collections that its
/// cipher goes into and whether the cipher exists: a cipher is created only
/// for a secret that names collections, of which at least one resolved or
/// was created, and that has no cipher yet.
pub open spec fn create_decision_spec(
    secret: SecretConfig,
    collection_ids: Seq<String>,
    exists: bool,
) -> CreateDecision {
    match secret.vaultwarden {
        None => CreateDecision::Skip(SkipReason::NoVaultSection),
        Some(vw) => if vw.collection_ids is None && vw.collections is None {
            CreateDecision::Skip(SkipReason::NoCollections)
        } else if collection_ids.len() == 0 {
            CreateDecision::Skip(SkipReason::NoCollectionResolved)
        } else if exists {
            CreateDecision::Skip(SkipReason::Exists)
        } else {
            CreateDecision::Create
        },
    }
}

/// Decides what is done for a secret.
pub fn process_secret(secret: &SecretConfig, collection_ids: &Vec<String>, exists: bool) -> (d:
    CreateDecision)
    ensures
        d == create_decision_spec(*secret, collection_ids@, exists),
{
    match &secret.vaultwarden {
        None => CreateDecision::Skip(SkipReason::NoVaultSection),
        Some(vw) => {
            if vw.collection_ids.is_none() && vw.collections.is_none() {
                CreateDecision::Skip(SkipReason::NoCollections)
            } else if collection_ids.len() == 0 {
                CreateDecision::Skip(SkipReason::NoCollectionResolved)
            } else if exists {
                CreateDecision::Skip(SkipReason::Exists)
            } else {
                CreateDecision::Create
            }
        },
    }
}

} // verus!
