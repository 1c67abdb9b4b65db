//! The flows that lead from credentials to keys.

pub mod auth;

pub use auth::{
    candidate_keys, derive_login_keys, find_org_key, ladder_step, unlock_vault, unwrap_user_key,
    LadderAction, LadderEvent, LadderInput, LadderState, LoginKeys, Unlocked,
};
