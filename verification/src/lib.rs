//! Credential rotation for a Bitwarden-compatible vault: the key ladder, the
//! cipher strings, the resolvers, the rotation policy and the per-secret
//! rotation steps, with their contracts.

pub mod bw_cli;
pub mod commands;
pub mod crypto;
pub mod error;
pub mod flows;
pub mod infra;
pub mod logic;
pub mod models;
pub mod search;
pub mod text;
pub mod text_map;
pub mod vaultwarden;
