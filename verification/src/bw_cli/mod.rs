//! The vault's command-line client, as a fallback for what the API refuses.

pub mod session;

pub use session::BwCli;
