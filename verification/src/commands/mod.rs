//! The commands of the tool, as far as they decide anything.

pub mod check;
pub mod cleanup;
pub mod create_items;
pub mod find;
pub mod get_key;
pub mod list_collections;
pub mod list_groups;
pub mod rotate;
pub mod scaffold;
pub mod setup;
