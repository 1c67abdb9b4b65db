//! The rules of a rotation: when a secret is due, what a cipher already
//! holds, which collection a name means, and where a key's value comes from.

pub mod parsing;
pub mod policy;
pub mod resolution;
