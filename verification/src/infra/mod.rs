//! What the library takes from the machine: the clock and randomness; and
//! what it makes of the answers of the external tools.

pub mod clock;
pub mod fs;
pub mod k8s;
pub mod random;
pub mod ssh;
