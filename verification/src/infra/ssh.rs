//! SSH key pairs as the key generator writes them.

use crate::text::{chars_of, string_of, trim, trim_spec};
use vstd::prelude::*;

verus! {

/// The two halves of a fresh key pair, from the files that the key generator
/// wrote: each without the white space around it.
pub fn generate_ssh_keypair(private_file: &str, public_file: &str) -> (pair: (String, String))
    ensures
        pair.0@ == trim_spec(private_file@),
        pair.1@ == trim_spec(public_file@),
{
    let private_chars = chars_of(private_file);
    let public_chars = chars_of(public_file);
    let private_key = trim(private_chars.as_slice());
    let public_key = trim(public_chars.as_slice());
    (string_of(private_key.as_slice()), string_of(public_key.as_slice()))
}

} // verus!
