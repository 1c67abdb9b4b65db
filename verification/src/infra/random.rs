//! Random values.

use rand::Rng;
use vstd::prelude::*;

verus! {

/// The letters and digits of ASCII.
pub open spec fn is_alphanumeric_spec(c: char) -> bool {
    ||| 'a' <= c <= 'z'
    ||| 'A' <= c <= 'Z'
    ||| '0' <= c <= '9'
}

/// `Rng::sample` of `rand::thread_rng()` with `Alphanumeric`: a letter or a
/// digit of ASCII. Which one comes is left open.
#[verifier::external_body]
fn random_alphanumeric() -> (c: char)
    ensures
        is_alphanumeric_spec(c),
{
    char::from(rand::thread_rng().sample(rand::distributions::Alphanumeric))
}

/// Whether `s` is made of letters and digits of ASCII.
pub open spec fn is_alphanumeric_text(s: Seq<char>) -> bool {
    forall|i: int| 0 <= i < s.len() ==> is_alphanumeric_spec(#[trigger] s[i])
}

/// A random text of `len` letters and digits.
pub fn get_random_string(len: usize) -> (s: String)
    ensures
        s@.len() == len,
        is_alphanumeric_text(s@),
{
    let mut chars: Vec<char> = Vec::new();
    let mut i: usize = 0;
    while i < len
        invariant
            i <= len,
            chars@.len() == i,
            is_alphanumeric_text(chars@),
        decreases len - i,
    {
        chars.push(random_alphanumeric());
        i += 1;
    }
    crate::text::string_of(chars.as_slice())
}

} // verus!
