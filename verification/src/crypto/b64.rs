//! Standard base64 with padding.

use base64::Engine;
use vstd::prelude::*;

verus! {

/// The standard base64 text, with padding, of `bytes`.
pub uninterp spec fn base64_encode_spec(bytes: Seq<u8>) -> Seq<char>;

/// The bytes that the standard base64 text `text` stands for, where it is
/// canonical base64 with padding.
pub uninterp spec fn base64_decode_spec(text: Seq<char>) -> Option<Seq<u8>>;

/// The characters of standard base64: letters, digits, `+`, `/` and the
/// padding `=`.
pub open spec fn is_base64_char(c: char) -> bool {
    ||| 'A' <= c <= 'Z'
    ||| 'a' <= c <= 'z'
    ||| '0' <= c <= '9'
    ||| c == '+'
    ||| c == '/'
    ||| c == '='
}

/// The length of the base64 text of `n` bytes: four characters for every
/// three bytes begun.
pub open spec fn base64_len(n: nat) -> nat {
    4 * ((n + 2) / 3)
}

/// The longest input that `base64_encode` takes.
pub const MAX_ENCODE_LEN: usize = 0x3000_0020;

/// `Engine::encode` of `base64::engine::general_purpose::STANDARD`. The
/// result is named by `base64_encode_spec`; it has `base64_len` characters,
/// all of the base64 alphabet, and decodes to `bytes`. Longer inputs are left
/// out: the crate panics where the text's length does not fit in `usize`.
#[verifier::external_body]
pub(crate) fn base64_encode(bytes: &[u8]) -> (text: String)
    requires
        bytes.len() <= MAX_ENCODE_LEN,
    ensures
        text@ == base64_encode_spec(bytes@),
        text@.len() == base64_len(bytes@.len()),
        forall|i: int| 0 <= i < text@.len() ==> is_base64_char(#[trigger] text@[i]),
        base64_decode_spec(text@) == Some(bytes@),
{
    base64::engine::general_purpose::STANDARD.encode(bytes)
}

/// `Engine::decode` of `base64::engine::general_purpose::STANDARD`: the
/// bytes named by `base64_decode_spec`, or `None` where the crate reports a
/// decode error.
#[verifier::external_body]
pub(crate) fn base64_decode(text: &str) -> (r: Option<Vec<u8>>)
    ensures
        r matches Some(b) ==> base64_decode_spec(text@) == Some(b@),
        r is None ==> base64_decode_spec(text@) is None,
{
    base64::engine::general_purpose::STANDARD.decode(text).ok()
}

} // verus!
