//! Deleting everything in the vault.

use crate::crypto::aes::{
    decrypt_aes256_cbc_hmac, decrypt_aes256_cbc_raw, decrypt_mac_spec, decrypt_raw_spec,
};
use crate::crypto::field::{string_from_utf8, utf8_text};
use vstd::prelude::*;

verus! {

/// The characters of `???`, shown for a name that is not text.
pub open spec fn not_text_spec() -> Seq<char> {
    seq!['?', '?', '?']
}

/// The characters of `<decryption failed>`.
pub open spec fn not_decrypted_spec() -> Seq<char> {
    seq![
        '<', 'd', 'e', 'c', 'r', 'y', 'p', 't', 'i', 'o', 'n', ' ', 'f', 'a', 'i', 'l', 'e', 'd',
        '>',
    ]
}

/// The name that is shown for what is deleted: the decrypted name; `???`
/// where it decrypts to something that is no text; `<decryption failed>`
/// where it does not decrypt. The legacy form without MAC is read only
/// where `with_raw` allows it.
pub open spec fn display_name_spec(name: Seq<char>, key: Seq<u8>, with_raw: bool) -> Seq<char> {
    match decrypt_mac_spec(name, key) {
        Ok(bytes) => match utf8_text(bytes) {
            Some(s) => s,
            None => not_text_spec(),
        },
        Err(_) => if with_raw {
            match decrypt_raw_spec(name, key) {
                Ok(bytes) => match utf8_text(bytes) {
                    Some(s) => s,
                    None => not_text_spec(),
                },
                Err(_) => not_decrypted_spec(),
            }
        } else {
            not_decrypted_spec()
        },
    }
}

/// The text of some bytes, or `???`.
fn text_or_marks(bytes: Vec<u8>) -> (s: String)
    ensures
        s@ == match utf8_text(bytes@) {
            Some(t) => t,
            None => not_text_spec(),
        },
{
    proof {
        reveal_strlit("???");
    }
    assert("???"@ =~= not_text_spec());
    match string_from_utf8(bytes) {
        Some(s) => s,
        None => "???".to_owned(),
    }
}

/// The name that is shown for a cipher or a folder that is deleted.
pub fn purge_all(name: &str, key: &[u8], with_raw: bool) -> (shown: String)
    ensures
        shown@ == display_name_spec(name@, key@, with_raw),
{
    proof {
        reveal_strlit("<decryption failed>");
    }
    assert("<decryption failed>"@ =~= not_decrypted_spec());
    match decrypt_aes256_cbc_hmac(name, key) {
        Ok(bytes) => text_or_marks(bytes),
        Err(_) => {
            if with_raw {
                match decrypt_aes256_cbc_raw(name, key) {
                    Ok(bytes) => text_or_marks(bytes),
                    Err(_) => "<decryption failed>".to_owned(),
                }
            } else {
                "<decryption failed>".to_owned()
            }
        },
    }
}

} // verus!
