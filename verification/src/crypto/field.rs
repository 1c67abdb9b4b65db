//! Text values as the vault stores them: UTF-8, encrypted and sealed.

use crate::crypto::aes::{
    decrypt_aes256_cbc_hmac, decrypt_aes256_cbc_raw, decrypt_mac_spec, decrypt_raw_spec,
    encrypt_aes256_cbc_hmac, has_sealed_shape, is_sealed, MAX_PLAINTEXT_LEN,
};
use crate::error::Error;
use vstd::prelude::*;
use vstd::string::StringSliceAdditionalSpecFns;
use vstd::utf8::{decode_utf8, encode_utf8, encode_utf8_decode_utf8, encode_utf8_valid_utf8, valid_utf8};

verus! {

/// `String::from_utf8`: the text that the bytes encode, or `None` where they
/// are not UTF-8.
#[verifier::external_body]
pub(crate) fn string_from_utf8(bytes: Vec<u8>) -> (r: Option<String>)
    ensures
        r is Some <==> valid_utf8(bytes@),
        r matches Some(s) ==> s@ == decode_utf8(bytes@),
{
    String::from_utf8(bytes).ok()
}

/// The text that the bytes encode, where they are UTF-8.
pub open spec fn utf8_text(bytes: Seq<u8>) -> Option<Seq<char>> {
    if valid_utf8(bytes) {
        Some(decode_utf8(bytes))
    } else {
        None
    }
}

/// The text of a cipher string `IV|ciphertext|MAC` under `key`: `None` where
/// it does not decrypt or the plaintext is not UTF-8.
pub open spec fn decrypt_text_spec(text: Seq<char>, key: Seq<u8>) -> Option<Seq<char>> {
    match decrypt_mac_spec(text, key) {
        Ok(bytes) => utf8_text(bytes),
        Err(_) => None,
    }
}

/// Decrypts a cipher string to text.
pub fn decrypt_text(text: &str, key: &[u8]) -> (r: Option<String>)
    ensures
        r matches Some(s) ==> decrypt_text_spec(text@, key@) == Some(s@),
        r is None ==> decrypt_text_spec(text@, key@) is None,
{
    match decrypt_aes256_cbc_hmac(text, key) {
        Ok(bytes) => string_from_utf8(bytes),
        Err(_) => None,
    }
}

/// The text of a cipher string under `key`, read as `IV|ciphertext|MAC`
/// first and, only where that does not decrypt, in the legacy form without
/// MAC.
pub open spec fn decrypt_text_or_raw_spec(text: Seq<char>, key: Seq<u8>) -> Option<Seq<char>> {
    match decrypt_mac_spec(text, key) {
        Ok(bytes) => utf8_text(bytes),
        Err(_) => match decrypt_raw_spec(text, key) {
            Ok(bytes) => utf8_text(bytes),
            Err(_) => None,
        },
    }
}

/// Decrypts a cipher string to text, falling back to the legacy form.
pub fn decrypt_text_or_raw(text: &str, key: &[u8]) -> (r: Option<String>)
    ensures
        r matches Some(s) ==> decrypt_text_or_raw_spec(text@, key@) == Some(s@),
        r is None ==> decrypt_text_or_raw_spec(text@, key@) is None,
{
    match decrypt_aes256_cbc_hmac(text, key) {
        Ok(bytes) => string_from_utf8(bytes),
        Err(_) => match decrypt_aes256_cbc_raw(text, key) {
            Ok(bytes) => string_from_utf8(bytes),
            Err(_) => None,
        },
    }
}

/// Whether a text is short enough to be encrypted.
pub open spec fn fits(text: Seq<char>) -> bool {
    encode_utf8(text).len() <= MAX_PLAINTEXT_LEN
}

/// Encrypts a text under `key`. The result decrypts to the text again.
pub fn encrypt_text(value: &str, key: &[u8]) -> (r: Result<String, Error>)
    ensures
        key@.len() < 64 ==> r == Err::<String, Error>(Error::KeyTooShort),
        key@.len() >= 64 && !fits(value@) ==> r == Err::<String, Error>(Error::PlaintextTooLong),
        key@.len() >= 64 && fits(value@) ==> r is Ok,
        r matches Ok(s) ==> {
            &&& is_sealed(s@, key@, encode_utf8(value@))
            &&& has_sealed_shape(s@)
            &&& decrypt_text_spec(s@, key@) == Some(value@)
        },
{
    let r = encrypt_aes256_cbc_hmac(value.as_bytes(), key);
    proof {
        encode_utf8_valid_utf8(value@);
        encode_utf8_decode_utf8(value@);
    }
    r
}

} // verus!
