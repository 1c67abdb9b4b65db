//! The RSA unwrap of an organization key: OAEP with SHA-1 first, then
//! PKCS#1 v1.5.

use crate::crypto::aes::{strip_cipher_prefix, strip_cipher_prefix_spec};
use crate::crypto::b64::{base64_decode, base64_decode_spec};
use crate::error::{bytes_result, Error};
use ::rsa::pkcs8::{DecodePrivateKey, EncodePrivateKey};
use vstd::prelude::*;

verus! {

/// Whether `der` is a PKCS#8 document of an RSA private key.
pub uninterp spec fn rsa_private_key_spec(der: Seq<u8>) -> bool;

/// The PKCS#8 document of the RSA private key that the PEM text holds, or
/// `None` where it holds none.
pub uninterp spec fn rsa_pem_to_der_spec(pem: Seq<char>) -> Option<Seq<u8>>;

/// The plaintext of `ciphertext` under the private key `der`, by OAEP with
/// SHA-1, or `None` where it does not decrypt.
pub uninterp spec fn rsa_oaep_sha1_decrypt_spec(der: Seq<u8>, ciphertext: Seq<u8>) -> Option<
    Seq<u8>,
>;

/// The plaintext of `ciphertext` under the private key `der`, by PKCS#1 v1.5,
/// or `None` where it does not decrypt.
pub uninterp spec fn rsa_pkcs1v15_decrypt_spec(der: Seq<u8>, ciphertext: Seq<u8>) -> Option<
    Seq<u8>,
>;

/// `DecodePrivateKey::from_pkcs8_der` of `rsa::RsaPrivateKey`: whether it
/// reads a key from `der`.
#[verifier::external_body]
fn rsa_is_private_key(der: &[u8]) -> (ok: bool)
    ensures
        ok == rsa_private_key_spec(der@),
{
    ::rsa::RsaPrivateKey::from_pkcs8_der(der).is_ok()
}

/// `DecodePrivateKey::from_pkcs8_pem` of `rsa::RsaPrivateKey`, with the key
/// handed back as the PKCS#8 document that `EncodePrivateKey::to_pkcs8_der`
/// writes of it, which `from_pkcs8_der` reads again. `None` where either
/// reports an error.
#[verifier::external_body]
fn rsa_pem_to_der(pem: &str) -> (r: Option<Vec<u8>>)
    ensures
        r matches Some(der) ==> rsa_pem_to_der_spec(pem@) == Some(der@) && rsa_private_key_spec(
            der@,
        ),
        r is None ==> rsa_pem_to_der_spec(pem@) is None,
{
    let key = ::rsa::RsaPrivateKey::from_pkcs8_pem(pem).ok()?;
    key.to_pkcs8_der().ok().map(|d| d.as_bytes().to_vec())
}

/// `RsaPrivateKey::decrypt` with `Oaep::new::<sha1::Sha1>()`, on the key that
/// `from_pkcs8_der` reads from `der`: the plaintext named by
/// `rsa_oaep_sha1_decrypt_spec`, or `None` where the crate reports an error.
#[verifier::external_body]
fn rsa_oaep_sha1_decrypt(der: &[u8], ciphertext: &[u8]) -> (r: Option<Vec<u8>>)
    requires
        rsa_private_key_spec(der@),
    ensures
        r matches Some(p) ==> rsa_oaep_sha1_decrypt_spec(der@, ciphertext@) == Some(p@),
        r is None ==> rsa_oaep_sha1_decrypt_spec(der@, ciphertext@) is None,
{
    let key = ::rsa::RsaPrivateKey::from_pkcs8_der(der).unwrap();
    key.decrypt(::rsa::Oaep::new::<sha1::Sha1>(), ciphertext).ok()
}

/// `RsaPrivateKey::decrypt` with `Pkcs1v15Encrypt`, on the key that
/// `from_pkcs8_der` reads from `der`: the plaintext named by
/// `rsa_pkcs1v15_decrypt_spec`, or `None` where the crate reports an error.
#[verifier::external_body]
fn rsa_pkcs1v15_decrypt(der: &[u8], ciphertext: &[u8]) -> (r: Option<Vec<u8>>)
    requires
        rsa_private_key_spec(der@),
    ensures
        r matches Some(p) ==> rsa_pkcs1v15_decrypt_spec(der@, ciphertext@) == Some(p@),
        r is None ==> rsa_pkcs1v15_decrypt_spec(der@, ciphertext@) is None,
{
    let key = ::rsa::RsaPrivateKey::from_pkcs8_der(der).unwrap();
    key.decrypt(::rsa::Pkcs1v15Encrypt, ciphertext).ok()
}

/// What `decrypt_rsa_der` returns. The key is read first; the text, with or
/// without type tag, is base64; OAEP with SHA-1 is tried before PKCS#1 v1.5.
pub open spec fn decrypt_rsa_der_spec(text: Seq<char>, der: Seq<u8>) -> Result<Seq<u8>, Error> {
    if !rsa_private_key_spec(der) {
        Err(Error::InvalidPrivateKey)
    } else {
        match base64_decode_spec(strip_cipher_prefix_spec(text)) {
            None => Err(Error::InvalidBase64),
            Some(ct) => match rsa_oaep_sha1_decrypt_spec(der, ct) {
                Some(p) => Ok(p),
                None => match rsa_pkcs1v15_decrypt_spec(der, ct) {
                    Some(p) => Ok(p),
                    None => Err(Error::RsaDecryptionFailed),
                },
            },
        }
    }
}

/// Decrypts an RSA cipher string under a private key given as a PKCS#8
/// document in DER.
pub fn decrypt_rsa_der(ciphertext_b64: &str, private_key_der: &[u8]) -> (r: Result<Vec<u8>, Error>)
    ensures
        bytes_result(r) == decrypt_rsa_der_spec(ciphertext_b64@, private_key_der@),
{
    if !rsa_is_private_key(private_key_der) {
        return Err(Error::InvalidPrivateKey);
    }
    let ciphertext = match base64_decode(strip_cipher_prefix(ciphertext_b64)) {
        Some(b) => b,
        None => {
            return Err(Error::InvalidBase64);
        },
    };
    match rsa_oaep_sha1_decrypt(private_key_der, ciphertext.as_slice()) {
        Some(p) => Ok(p),
        None => match rsa_pkcs1v15_decrypt(private_key_der, ciphertext.as_slice()) {
            Some(p) => Ok(p),
            None => Err(Error::RsaDecryptionFailed),
        },
    }
}

/// What `decrypt_rsa` returns: the key is read from the PEM text, then the
/// cipher string is decrypted as `decrypt_rsa_der` does.
pub open spec fn decrypt_rsa_spec(text: Seq<char>, pem: Seq<char>) -> Result<Seq<u8>, Error> {
    match rsa_pem_to_der_spec(pem) {
        None => Err(Error::InvalidPrivateKey),
        Some(der) => decrypt_rsa_der_spec(text, der),
    }
}

/// Decrypts an RSA cipher string under a private key given as PKCS#8 in PEM.
pub fn decrypt_rsa(ciphertext_b64: &str, private_key_pem: &str) -> (r: Result<Vec<u8>, Error>)
    ensures
        bytes_result(r) == decrypt_rsa_spec(ciphertext_b64@, private_key_pem@),
{
    match rsa_pem_to_der(private_key_pem) {
        None => Err(Error::InvalidPrivateKey),
        Some(der) => decrypt_rsa_der(ciphertext_b64, der.as_slice()),
    }
}

} // verus!
