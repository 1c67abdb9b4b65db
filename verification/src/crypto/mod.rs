//! The cryptographic primitives of the vault: base64, AES-256-CBC with
//! HMAC-SHA256, the key derivation functions and the RSA unwrap.

pub mod aes;
pub mod b64;
pub mod field;
pub mod kdf;
pub mod rsa;
