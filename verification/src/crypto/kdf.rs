//! The key derivation functions of the key ladder: PBKDF2-HMAC-SHA256,
//! Argon2id and the expand step of HKDF-SHA256.

use crate::error::{bytes_result, Error};
use vstd::prelude::*;

verus! {

/// The `len` bytes that PBKDF2 with HMAC-SHA256 derives from `password` and
/// `salt` in `rounds` rounds.
pub uninterp spec fn pbkdf2_hmac_sha256_spec(
    password: Seq<u8>,
    salt: Seq<u8>,
    rounds: u32,
    len: nat,
) -> Seq<u8>;

/// The `len` bytes that Argon2id, version 0x13, derives from `password` and
/// `salt` with `m_cost` KiB of memory, `t_cost` passes and `p_cost` lanes, or
/// `None` where it refuses its input.
pub uninterp spec fn argon2id_hash_spec(
    password: Seq<u8>,
    salt: Seq<u8>,
    m_cost: u32,
    t_cost: u32,
    p_cost: u32,
    len: nat,
) -> Option<Seq<u8>>;

/// The first `len` bytes that the expand step of HKDF-SHA256 gives for the
/// pseudorandom key `prk` and `info`.
pub uninterp spec fn hkdf_sha256_expand_len_spec(prk: Seq<u8>, info: Seq<u8>, len: nat) -> Seq<u8>;

/// The length of the keys that the key ladder derives, in bytes.
pub const KEY_LEN: usize = 32;

/// The 32 bytes that PBKDF2 with HMAC-SHA256 derives from `password` and
/// `salt` in `rounds` rounds.
pub open spec fn pbkdf2_sha256_spec(password: Seq<u8>, salt: Seq<u8>, rounds: u32) -> Seq<u8> {
    pbkdf2_hmac_sha256_spec(password, salt, rounds, KEY_LEN as nat)
}

/// The 32 bytes that Argon2id derives, or `None` where it refuses its input.
pub open spec fn argon2id_spec(
    password: Seq<u8>,
    salt: Seq<u8>,
    m_cost: u32,
    t_cost: u32,
    p_cost: u32,
) -> Option<Seq<u8>> {
    argon2id_hash_spec(password, salt, m_cost, t_cost, p_cost, KEY_LEN as nat)
}

/// The first 32 bytes that the expand step of HKDF-SHA256 gives for the
/// pseudorandom key `prk` and `info`.
pub open spec fn hkdf_sha256_expand_spec(prk: Seq<u8>, info: Seq<u8>) -> Seq<u8> {
    hkdf_sha256_expand_len_spec(prk, info, KEY_LEN as nat)
}

/// `pbkdf2::pbkdf2` with `hmac::Hmac<sha2::Sha256>` on a buffer of `len`
/// bytes: the bytes named by `pbkdf2_hmac_sha256_spec`. HMAC takes a key of
/// any length, so the call does not fail.
#[verifier::external_body]
fn pbkdf2_sha256(password: &[u8], salt: &[u8], rounds: u32, len: usize) -> (key: Vec<u8>)
    ensures
        key@ == pbkdf2_hmac_sha256_spec(password@, salt@, rounds, len as nat),
        key@.len() == len,
{
    let mut key = vec![0u8; len];
    pbkdf2::pbkdf2::<hmac::Hmac<sha2::Sha256>>(password, salt, rounds, &mut key).unwrap();
    key
}

/// The most memory that the library lets Argon2id take, in KiB: 1 GiB.
pub const MAX_ARGON2_M_COST: u32 = 0x10_0000;

/// The parameters that the library hands to Argon2id: those that
/// `argon2::Params::new` takes, which are at least 8 KiB of memory and 8 KiB
/// for each lane, at least one pass, and between 1 and 2^24 - 1 lanes; and of
/// them those that ask for no more than 1 GiB of memory, which the crate
/// allocates in one piece.
pub open spec fn argon2_params_ok(m_cost: int, t_cost: int, p_cost: int) -> bool {
    &&& 8 <= m_cost <= MAX_ARGON2_M_COST
    &&& 1 <= p_cost <= 0xFF_FFFF
    &&& 8 * p_cost <= m_cost
    &&& 1 <= t_cost
}

/// The inputs that `Argon2::hash_password_into` takes: a salt of at least 8
/// bytes, and neither password nor salt longer than 2^32 - 1 bytes.
pub open spec fn argon2_input_ok(password: Seq<u8>, salt: Seq<u8>) -> bool {
    &&& password.len() <= 0xFFFF_FFFF
    &&& 8 <= salt.len() <= 0xFFFF_FFFF
}

/// `Argon2::hash_password_into` on a buffer of `len` bytes, for
/// `Argon2::new(Algorithm::Argon2id, Version::V0x13, ..)` with the parameters
/// of `Params::new(m_cost, t_cost, p_cost, Some(len))`: the bytes named by
/// `argon2id_hash_spec`, or `None` where the crate reports an error, which it
/// does for a password or salt that `argon2_input_ok` leaves out and for no
/// other. An output of less than 4 bytes or more than 2^32 - 1 is left out:
/// the crate refuses it.
#[verifier::external_body]
fn argon2id(
    password: &[u8],
    salt: &[u8],
    m_cost: u32,
    t_cost: u32,
    p_cost: u32,
    len: usize,
) -> (r: Option<Vec<u8>>)
    requires
        argon2_params_ok(m_cost as int, t_cost as int, p_cost as int),
        4 <= len <= 0xFFFF_FFFF,
    ensures
        r matches Some(k) ==> argon2id_hash_spec(
            password@,
            salt@,
            m_cost,
            t_cost,
            p_cost,
            len as nat,
        ) == Some(k@) && k@.len() == len,
        r is None ==> argon2id_hash_spec(password@, salt@, m_cost, t_cost, p_cost, len as nat)
            is None,
        r is Some <==> argon2_input_ok(password@, salt@),
{
    let params = argon2::Params::new(m_cost, t_cost, p_cost, Some(len)).ok()?;
    let hasher = argon2::Argon2::new(argon2::Algorithm::Argon2id, argon2::Version::V0x13, params);
    let mut key = vec![0u8; len];
    hasher.hash_password_into(password, salt, &mut key).ok()?;
    Some(key)
}

/// `Hkdf::expand` of `hkdf::Hkdf<sha2::Sha256>` on a buffer of `len` bytes,
/// for the value that `Hkdf::from_prk` makes of `prk`: the bytes named by
/// `hkdf_sha256_expand_len_spec`. A pseudorandom key shorter than the 32
/// bytes of a SHA-256 digest is left out, and so is an output of more than
/// 255 digests: the crate refuses them.
#[verifier::external_body]
fn hkdf_sha256_expand(prk: &[u8], info: &[u8], len: usize) -> (okm: Vec<u8>)
    requires
        prk@.len() >= 32,
        len <= 255 * 32,
    ensures
        okm@ == hkdf_sha256_expand_len_spec(prk@, info@, len as nat),
        okm@.len() == len,
{
    let mut okm = vec![0u8; len];
    hkdf::Hkdf::<sha2::Sha256>::from_prk(prk).unwrap().expand(info, &mut okm).unwrap();
    okm
}

/// The master key by PBKDF2-HMAC-SHA256: 32 bytes from the password, the
/// salt and the number of iterations.
pub fn derive_master_key_pbkdf2(password: &[u8], salt: &[u8], iterations: u32) -> (key: Vec<u8>)
    ensures
        key@ == pbkdf2_sha256_spec(password@, salt@, iterations),
        key@.len() == 32,
{
    pbkdf2_sha256(password, salt, iterations, KEY_LEN)
}

/// What `derive_master_key_argon2id` returns: the memory is given in MiB and
/// handed on in KiB.
pub open spec fn derive_argon2id_spec(
    password: Seq<u8>,
    salt: Seq<u8>,
    iterations: u32,
    memory: u32,
    parallelism: u32,
) -> Result<Seq<u8>, Error> {
    if !argon2_params_ok(memory * 1024, iterations as int, parallelism as int) {
        Err(Error::KdfParams)
    } else {
        match argon2id_spec(password, salt, (memory * 1024) as u32, iterations, parallelism) {
            Some(k) => Ok(k),
            None => Err(Error::KdfFailed),
        }
    }
}

/// The master key by Argon2id: 32 bytes from the password and the salt, with
/// `memory` MiB of memory, `iterations` passes and `parallelism` lanes.
/// Parameters out of range are refused, more than 1 GiB of memory among
/// them, and so is a salt of less than 8 bytes.
pub fn derive_master_key_argon2id(
    password: &[u8],
    salt: &[u8],
    iterations: u32,
    memory: u32,
    parallelism: u32,
) -> (r: Result<Vec<u8>, Error>)
    ensures
        bytes_result(r) == derive_argon2id_spec(
            password@,
            salt@,
            iterations,
            memory,
            parallelism,
        ),
        r matches Ok(k) ==> k@.len() == 32,
        r is Ok <==> argon2_params_ok(memory * 1024, iterations as int, parallelism as int)
            && argon2_input_ok(password@, salt@),
{
    if memory > MAX_ARGON2_M_COST / 1024 {
        return Err(Error::KdfParams);
    }
    let m_cost: u32 = memory * 1024;
    if m_cost < 8 || parallelism < 1 || parallelism > 0xFF_FFFF || m_cost / 8 < parallelism
        || iterations < 1 {
        return Err(Error::KdfParams);
    }
    match argon2id(password, salt, m_cost, iterations, parallelism, KEY_LEN) {
        Some(k) => Ok(k),
        None => Err(Error::KdfFailed),
    }
}

/// The bytes of the text `enc`.
pub open spec fn info_enc() -> Seq<u8> {
    seq![0x65u8, 0x6eu8, 0x63u8]
}

/// The bytes of the text `mac`.
pub open spec fn info_mac() -> Seq<u8> {
    seq![0x6du8, 0x61u8, 0x63u8]
}

/// The 64-byte key that a 32-byte key stretches to: 32 bytes expanded with
/// the info `enc`, then 32 bytes expanded with the info `mac`.
pub open spec fn stretch_spec(prk: Seq<u8>) -> Seq<u8> {
    hkdf_sha256_expand_spec(prk, info_enc()) + hkdf_sha256_expand_spec(prk, info_mac())
}

/// Stretches a key to 64 bytes by the expand step of HKDF-SHA256, taking the
/// key itself as the pseudorandom key: an encryption key and a MAC key.
pub fn stretch_key_hkdf(master_key: &[u8]) -> (key: Vec<u8>)
    requires
        master_key@.len() >= 32,
    ensures
        key@ == stretch_spec(master_key@),
        key@.len() == 64,
{
    let mut enc_info: Vec<u8> = Vec::new();
    enc_info.push(0x65u8);
    enc_info.push(0x6eu8);
    enc_info.push(0x63u8);
    let mut mac_info: Vec<u8> = Vec::new();
    mac_info.push(0x6du8);
    mac_info.push(0x61u8);
    mac_info.push(0x63u8);
    assert(enc_info@ == info_enc());
    assert(mac_info@ == info_mac());
    let mut combined = hkdf_sha256_expand(master_key, enc_info.as_slice(), KEY_LEN);
    let mut mac_key = hkdf_sha256_expand(master_key, mac_info.as_slice(), KEY_LEN);
    combined.append(&mut mac_key);
    combined
}

} // verus!
