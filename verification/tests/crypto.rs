use base64::Engine;
use rotato::crypto::aes::{
    decrypt_aes256_cbc_hmac, decrypt_aes256_cbc_raw, encrypt_aes256_cbc_hmac,
    format_cipher_string, has_type_tag, parse_cipher_string, strip_cipher_prefix,
};
use rotato::crypto::kdf::{
    derive_master_key_argon2id, derive_master_key_pbkdf2, stretch_key_hkdf,
};
use rotato::error::{Error, ErrorKind};

fn key64() -> Vec<u8> {
    (0u8..64).collect()
}

fn hex(bytes: &[u8]) -> String {
    bytes.iter().map(|b| format!("{:02x}", b)).collect()
}

#[test]
fn encrypt_then_decrypt_gives_the_plaintext() {
    let key = key64();
    let sealed = encrypt_aes256_cbc_hmac(b"P@ssw0rd!", &key).unwrap();
    assert_eq!(decrypt_aes256_cbc_hmac(&sealed, &key).unwrap(), b"P@ssw0rd!".to_vec());
    let body = strip_cipher_prefix(&sealed);
    assert_eq!(decrypt_aes256_cbc_hmac(body, &key).unwrap(), b"P@ssw0rd!".to_vec());
}

#[test]
fn sealed_text_has_tag_and_three_base64_parts() {
    let key = key64();
    for plaintext in [&b""[..], &b"a"[..], &b"0123456789abcdef"[..], &[7u8; 100][..]] {
        let sealed = encrypt_aes256_cbc_hmac(plaintext, &key).unwrap();
        assert!(sealed.starts_with("2."));
        let parts: Vec<&str> = sealed[2..].split('|').collect();
        assert_eq!(parts.len(), 3);
        assert_eq!(parts[0].len(), 24);
        assert!(parts[1].len() >= 24);
        assert_eq!(parts[1].len(), 4 * (((plaintext.len() / 16 + 1) * 16 + 2) / 3));
        assert_eq!(parts[2].len(), 44);
        assert_eq!(decrypt_aes256_cbc_hmac(&sealed, &key).unwrap(), plaintext.to_vec());
    }
}

#[test]
fn two_encryptions_differ_by_their_iv() {
    let key = key64();
    let a = encrypt_aes256_cbc_hmac(b"same", &key).unwrap();
    let b = encrypt_aes256_cbc_hmac(b"same", &key).unwrap();
    assert_ne!(a, b);
}

#[test]
fn tampered_mac_is_a_crypto_error() {
    let key = key64();
    let sealed = encrypt_aes256_cbc_hmac(b"secret", &key).unwrap();
    let cut = sealed.rfind('|').unwrap();
    let forged = format!("{}|{}", &sealed[..cut], "AAAAAAAAAAAAAAAAAAAAAAAAAAAAAAAAAAAAAAAAAAA=");
    let err = decrypt_aes256_cbc_hmac(&forged, &key).unwrap_err();
    assert_eq!(err, Error::MacMismatch);
    assert_eq!(err.kind(), ErrorKind::Crypto);
}

#[test]
fn tampered_ciphertext_is_a_mac_mismatch() {
    let key = key64();
    let sealed = encrypt_aes256_cbc_hmac(b"secret", &key).unwrap();
    let other = encrypt_aes256_cbc_hmac(b"public", &key).unwrap();
    let a: Vec<&str> = sealed[2..].split('|').collect();
    let b: Vec<&str> = other[2..].split('|').collect();
    let forged = format!("2.{}|{}|{}", a[0], b[1], a[2]);
    assert_eq!(decrypt_aes256_cbc_hmac(&forged, &key), Err(Error::MacMismatch));
}

#[test]
fn wrong_key_is_a_mac_mismatch() {
    let key = key64();
    let mut other = key64();
    other[40] ^= 1;
    let sealed = encrypt_aes256_cbc_hmac(b"secret", &key).unwrap();
    assert_eq!(decrypt_aes256_cbc_hmac(&sealed, &other), Err(Error::MacMismatch));
}

#[test]
fn decrypt_rejects_malformed_cipher_strings() {
    let key = key64();
    assert_eq!(decrypt_aes256_cbc_hmac("abc", &key), Err(Error::MissingSeparator));
    assert_eq!(decrypt_aes256_cbc_hmac("a|b", &key), Err(Error::InvalidCipherString));
    assert_eq!(decrypt_aes256_cbc_hmac("a|b|c|d", &key), Err(Error::InvalidCipherString));
    assert_eq!(decrypt_aes256_cbc_hmac("!|AAAA|AAAA", &key), Err(Error::InvalidBase64));
    assert_eq!(decrypt_aes256_cbc_hmac("AAAA|AAAA|AAAA", &key[..31]), Err(Error::KeyTooShort));
    assert_eq!(decrypt_aes256_cbc_hmac("AAAA|AAAA|AAAA", &key), Err(Error::MacMismatch));
}

#[test]
fn nothing_is_decrypted_without_the_mac_key() {
    let key = key64();
    let sealed = encrypt_aes256_cbc_hmac(b"legacy", &key).unwrap();
    assert_eq!(decrypt_aes256_cbc_hmac(&sealed, &key).unwrap(), b"legacy".to_vec());
    assert_eq!(decrypt_aes256_cbc_hmac(&sealed, &key[..32]), Err(Error::KeyTooShort));
    assert_eq!(decrypt_aes256_cbc_hmac(&sealed, &key[..40]), Err(Error::KeyTooShort));
    assert_eq!(decrypt_aes256_cbc_hmac(&sealed, &key[..63]), Err(Error::KeyTooShort));
    let cut = sealed.rfind('|').unwrap();
    let forged = format!("{}|{}", &sealed[..cut], "AAAA");
    assert_eq!(decrypt_aes256_cbc_hmac(&forged, &key[..32]), Err(Error::KeyTooShort));
    assert_eq!(decrypt_aes256_cbc_hmac(&forged, &key), Err(Error::MacMismatch));
}

#[test]
fn the_parts_of_a_sealed_text_have_their_lengths() {
    let key = key64();
    let engine = base64::engine::general_purpose::STANDARD;
    for n in [0usize, 1, 15, 16, 17, 31, 32, 100] {
        let sealed = encrypt_aes256_cbc_hmac(&vec![7u8; n], &key).unwrap();
        assert!(sealed.starts_with("2."));
        let parts: Vec<&str> = sealed[2..].split('|').collect();
        assert_eq!(parts.len(), 3);
        let padded = (n / 16 + 1) * 16;
        assert_eq!(parts[0].len(), 24);
        assert_eq!(parts[1].len(), 4 * ((padded + 2) / 3));
        assert_eq!(parts[2].len(), 44);
        assert_eq!(engine.decode(parts[0]).unwrap().len(), 16);
        assert_eq!(engine.decode(parts[1]).unwrap().len(), padded);
        assert_eq!(engine.decode(parts[2]).unwrap().len(), 32);
    }
}

#[test]
fn encrypt_needs_a_key_of_64_bytes() {
    let key = key64();
    assert_eq!(encrypt_aes256_cbc_hmac(b"x", &key[..63]), Err(Error::KeyTooShort));
    assert_eq!(encrypt_aes256_cbc_hmac(b"x", &[]), Err(Error::KeyTooShort));
}

#[test]
fn encrypt_refuses_plaintexts_it_cannot_encode() {
    let key = key64();
    let huge = vec![0u8; 0x3000_0001];
    assert_eq!(encrypt_aes256_cbc_hmac(&huge, &key), Err(Error::PlaintextTooLong));
    assert_eq!(encrypt_aes256_cbc_hmac(&huge, &key[..10]), Err(Error::KeyTooShort));
}

#[test]
fn raw_form_decrypts_iv_and_ciphertext_in_one_text() {
    let key = key64();
    let sealed = encrypt_aes256_cbc_hmac(b"legacy value", &key).unwrap();
    let parts: Vec<&str> = sealed[2..].split('|').collect();
    let engine = base64::engine::general_purpose::STANDARD;
    let mut bytes = engine.decode(parts[0]).unwrap();
    bytes.extend(engine.decode(parts[1]).unwrap());
    let raw = engine.encode(&bytes);
    assert_eq!(decrypt_aes256_cbc_raw(&raw, &key).unwrap(), b"legacy value".to_vec());
    assert_eq!(decrypt_aes256_cbc_raw(&format!("2.{}", raw), &key).unwrap(), b"legacy value".to_vec());
    assert_eq!(decrypt_aes256_cbc_raw(&sealed, &key), Err(Error::InvalidBase64));
    assert_eq!(decrypt_aes256_cbc_raw("AAAA", &key), Err(Error::CiphertextTooShort));
    assert_eq!(decrypt_aes256_cbc_raw(&raw, &key[..16]), Err(Error::InvalidLength));
    assert_eq!(
        decrypt_aes256_cbc_raw(&engine.encode([0u8; 16]), &key),
        Err(Error::BadPadding)
    );
}

#[test]
fn strip_cipher_prefix_takes_one_digit_and_a_dot() {
    assert_eq!(strip_cipher_prefix("2.abc"), "abc");
    assert_eq!(strip_cipher_prefix("4.abc"), "abc");
    assert_eq!(strip_cipher_prefix("abc"), "abc");
    assert_eq!(strip_cipher_prefix("2."), "2.");
    assert_eq!(strip_cipher_prefix("x.abc"), "x.abc");
    assert_eq!(strip_cipher_prefix("22abc"), "22abc");
    assert_eq!(strip_cipher_prefix(""), "");
    assert_eq!(strip_cipher_prefix("2.é"), "é");
}

#[test]
fn cipher_strings_are_cut_and_put_together_in_one_place() {
    let parts = parse_cipher_string("2.aXY=|Y3Q=|bWFj").unwrap();
    assert_eq!((parts.iv.as_str(), parts.ciphertext.as_str(), parts.mac.as_str()), ("aXY=", "Y3Q=", "bWFj"));
    let bare = parse_cipher_string("a||c").unwrap();
    assert_eq!((bare.iv.as_str(), bare.ciphertext.as_str(), bare.mac.as_str()), ("a", "", "c"));
    assert_eq!(parse_cipher_string("4.blob").err(), Some(Error::MissingSeparator));
    assert_eq!(parse_cipher_string("").err(), Some(Error::MissingSeparator));
    assert_eq!(parse_cipher_string("a|b").err(), Some(Error::InvalidCipherString));
    assert_eq!(parse_cipher_string("2.a|b|c|d").err(), Some(Error::InvalidCipherString));
    assert_eq!(format_cipher_string("aXY=", "Y3Q=", "bWFj"), "2.aXY=|Y3Q=|bWFj");
    assert_eq!(format_cipher_string("", "", ""), "2.||");
    assert!(has_type_tag("4.abc", '4'));
    assert!(has_type_tag("4.", '4'));
    assert!(!has_type_tag("2.abc", '4'));
    assert!(!has_type_tag("4", '4'));
}

#[test]
fn a_cipher_string_made_elsewhere_decrypts() {
    // IV a0..af, the text `hello vault`, and the key 00..3f: its first half
    // encrypts, its second half seals.
    let key = key64();
    let sealed = "2.oKGio6SlpqeoqaqrrK2urw==|x3dD4NNjfLfac9LHNA/eRA==|XQ0L1KTDM9MCp4JkXqhjwPihlap037g+Q9T3Ceua44A=";
    assert_eq!(decrypt_aes256_cbc_hmac(sealed, &key).unwrap(), b"hello vault".to_vec());
    assert_eq!(decrypt_aes256_cbc_hmac(&sealed[2..], &key).unwrap(), b"hello vault".to_vec());
    let raw = "oKGio6SlpqeoqaqrrK2ur8d3Q+DTY3y32nPSxzQP3kQ=";
    assert_eq!(decrypt_aes256_cbc_raw(raw, &key[..32]).unwrap(), b"hello vault".to_vec());
    let flipped = sealed.replace("XQ0L", "XQ0M");
    assert_eq!(decrypt_aes256_cbc_hmac(&flipped, &key), Err(Error::MacMismatch));
}

#[test]
fn pbkdf2_matches_a_known_vector() {
    let key = derive_master_key_pbkdf2(b"password", b"salt", 1);
    assert_eq!(hex(&key), "120fb6cffcf8b32c43e7225256c4f837a86548c92ccc35480805987cb70be17b");
    let key = derive_master_key_pbkdf2(b"password", b"salt", 2);
    assert_eq!(hex(&key), "ae4d0c95af6b46d32d0adff928f06dd02a303f8ef3c251dfd6e2d85a95474c43");
    let key = derive_master_key_pbkdf2(b"password", b"salt", 260000);
    assert_eq!(hex(&key), "04e00473d810d02117411c4151d1c16c8148fc5874384c17cd4b02379708fa44");
}

#[test]
fn hkdf_and_argon2id_match_known_vectors() {
    let key = stretch_key_hkdf(&[0x0bu8; 32]);
    assert_eq!(hex(&key[..32]), "b0161a15ba451c50c1ee66d6721df26473e883417ead41c665eb6486afd116b0");
    assert_eq!(hex(&key[32..]), "87d15438287e23cf482e6c118c28f81d3908b9b651323e38adf61f717924c24b");
    let key = derive_master_key_argon2id(b"password", b"user@example.com", 1, 1, 1).unwrap();
    assert_eq!(hex(&key), "522e18c70fb49246ea36cc4f9abb4a3ca47dd2f34badd273cca5667f0e3984af");
}

#[test]
fn stretch_gives_64_bytes_in_two_halves() {
    let prk = [0x0bu8; 32];
    let key = stretch_key_hkdf(&prk);
    assert_eq!(key.len(), 64);
    assert_ne!(key[..32], key[32..]);
    assert_ne!(key[..32], prk[..]);
    assert_eq!(key, stretch_key_hkdf(&prk));
    let hk = hkdf::Hkdf::<sha2::Sha256>::from_prk(&prk).unwrap();
    let mut enc = [0u8; 32];
    hk.expand(b"enc", &mut enc).unwrap();
    let mut mac = [0u8; 32];
    hk.expand(b"mac", &mut mac).unwrap();
    assert_eq!(key[..32], enc[..]);
    assert_eq!(key[32..], mac[..]);
}

#[test]
fn argon2id_checks_parameters_and_salt() {
    let key = derive_master_key_argon2id(b"password", b"user@example.com", 1, 1, 1).unwrap();
    assert_eq!(key.len(), 32);
    assert_eq!(key, derive_master_key_argon2id(b"password", b"user@example.com", 1, 1, 1).unwrap());
    assert_ne!(key, derive_master_key_argon2id(b"password", b"user@example.com", 2, 1, 1).unwrap());
    assert_eq!(derive_master_key_argon2id(b"password", b"short", 1, 1, 1), Err(Error::KdfFailed));
    assert_eq!(derive_master_key_argon2id(b"password", b"user@example.com", 0, 1, 1), Err(Error::KdfParams));
    assert_eq!(derive_master_key_argon2id(b"password", b"user@example.com", 1, 0, 1), Err(Error::KdfParams));
    assert_eq!(derive_master_key_argon2id(b"password", b"user@example.com", 1, 1, 0), Err(Error::KdfParams));
    assert_eq!(derive_master_key_argon2id(b"password", b"user@example.com", 1, 1, 129), Err(Error::KdfParams));
    assert_eq!(
        derive_master_key_argon2id(b"password", b"user@example.com", 1, 0x40_0000, 1),
        Err(Error::KdfParams)
    );
    assert_eq!(
        derive_master_key_argon2id(b"password", b"user@example.com", 1, 1025, 1),
        Err(Error::KdfParams)
    );
}
