use base64::Engine;
use rand::SeedableRng;
use rotato::crypto::rsa::{decrypt_rsa, decrypt_rsa_der};
use rotato::error::{Error, ErrorKind};
use rsa::pkcs8::{EncodePrivateKey, LineEnding};

fn test_key() -> rsa::RsaPrivateKey {
    let mut rng = rand::rngs::StdRng::seed_from_u64(7);
    rsa::RsaPrivateKey::new(&mut rng, 512).unwrap()
}

fn b64(bytes: &[u8]) -> String {
    base64::engine::general_purpose::STANDARD.encode(bytes)
}

#[test]
fn rsa_unwraps_oaep_sha1() {
    let key = test_key();
    let mut rng = rand::rngs::StdRng::seed_from_u64(8);
    let der = key.to_pkcs8_der().unwrap();
    let ct = key
        .to_public_key()
        .encrypt(&mut rng, rsa::Oaep::new::<sha1::Sha1>(), b"org key bytes")
        .unwrap();
    assert_eq!(decrypt_rsa_der(&b64(&ct), der.as_bytes()).unwrap(), b"org key bytes".to_vec());
    assert_eq!(
        decrypt_rsa_der(&format!("4.{}", b64(&ct)), der.as_bytes()).unwrap(),
        b"org key bytes".to_vec()
    );
}

#[test]
fn rsa_falls_back_to_pkcs1_v15() {
    let key = test_key();
    let mut rng = rand::rngs::StdRng::seed_from_u64(9);
    let der = key.to_pkcs8_der().unwrap();
    let ct = key.to_public_key().encrypt(&mut rng, rsa::Pkcs1v15Encrypt, b"legacy org key").unwrap();
    assert_eq!(decrypt_rsa_der(&b64(&ct), der.as_bytes()).unwrap(), b"legacy org key".to_vec());
}

#[test]
fn rsa_reads_pem_keys() {
    let key = test_key();
    let mut rng = rand::rngs::StdRng::seed_from_u64(10);
    let pem = key.to_pkcs8_pem(LineEnding::LF).unwrap();
    let ct = key
        .to_public_key()
        .encrypt(&mut rng, rsa::Oaep::new::<sha1::Sha1>(), b"from pem")
        .unwrap();
    assert_eq!(decrypt_rsa(&b64(&ct), &pem).unwrap(), b"from pem".to_vec());
    assert_eq!(decrypt_rsa(&b64(&ct), "no key here"), Err(Error::InvalidPrivateKey));
}

#[test]
fn rsa_reports_what_went_wrong() {
    let key = test_key();
    let der = key.to_pkcs8_der().unwrap();
    assert_eq!(decrypt_rsa_der("AAAA", b"not a key"), Err(Error::InvalidPrivateKey));
    assert_eq!(decrypt_rsa_der("not base64!", der.as_bytes()), Err(Error::InvalidBase64));
    let err = decrypt_rsa_der(&b64(&[1u8; 64]), der.as_bytes()).unwrap_err();
    assert_eq!(err, Error::RsaDecryptionFailed);
    assert_eq!(err.kind(), ErrorKind::Crypto);
    assert_eq!(decrypt_rsa_der(&b64(&[1u8; 10]), der.as_bytes()), Err(Error::RsaDecryptionFailed));
}
