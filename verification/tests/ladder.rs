use base64::Engine;
use rand::SeedableRng;
use rotato::crypto::aes::encrypt_aes256_cbc_hmac;
use rotato::crypto::kdf::{derive_master_key_pbkdf2, stretch_key_hkdf};
use rotato::error::{Error, ErrorKind};
use rotato::flows::auth::{
    candidate_keys, derive_login_keys, find_org_key, ladder_step, unlock_vault, unwrap_user_key,
    LadderAction, LadderEvent, LadderInput, LadderState, LoginKeys,
};
use rotato::vaultwarden::models::{KdfInfo, Organization, Profile, SyncData};
use rsa::pkcs8::EncodePrivateKey;

const EMAIL: &str = "User@Example.COM";
const PASSWORD: &str = "correct horse";

fn b64(bytes: &[u8]) -> String {
    base64::engine::general_purpose::STANDARD.encode(bytes)
}

fn pbkdf2_info() -> KdfInfo {
    KdfInfo { kdf: 0, kdf_iterations: 1000, kdf_memory: None, kdf_parallelism: None }
}

fn keys() -> LoginKeys {
    derive_login_keys(&pbkdf2_info(), PASSWORD, EMAIL).unwrap()
}

fn user_key() -> Vec<u8> {
    (0u8..64).map(|b| b.wrapping_mul(3).wrapping_add(1)).collect()
}

fn org_key() -> Vec<u8> {
    (0u8..64).map(|b| b.wrapping_mul(5).wrapping_add(2)).collect()
}

fn input(filter: Option<&str>, password: Option<&str>) -> LadderInput {
    LadderInput {
        email: EMAIL.to_string(),
        session_key_b64: None,
        password_override: password.map(|p| p.to_string()),
        org_id_filter: filter.map(|f| f.to_string()),
    }
}

fn org(id: &str, name: &str, key: Option<String>) -> Organization {
    Organization { id: id.to_string(), name: name.to_string(), key }
}

fn sync(profile_key: String, private_key: Option<String>, orgs: Option<Vec<Organization>>) -> SyncData {
    SyncData {
        profile: Profile {
            id: "user-1".to_string(),
            email: EMAIL.to_string(),
            key: profile_key,
            private_key,
            organizations: orgs,
        },
        folders: vec![],
        ciphers: None,
    }
}

fn standard_sync() -> SyncData {
    let keys = keys();
    let wrapping = stretch_key_hkdf(&keys.master_key);
    let profile_key = encrypt_aes256_cbc_hmac(&user_key(), &wrapping).unwrap();
    let sealed_org = encrypt_aes256_cbc_hmac(&org_key(), &user_key()).unwrap();
    sync(
        profile_key,
        None,
        Some(vec![
            org("org-0", "No Key", None),
            org("org-1", "First", Some(sealed_org.clone())),
            org("org-2", "Second", Some(sealed_org)),
        ]),
    )
}

#[test]
fn login_keys_follow_the_key_ladder() {
    let keys = keys();
    let master = derive_master_key_pbkdf2(PASSWORD.as_bytes(), b"user@example.com", 1000);
    assert_eq!(keys.master_key, master);
    let hash = derive_master_key_pbkdf2(&master, PASSWORD.as_bytes(), 1);
    assert_eq!(keys.master_password_hash_bytes, hash);
    assert_eq!(keys.master_password_hash, b64(&hash));
    let lower = derive_login_keys(&pbkdf2_info(), PASSWORD, "user@example.com").unwrap();
    assert_eq!(lower.master_key, keys.master_key);
}

#[test]
fn argon2id_takes_defaults_for_memory_and_lanes() {
    let info = KdfInfo { kdf: 1, kdf_iterations: 1, kdf_memory: None, kdf_parallelism: None };
    let explicit = KdfInfo { kdf: 1, kdf_iterations: 1, kdf_memory: Some(64), kdf_parallelism: Some(4) };
    let a = derive_login_keys(&info, PASSWORD, EMAIL).unwrap();
    let b = derive_login_keys(&explicit, PASSWORD, EMAIL).unwrap();
    assert_eq!(a.master_key, b.master_key);
    assert_eq!(a.master_key.len(), 32);
    assert_ne!(a.master_key, keys().master_key);
}

#[test]
fn argon2id_master_key_matches_a_known_vector() {
    let info = KdfInfo { kdf: 1, kdf_iterations: 3, kdf_memory: None, kdf_parallelism: None };
    let keys = derive_login_keys(&info, PASSWORD, EMAIL).unwrap();
    let hex: String = keys.master_key.iter().map(|b| format!("{:02x}", b)).collect();
    assert_eq!(hex, "8d3811fa14027191367d8517e987eaaa04af8067d259423d2c5981ab0f8a9a86");
}

#[test]
fn unknown_kdf_is_an_auth_error() {
    let info = KdfInfo { kdf: 2, kdf_iterations: 1, kdf_memory: None, kdf_parallelism: None };
    let err = derive_login_keys(&info, PASSWORD, EMAIL).err().unwrap();
    assert_eq!(err, Error::UnknownKdf);
    assert_eq!(err.kind(), ErrorKind::Auth);
    let bad = KdfInfo { kdf: 1, kdf_iterations: 0, kdf_memory: None, kdf_parallelism: None };
    assert_eq!(derive_login_keys(&bad, PASSWORD, EMAIL).err(), Some(Error::KdfParams));
    let short_salt = KdfInfo { kdf: 1, kdf_iterations: 1, kdf_memory: Some(1), kdf_parallelism: Some(1) };
    assert_eq!(derive_login_keys(&short_salt, PASSWORD, "a@b.c").err(), Some(Error::KdfFailed));
}

#[test]
fn candidates_come_most_specific_first() {
    let keys = keys();
    let without = candidate_keys(None, &keys).unwrap();
    assert_eq!(without.len(), 4);
    assert_eq!(without[0], stretch_key_hkdf(&keys.master_key));
    assert_eq!(without[1], stretch_key_hkdf(&keys.master_password_hash_bytes));
    assert_eq!(without[2], keys.master_password_hash_bytes);
    assert_eq!(without[3], keys.master_key);
    let session = b64(&[9u8; 64]);
    let with = candidate_keys(Some(&session), &keys).unwrap();
    assert_eq!(with.len(), 5);
    assert_eq!(with[0], vec![9u8; 64]);
    assert_eq!(with[1..], without[..]);
    assert_eq!(candidate_keys(Some("not base64!"), &keys), Err(Error::InvalidSessionKey));
}

#[test]
fn the_first_candidate_that_fits_unwraps_the_user_key() {
    let a = vec![1u8; 64];
    let b = vec![2u8; 64];
    let sealed = encrypt_aes256_cbc_hmac(&user_key(), &b).unwrap();
    assert_eq!(unwrap_user_key(&sealed, &vec![a.clone(), b.clone()]).unwrap(), user_key());
    assert_eq!(unwrap_user_key(&sealed, &vec![a.clone()]), Err(Error::UserKeyNotDecrypted));
    assert_eq!(unwrap_user_key(&sealed, &vec![]), Err(Error::UserKeyNotDecrypted));
    // What has not the 64 bytes of a key counts as none, and later candidates
    // are not tried.
    let empty = encrypt_aes256_cbc_hmac(b"", &a).unwrap();
    assert_eq!(unwrap_user_key(&empty, &vec![a.clone(), b.clone()]), Err(Error::UserKeyNotDecrypted));
    let short = encrypt_aes256_cbc_hmac(&[5u8; 32], &a).unwrap();
    assert_eq!(unwrap_user_key(&short, &vec![a.clone(), b.clone()]), Err(Error::UserKeyNotDecrypted));
    let long = encrypt_aes256_cbc_hmac(&[5u8; 65], &a).unwrap();
    assert_eq!(unwrap_user_key(&long, &vec![a, b]), Err(Error::UserKeyNotDecrypted));
}

#[test]
fn a_key_of_32_bytes_unwraps_the_legacy_form_only() {
    // The IV a0..af and the 64 bytes 40..7f, under the key 00..1f, without
    // MAC.
    let legacy = "oKGio6SlpqeoqaqrrK2ur/l9JjG1RnL54enlL1xRZIV0at1W8X70vKOTZm9duwbG2ToU0KxQxgBKqCw5F6Ee5XL/opXbirFchxK64whfibTlHcOpD9ZV5tj53ugGGpZV";
    let raw: Vec<u8> = (0u8..32).collect();
    let expected: Vec<u8> = (0x40u8..0x80).collect();
    assert_eq!(unwrap_user_key(legacy, &vec![vec![1u8; 64], raw.clone()]).unwrap(), expected);

    // A text with a MAC is not opened by a key that cannot check it.
    let keys = keys();
    let mut wide = keys.master_key.clone();
    wide.extend_from_slice(&[0u8; 32]);
    let sealed = encrypt_aes256_cbc_hmac(&user_key(), &wide).unwrap();
    let candidates = candidate_keys(None, &keys).unwrap();
    assert_eq!(unwrap_user_key(&sealed, &candidates), Err(Error::UserKeyNotDecrypted));
    assert_eq!(unwrap_user_key(&sealed, &vec![wide]).unwrap(), user_key());
}

#[test]
fn the_filter_picks_the_organization_by_id_or_name() {
    let key_a = vec![0xa1u8; 64];
    let key_b = vec![0xb2u8; 64];
    let sealed_a = encrypt_aes256_cbc_hmac(&key_a, &user_key()).unwrap();
    let sealed_b = encrypt_aes256_cbc_hmac(&key_b, &user_key()).unwrap();
    let orgs = vec![
        org("a", "Alpha", Some(sealed_a)),
        org("b", "Beta", Some(sealed_b)),
        org("c", "Gamma", Some("2.broken".to_string())),
    ];
    assert_eq!(find_org_key(&orgs, None, &user_key(), None).unwrap(), (0, key_a));
    assert_eq!(find_org_key(&orgs, None, &user_key(), Some("b")).unwrap(), (1, key_b.clone()));
    assert_eq!(find_org_key(&orgs, None, &user_key(), Some("Beta")).unwrap(), (1, key_b));
    assert_eq!(find_org_key(&orgs, None, &user_key(), Some("Gamma")), Err(Error::OrgKeyNotFound));
    assert_eq!(find_org_key(&orgs, None, &user_key(), Some("nobody")), Err(Error::OrgKeyNotFound));
    let broken = vec![org("c", "Gamma", Some("2.broken".to_string()))];
    assert_eq!(find_org_key(&broken, None, &user_key(), None), Err(Error::OrgKeyNotFound));
    assert_eq!(find_org_key(&vec![], None, &user_key(), None), Err(Error::OrgKeyNotFound));
}

#[test]
fn an_organization_key_has_64_bytes_and_a_mac() {
    let good = vec![0xc3u8; 64];
    let orgs = vec![
        org("one", "One Byte", Some(encrypt_aes256_cbc_hmac(&[1u8], &user_key()).unwrap())),
        org("half", "Half", Some(encrypt_aes256_cbc_hmac(&[2u8; 32], &user_key()).unwrap())),
        // The legacy form without MAC, under the first 32 bytes of the key.
        org(
            "legacy",
            "Legacy",
            Some("oKGio6SlpqeoqaqrrK2ur/l9JjG1RnL54enlL1xRZIV0at1W8X70vKOTZm9duwbG2ToU0KxQxgBKqCw5F6Ee5XL/opXbirFchxK64whfibTlHcOpD9ZV5tj53ugGGpZV".to_string()),
        ),
        org("good", "Good", Some(encrypt_aes256_cbc_hmac(&good, &user_key()).unwrap())),
    ];
    assert_eq!(find_org_key(&orgs, None, &user_key(), None).unwrap(), (3, good));
    assert_eq!(find_org_key(&orgs, None, &user_key(), Some("one")), Err(Error::OrgKeyNotFound));
    assert_eq!(find_org_key(&orgs, None, &user_key(), Some("half")), Err(Error::OrgKeyNotFound));
    let plain: Vec<u8> = (0u8..64).collect();
    assert_eq!(find_org_key(&orgs, None, &plain, Some("legacy")), Err(Error::OrgKeyNotFound));
}

#[test]
fn an_rsa_organization_key_is_unwrapped_with_the_private_key() {
    let mut rng = rand::rngs::StdRng::seed_from_u64(11);
    let key = rsa::RsaPrivateKey::new(&mut rng, 1024).unwrap();
    let der = key.to_pkcs8_der().unwrap();
    let private_key = encrypt_aes256_cbc_hmac(der.as_bytes(), &user_key()).unwrap();
    let wrapped = key.to_public_key().encrypt(&mut rng, rsa::Oaep::new::<sha1::Sha1>(), &org_key()).unwrap();
    let orgs = vec![org("rsa", "Rsa Org", Some(format!("4.{}", b64(&wrapped))))];
    let found = find_org_key(&orgs, Some(&private_key), &user_key(), None).unwrap();
    assert_eq!(found, (0, org_key()));
    // What is unwrapped is a key only where it has 64 bytes.
    let short = key.to_public_key().encrypt(&mut rng, rsa::Oaep::new::<sha1::Sha1>(), b"rsa org key").unwrap();
    let short_orgs = vec![org("rsa", "Rsa Org", Some(format!("4.{}", b64(&short))))];
    assert_eq!(find_org_key(&short_orgs, Some(&private_key), &user_key(), None), Err(Error::OrgKeyNotFound));
    // Without private key the organization gives nothing.
    assert_eq!(find_org_key(&orgs, None, &user_key(), None), Err(Error::OrgKeyNotFound));
    // A private key that does not unwrap ends the search.
    let err = find_org_key(&orgs, Some("2.garbage"), &user_key(), None).unwrap_err();
    assert_eq!(err.kind(), ErrorKind::Crypto);
}

#[test]
fn unlock_gives_organization_and_keys() {
    let unlocked = unlock_vault(&standard_sync(), &input(None, None), &keys()).ok().unwrap();
    assert_eq!(unlocked.org_id, "org-1");
    assert_eq!(unlocked.org_key, org_key());
    assert_eq!(unlocked.user_key, user_key());
    let second = unlock_vault(&standard_sync(), &input(Some("Second"), None), &keys()).ok().unwrap();
    assert_eq!(second.org_id, "org-2");
    let mut bad_session = input(None, None);
    bad_session.session_key_b64 = Some("###".to_string());
    assert_eq!(unlock_vault(&standard_sync(), &bad_session, &keys()).err(), Some(Error::InvalidSessionKey));
    let mut no_orgs = standard_sync();
    no_orgs.profile.organizations = None;
    assert_eq!(unlock_vault(&no_orgs, &input(None, None), &keys()).err(), Some(Error::OrgKeyNotFound));
    let mut wrong_profile = standard_sync();
    wrong_profile.profile.key = encrypt_aes256_cbc_hmac(&user_key(), &[7u8; 64]).unwrap();
    assert_eq!(
        unlock_vault(&wrong_profile, &input(None, None), &keys()).err(),
        Some(Error::UserKeyNotDecrypted)
    );
}

#[test]
fn a_session_key_unwraps_before_the_derived_keys() {
    let session = [42u8; 64];
    let mut data = standard_sync();
    data.profile.key = encrypt_aes256_cbc_hmac(&user_key(), &session).unwrap();
    let mut with_session = input(None, None);
    with_session.session_key_b64 = Some(b64(&session));
    let unlocked = unlock_vault(&data, &with_session, &keys()).ok().unwrap();
    assert_eq!(unlocked.user_key, user_key());
    assert_eq!(unlock_vault(&data, &input(None, None), &keys()).err(), Some(Error::UserKeyNotDecrypted));
}

#[test]
fn the_ladder_runs_from_prelogin_to_the_keys() {
    let input = input(None, Some(PASSWORD));
    let (state, action) = ladder_step(&input, LadderState::Start, LadderEvent::Begin);
    assert!(matches!(action, LadderAction::Prelogin));
    let (state, action) = ladder_step(&input, state, LadderEvent::Kdf(pbkdf2_info()));
    match action {
        LadderAction::Login { master_password_hash } => {
            assert_eq!(master_password_hash, keys().master_password_hash)
        }
        _ => panic!("expected a login"),
    }
    let (state, action) = ladder_step(&input, state, LadderEvent::LoggedIn);
    assert!(matches!(action, LadderAction::Sync));
    let (state, action) = ladder_step(&input, state, LadderEvent::Synced(standard_sync()));
    assert!(matches!(state, LadderState::Finished));
    match action {
        LadderAction::Done(unlocked) => {
            assert_eq!(unlocked.org_id, "org-1");
            assert_eq!(unlocked.org_key, org_key());
            assert_eq!(unlocked.user_key, user_key());
        }
        _ => panic!("expected the keys"),
    }
}

#[test]
fn the_ladder_asks_for_the_password_it_was_not_given() {
    let input = input(None, None);
    let (state, _) = ladder_step(&input, LadderState::Start, LadderEvent::Begin);
    let (state, action) = ladder_step(&input, state, LadderEvent::Kdf(pbkdf2_info()));
    assert!(matches!(action, LadderAction::PromptPassword));
    let (state, action) = ladder_step(&input, state, LadderEvent::Password(PASSWORD.to_string()));
    assert!(matches!(state, LadderState::AwaitingLogin { .. }));
    assert!(matches!(action, LadderAction::Login { .. }));
}

#[test]
fn the_ladder_ends_on_failures_and_on_events_out_of_turn() {
    let input = input(None, Some(PASSWORD));
    let (state, action) = ladder_step(&input, LadderState::AwaitingKdf, LadderEvent::Failed(Error::RequestFailed));
    assert!(matches!(state, LadderState::Finished));
    assert!(matches!(action, LadderAction::Fail(Error::RequestFailed)));
    let (_, action) = ladder_step(&input, LadderState::Start, LadderEvent::LoggedIn);
    assert!(matches!(action, LadderAction::Fail(Error::OutOfTurn)));
    let (_, action) = ladder_step(&input, LadderState::Finished, LadderEvent::Begin);
    assert!(matches!(action, LadderAction::Fail(Error::OutOfTurn)));
    let unknown = KdfInfo { kdf: 9, kdf_iterations: 1, kdf_memory: None, kdf_parallelism: None };
    let (_, action) = ladder_step(&input, LadderState::AwaitingKdf, LadderEvent::Kdf(unknown));
    assert!(matches!(action, LadderAction::Fail(Error::UnknownKdf)));
}
