//! The key ladder: from the master password to the master key, to the user's
//! symmetric key, to the key of an organization.
//!
//! The requests to the vault are not made here. `ladder_step` says which one
//! is due, takes the answer, and decides what follows.

use crate::crypto::aes::{
    decrypt_aes256_cbc_hmac, decrypt_aes256_cbc_raw, decrypt_mac_spec, decrypt_raw_spec,
    has_type_tag, has_type_tag_spec,
};
use crate::crypto::b64::{base64_decode, base64_decode_spec, base64_encode, base64_encode_spec};
use crate::crypto::kdf::{
    derive_argon2id_spec, derive_master_key_argon2id, derive_master_key_pbkdf2,
    pbkdf2_sha256_spec, stretch_key_hkdf, stretch_spec,
};
use crate::crypto::rsa::{decrypt_rsa_der, decrypt_rsa_der_spec};
use crate::error::Error;
use crate::text::{as_opt_str, opt_string, opt_text, str_eq, to_lowercase, to_lowercase_spec};
use crate::vaultwarden::models::{KdfInfo, Organization, SyncData};
use vstd::prelude::*;
use vstd::slice::slice_to_vec;
use vstd::string::StringSliceAdditionalSpecFns;
use vstd::utf8::encode_utf8;

verus! {

/// What the caller brings to the ladder.
pub struct LadderInput {
    pub email: String,
    /// A session key, in base64: a key that may unwrap the user's key.
    pub session_key_b64: Option<String>,
    /// The master password, where it need not be asked for.
    pub password_override: Option<String>,
    /// The organization to pick, by id or by name; the first one otherwise.
    pub org_id_filter: Option<String>,
}

/// The keys that the master password gives.
pub struct LoginKeys {
    pub master_key: Vec<u8>,
    pub master_password_hash_bytes: Vec<u8>,
    /// The hash in base64, as the login sends it.
    pub master_password_hash: String,
}

/// The end of the ladder.
pub struct Unlocked {
    pub org_id: String,
    pub org_key: Vec<u8>,
    pub user_key: Vec<u8>,
}

/// The memory in MiB that Argon2id takes where the server names none.
pub const DEFAULT_ARGON2_MEMORY: u32 = 64;

/// The lanes that Argon2id takes where the server names none.
pub const DEFAULT_ARGON2_PARALLELISM: u32 = 4;

/// The master key: derived from the password, salted with the e-mail address
/// in lower case, by PBKDF2 for kdf 0 and by Argon2id for kdf 1.
pub open spec fn master_key_spec(kdf: KdfInfo, password: Seq<char>, email: Seq<char>) -> Result<
    Seq<u8>,
    Error,
> {
    let pw = encode_utf8(password);
    let salt = encode_utf8(to_lowercase_spec(email));
    if kdf.kdf == 0 {
        Ok(pbkdf2_sha256_spec(pw, salt, kdf.kdf_iterations))
    } else if kdf.kdf == 1 {
        derive_argon2id_spec(
            pw,
            salt,
            kdf.kdf_iterations,
            match kdf.kdf_memory {
                Some(m) => m,
                None => DEFAULT_ARGON2_MEMORY,
            },
            match kdf.kdf_parallelism {
                Some(p) => p,
                None => DEFAULT_ARGON2_PARALLELISM,
            },
        )
    } else {
        Err(Error::UnknownKdf)
    }
}

/// The hash that proves the master password to the server: one round of
/// PBKDF2 over the master key, salted with the password.
pub open spec fn master_password_hash_spec(master_key: Seq<u8>, password: Seq<char>) -> Seq<u8> {
    pbkdf2_sha256_spec(master_key, encode_utf8(password), 1)
}

impl LoginKeys {
    /// Both keys have 32 bytes.
    pub open spec fn wf(&self) -> bool {
        &&& self.master_key@.len() == 32
        &&& self.master_password_hash_bytes@.len() == 32
    }

    /// Whether these are the keys of `password` for the account `email`.
    pub open spec fn belong_to(&self, kdf: KdfInfo, password: Seq<char>, email: Seq<char>) -> bool {
        &&& master_key_spec(kdf, password, email) == Ok::<Seq<u8>, Error>(self.master_key@)
        &&& self.master_password_hash_bytes@ == master_password_hash_spec(
            self.master_key@,
            password,
        )
        &&& self.master_password_hash@ == base64_encode_spec(self.master_password_hash_bytes@)
    }
}

/// Derives the master key and the master password hash. It fails where the
/// server names a key derivation the library does not know, or parameters
/// that Argon2id does not take.
pub fn derive_login_keys(kdf_info: &KdfInfo, password: &str, email: &str) -> (r: Result<
    LoginKeys,
    Error,
>)
    ensures
        r matches Ok(keys) ==> keys.wf() && keys.belong_to(*kdf_info, password@, email@),
        r matches Err(e) ==> master_key_spec(*kdf_info, password@, email@) == Err::<Seq<u8>, Error>(
            e,
        ),
{
    let salt = to_lowercase(email);
    let master_key = if kdf_info.kdf == 0 {
        derive_master_key_pbkdf2(password.as_bytes(), salt.as_str().as_bytes(), kdf_info.kdf_iterations)
    } else if kdf_info.kdf == 1 {
        let memory = match kdf_info.kdf_memory {
            Some(m) => m,
            None => DEFAULT_ARGON2_MEMORY,
        };
        let parallelism = match kdf_info.kdf_parallelism {
            Some(p) => p,
            None => DEFAULT_ARGON2_PARALLELISM,
        };
        match derive_master_key_argon2id(
            password.as_bytes(),
            salt.as_str().as_bytes(),
            kdf_info.kdf_iterations,
            memory,
            parallelism,
        ) {
            Ok(k) => k,
            Err(e) => {
                return Err(e);
            },
        }
    } else {
        return Err(Error::UnknownKdf);
    };
    let hash_bytes = derive_master_key_pbkdf2(master_key.as_slice(), password.as_bytes(), 1);
    let hash = base64_encode(hash_bytes.as_slice());
    Ok(LoginKeys { master_key, master_password_hash_bytes: hash_bytes, master_password_hash: hash })
}

/// The keys that may unwrap the user's key, most specific first: the session
/// key where the caller brought one, the stretched master key, the stretched
/// master password hash, the master password hash, the master key.
pub open spec fn candidate_keys_spec(
    session_key: Option<Seq<u8>>,
    master_key: Seq<u8>,
    hash: Seq<u8>,
) -> Seq<Seq<u8>> {
    let derived = seq![stretch_spec(master_key), stretch_spec(hash), hash, master_key];
    match session_key {
        Some(k) => seq![k] + derived,
        None => derived,
    }
}

/// The candidate keys. It fails where the session key is not base64.
pub fn candidate_keys(session_key_b64: Option<&str>, keys: &LoginKeys) -> (r: Result<
    Vec<Vec<u8>>,
    Error,
>)
    requires
        keys.wf(),
    ensures
        match session_key_b64 {
            None => r matches Ok(c) && c.deep_view() == candidate_keys_spec(
                None,
                keys.master_key@,
                keys.master_password_hash_bytes@,
            ),
            Some(text) => match base64_decode_spec(text@) {
                None => r == Err::<Vec<Vec<u8>>, Error>(Error::InvalidSessionKey),
                Some(k) => r matches Ok(c) && c.deep_view() == candidate_keys_spec(
                    Some(k),
                    keys.master_key@,
                    keys.master_password_hash_bytes@,
                ),
            },
        },
{
    let mut out: Vec<Vec<u8>> = Vec::new();
    match session_key_b64 {
        Some(text) => match base64_decode(text) {
            Some(k) => {
                out.push(k);
            },
            None => {
                return Err(Error::InvalidSessionKey);
            },
        },
        None => {},
    }
    out.push(stretch_key_hkdf(keys.master_key.as_slice()));
    out.push(stretch_key_hkdf(keys.master_password_hash_bytes.as_slice()));
    out.push(slice_to_vec(keys.master_password_hash_bytes.as_slice()));
    out.push(slice_to_vec(keys.master_key.as_slice()));
    proof {
        let want = candidate_keys_spec(
            match session_key_b64 {
                Some(text) => base64_decode_spec(text@),
                None => None,
            },
            keys.master_key@,
            keys.master_password_hash_bytes@,
        );
        assert(out.deep_view().len() == want.len());
        assert forall|i: int| 0 <= i < want.len() implies out.deep_view()[i] == want[i] by {
            assert(out.deep_view()[i] == out@[i].deep_view());
            assert(out@[i].deep_view() =~= out@[i]@);
        }
        assert(out.deep_view() =~= want);
    }
    Ok(out)
}

/// What `key` unwraps from a cipher string: read as `IV|ciphertext|MAC`
/// first and, only where that fails, in the legacy form without MAC.
pub open spec fn unwrap_with_spec(text: Seq<char>, key: Seq<u8>) -> Result<Seq<u8>, Error> {
    match decrypt_mac_spec(text, key) {
        Ok(p) => Ok(p),
        Err(_) => decrypt_raw_spec(text, key),
    }
}

/// Unwraps a cipher string with `key`, in either form.
pub fn unwrap_with(text: &str, key: &[u8]) -> (r: Result<Vec<u8>, Error>)
    ensures
        crate::error::bytes_result(r) == unwrap_with_spec(text@, key@),
{
    match decrypt_aes256_cbc_hmac(text, key) {
        Ok(p) => Ok(p),
        Err(_) => decrypt_aes256_cbc_raw(text, key),
    }
}

/// What the first candidate that unwraps the cipher string gives, from the
/// candidate at `from` on.
pub open spec fn first_unwrap_spec(text: Seq<char>, candidates: Seq<Seq<u8>>, from: int) -> Option<
    Seq<u8>,
>
    decreases candidates.len() - from,
{
    if from < 0 || from >= candidates.len() {
        None
    } else {
        match unwrap_with_spec(text, candidates[from]) {
            Ok(p) => Some(p),
            Err(_) => first_unwrap_spec(text, candidates, from + 1),
        }
    }
}

/// The length of the user's symmetric key and of an organization key: 32
/// bytes that encrypt and 32 bytes that seal.
pub const COMPOSITE_KEY_LEN: usize = 64;

/// The user's symmetric key: what the first candidate that unwraps the
/// profile key gives. Later candidates are not tried, and a result that has
/// not the 64 bytes of a key counts as none.
pub open spec fn unwrap_user_key_spec(text: Seq<char>, candidates: Seq<Seq<u8>>) -> Result<
    Seq<u8>,
    Error,
> {
    match first_unwrap_spec(text, candidates, 0) {
        Some(p) => if p.len() == COMPOSITE_KEY_LEN {
            Ok(p)
        } else {
            Err(Error::UserKeyNotDecrypted)
        },
        None => Err(Error::UserKeyNotDecrypted),
    }
}

/// Unwraps the user's symmetric key with the first candidate that fits.
pub fn unwrap_user_key(profile_key: &str, candidates: &Vec<Vec<u8>>) -> (r: Result<Vec<u8>, Error>)
    ensures
        crate::error::bytes_result(r) == unwrap_user_key_spec(profile_key@, candidates.deep_view()),
        r matches Ok(k) ==> k@.len() == COMPOSITE_KEY_LEN,
{
    let mut i: usize = 0;
    while i < candidates.len()
        invariant
            i <= candidates.len(),
            first_unwrap_spec(profile_key@, candidates.deep_view(), 0) == first_unwrap_spec(
                profile_key@,
                candidates.deep_view(),
                i as int,
            ),
        decreases candidates.len() - i,
    {
        proof {
            assert(candidates.deep_view()[i as int] == candidates@[i as int].deep_view());
            assert(candidates@[i as int].deep_view() =~= candidates@[i as int]@);
        }
        match unwrap_with(profile_key, candidates[i].as_slice()) {
            Ok(p) => {
                if p.len() == COMPOSITE_KEY_LEN {
                    return Ok(p);
                } else {
                    return Err(Error::UserKeyNotDecrypted);
                }
            },
            Err(_) => {},
        }
        i += 1;
    }
    Err(Error::UserKeyNotDecrypted)
}

/// Whether the organization passes the filter: it has the id or the name
/// that the filter names, or there is no filter.
pub open spec fn org_matches(org: Organization, filter: Option<Seq<char>>) -> bool {
    match filter {
        None => true,
        Some(f) => org.id@ == f || org.name@ == f,
    }
}

/// The bytes as a key, where they are the 64 bytes of one.
pub open spec fn as_composite_key(bytes: Seq<u8>) -> Option<Seq<u8>> {
    if bytes.len() == COMPOSITE_KEY_LEN {
        Some(bytes)
    } else {
        None
    }
}

/// What one organization gives: its key, nothing, or an error that ends the
/// search. A key tagged `4.` is unwrapped by RSA, with the private key that
/// the user's key unwraps, in either form; an account without private key
/// gives nothing, and a private key that does not unwrap ends the search.
/// Any other key is decrypted under the user's key, and only with its MAC.
/// What is unwrapped is a key where it has 64 bytes, and nothing otherwise.
pub open spec fn org_key_spec(
    org: Organization,
    private_key: Option<Seq<char>>,
    user_key: Seq<u8>,
) -> Result<Option<Seq<u8>>, Error> {
    match org.key {
        None => Ok(None),
        Some(key) => if has_type_tag_spec(key@, '4') {
            match private_key {
                None => Ok(None),
                Some(pk) => match unwrap_with_spec(pk, user_key) {
                    Err(e) => Err(e),
                    Ok(der) => match decrypt_rsa_der_spec(key@, der) {
                        Ok(k) => Ok(as_composite_key(k)),
                        Err(_) => Ok(None),
                    },
                },
            }
        } else {
            match decrypt_mac_spec(key@, user_key) {
                Ok(k) => Ok(as_composite_key(k)),
                Err(_) => Ok(None),
            }
        },
    }
}

/// The first organization from `from` on that passes the filter and gives a
/// key, with that key.
pub open spec fn find_org_key_spec(
    orgs: Seq<Organization>,
    from: int,
    private_key: Option<Seq<char>>,
    user_key: Seq<u8>,
    filter: Option<Seq<char>>,
) -> Result<(int, Seq<u8>), Error>
    decreases orgs.len() - from,
{
    if from < 0 || from >= orgs.len() {
        Err(Error::OrgKeyNotFound)
    } else if !org_matches(orgs[from], filter) {
        find_org_key_spec(orgs, from + 1, private_key, user_key, filter)
    } else {
        match org_key_spec(orgs[from], private_key, user_key) {
            Err(e) => Err(e),
            Ok(Some(k)) => Ok((from, k)),
            Ok(None) => find_org_key_spec(orgs, from + 1, private_key, user_key, filter),
        }
    }
}

/// Finds the first organization that passes the filter and whose key
/// unwraps, and returns its index and its key.
pub fn find_org_key(
    orgs: &Vec<Organization>,
    private_key: Option<&str>,
    user_key: &[u8],
    filter: Option<&str>,
) -> (r: Result<(usize, Vec<u8>), Error>)
    ensures
        match find_org_key_spec(orgs@, 0, opt_text(private_key), user_key@, opt_text(filter)) {
            Ok((i, k)) => r matches Ok(found) && found.0 == i && found.1@ == k && i < orgs@.len(),
            Err(e) => r == Err::<(usize, Vec<u8>), Error>(e),
        },
        r matches Ok(found) ==> found.1@.len() == COMPOSITE_KEY_LEN,
{
    let mut i: usize = 0;
    while i < orgs.len()
        invariant
            i <= orgs.len(),
            find_org_key_spec(orgs@, 0, opt_text(private_key), user_key@, opt_text(filter))
                == find_org_key_spec(
                orgs@,
                i as int,
                opt_text(private_key),
                user_key@,
                opt_text(filter),
            ),
        decreases orgs.len() - i,
    {
        let org = &orgs[i];
        let passes = match filter {
            None => true,
            Some(f) => str_eq(org.id.as_str(), f) || str_eq(org.name.as_str(), f),
        };
        if passes {
            match &org.key {
                None => {},
                Some(key) => {
                    if has_type_tag(key.as_str(), '4') {
                        match private_key {
                            None => {},
                            Some(pk) => {
                                let der = match unwrap_with(pk, user_key) {
                                    Ok(d) => d,
                                    Err(e) => {
                                        return Err(e);
                                    },
                                };
                                match decrypt_rsa_der(key.as_str(), der.as_slice()) {
                                    Ok(k) => {
                                        if k.len() == COMPOSITE_KEY_LEN {
                                            return Ok((i, k));
                                        }
                                    },
                                    Err(_) => {},
                                }
                            },
                        }
                    } else {
                        match decrypt_aes256_cbc_hmac(key.as_str(), user_key) {
                            Ok(k) => {
                                if k.len() == COMPOSITE_KEY_LEN {
                                    return Ok((i, k));
                                }
                            },
                            Err(_) => {},
                        }
                    }
                },
            }
        }
        i += 1;
    }
    Err(Error::OrgKeyNotFound)
}

/// What the ladder ends with, once the vault has been synced: the session
/// key is decoded, the user's key unwrapped by the first candidate that
/// fits, and the first organization that passes the filter and whose key
/// unwraps is picked. Both keys have 64 bytes.
pub open spec fn unlock_spec(
    sync: SyncData,
    session_key_b64: Option<Seq<char>>,
    filter: Option<Seq<char>>,
    master_key: Seq<u8>,
    hash: Seq<u8>,
) -> Result<(Seq<char>, Seq<u8>, Seq<u8>), Error> {
    let session_key = match session_key_b64 {
        Some(t) => base64_decode_spec(t),
        None => None,
    };
    if session_key_b64 is Some && session_key is None {
        Err(Error::InvalidSessionKey)
    } else {
        match unwrap_user_key_spec(
            sync.profile.key@,
            candidate_keys_spec(session_key, master_key, hash),
        ) {
            Err(e) => Err(e),
            Ok(user_key) => match sync.profile.organizations {
                None => Err(Error::OrgKeyNotFound),
                Some(orgs) => match find_org_key_spec(
                    orgs@,
                    0,
                    opt_string(sync.profile.private_key),
                    user_key,
                    filter,
                ) {
                    Err(e) => Err(e),
                    Ok((i, org_key)) => Ok((orgs@[i].id@, org_key, user_key)),
                },
            },
        }
    }
}

/// The key of an organization that the search finds has 64 bytes.
pub proof fn lemma_found_key_has_64_bytes(
    orgs: Seq<Organization>,
    from: int,
    private_key: Option<Seq<char>>,
    user_key: Seq<u8>,
    filter: Option<Seq<char>>,
)
    requires
        0 <= from,
    ensures
        find_org_key_spec(orgs, from, private_key, user_key, filter) matches Ok(found)
            ==> found.1.len() == COMPOSITE_KEY_LEN && from <= found.0 < orgs.len(),
    decreases orgs.len() - from,
{
    if from < orgs.len() {
        lemma_found_key_has_64_bytes(orgs, from + 1, private_key, user_key, filter);
    }
}

/// Whatever the vault holds, the two keys that the ladder ends with have 64
/// bytes each.
pub proof fn lemma_unlocked_keys_have_64_bytes(
    sync: SyncData,
    session_key_b64: Option<Seq<char>>,
    filter: Option<Seq<char>>,
    master_key: Seq<u8>,
    hash: Seq<u8>,
)
    ensures
        unlock_spec(sync, session_key_b64, filter, master_key, hash) matches Ok(u) ==> u.1.len()
            == COMPOSITE_KEY_LEN && u.2.len() == COMPOSITE_KEY_LEN,
{
    let session_key = match session_key_b64 {
        Some(t) => base64_decode_spec(t),
        None => None,
    };
    match unwrap_user_key_spec(sync.profile.key@, candidate_keys_spec(session_key, master_key, hash)) {
        Ok(user_key) => match sync.profile.organizations {
            Some(orgs) => {
                lemma_found_key_has_64_bytes(
                    orgs@,
                    0,
                    opt_string(sync.profile.private_key),
                    user_key,
                    filter,
                );
            },
            None => {},
        },
        Err(_) => {},
    }
}

/// Unlocks the vault from what a sync returned.
pub fn unlock_vault(sync: &SyncData, input: &LadderInput, keys: &LoginKeys) -> (r: Result<
    Unlocked,
    Error,
>)
    requires
        keys.wf(),
    ensures
        match unlock_spec(
            *sync,
            opt_string(input.session_key_b64),
            opt_string(input.org_id_filter),
            keys.master_key@,
            keys.master_password_hash_bytes@,
        ) {
            Ok((id, org_key, user_key)) => r matches Ok(u) && u.org_id@ == id && u.org_key@
                == org_key && u.user_key@ == user_key,
            Err(e) => r matches Err(x) && x == e,
        },
        r matches Ok(u) ==> u.org_key@.len() == COMPOSITE_KEY_LEN && u.user_key@.len()
            == COMPOSITE_KEY_LEN,
{
    let candidates = match candidate_keys(as_opt_str(&input.session_key_b64), keys) {
        Ok(c) => c,
        Err(e) => {
            return Err(e);
        },
    };
    let user_key = match unwrap_user_key(sync.profile.key.as_str(), &candidates) {
        Ok(k) => k,
        Err(e) => {
            return Err(e);
        },
    };
    match &sync.profile.organizations {
        None => Err(Error::OrgKeyNotFound),
        Some(orgs) => match find_org_key(
            orgs,
            as_opt_str(&sync.profile.private_key),
            user_key.as_slice(),
            as_opt_str(&input.org_id_filter),
        ) {
            Err(e) => Err(e),
            Ok((i, org_key)) => Ok(Unlocked { org_id: orgs[i].id.clone(), org_key, user_key }),
        },
    }
}

/// Where the ladder stands.
pub enum LadderState {
    /// Nothing has been asked yet.
    Start,
    /// The key derivation parameters have been asked for.
    AwaitingKdf,
    /// The master password has been asked for.
    AwaitingPassword { kdf: KdfInfo },
    /// The login has been sent.
    AwaitingLogin { keys: LoginKeys },
    /// The sync has been asked for.
    AwaitingSync { keys: LoginKeys },
    /// The ladder has ended, with keys or with an error.
    Finished,
}

/// What came back from outside.
pub enum LadderEvent {
    /// The caller starts the ladder.
    Begin,
    /// The server named the key derivation for the account.
    Kdf(KdfInfo),
    /// The user typed the master password.
    Password(String),
    /// The server took the login.
    LoggedIn,
    /// The server sent the vault.
    Synced(SyncData),
    /// The request or the prompt failed.
    Failed(Error),
}

/// What is to be done next.
pub enum LadderAction {
    /// Ask the server for the key derivation of the account.
    Prelogin,
    /// Ask the user for the master password.
    PromptPassword,
    /// Log in with the master password hash.
    Login { master_password_hash: String },
    /// Ask the server for the vault.
    Sync,
    /// The ladder is done: here are the keys.
    Done(Unlocked),
    /// The ladder failed.
    Fail(Error),
}

/// What the ladder does once it has a password: it derives the keys and logs
/// in with the hash, or fails where the keys cannot be derived.
pub open spec fn after_password(
    kdf: KdfInfo,
    password: Seq<char>,
    email: Seq<char>,
    next: (LadderState, LadderAction),
) -> bool {
    match master_key_spec(kdf, password, email) {
        Err(e) => next.0 is Finished && next.1 == LadderAction::Fail(e),
        Ok(_) => {
            &&& next.0 matches LadderState::AwaitingLogin { keys }
            &&& keys.wf()
            &&& keys.belong_to(kdf, password, email)
            &&& next.1 matches LadderAction::Login { master_password_hash }
            &&& master_password_hash@ == keys.master_password_hash@
        },
    }
}

/// The step that the ladder takes from `state` on `event`.
///
/// It asks for the key derivation first. With the parameters it takes the
/// password the caller brought, or asks for one; with the password it
/// derives the keys and logs in; after the login it syncs; with the vault it
/// unlocks. A failure from outside, and an event that the state does not
/// await, end the ladder.
pub open spec fn ladder_step_spec(
    input: LadderInput,
    state: LadderState,
    event: LadderEvent,
    next: (LadderState, LadderAction),
) -> bool {
    match (state, event) {
        (_, LadderEvent::Failed(e)) => next.0 is Finished && next.1 == LadderAction::Fail(e),
        (LadderState::Start, LadderEvent::Begin) => next.0 is AwaitingKdf && next.1 is Prelogin,
        (LadderState::AwaitingKdf, LadderEvent::Kdf(kdf)) => match input.password_override {
            Some(p) => after_password(kdf, p@, input.email@, next),
            None => next.0 == (LadderState::AwaitingPassword { kdf }) && next.1 is PromptPassword,
        },
        (LadderState::AwaitingPassword { kdf }, LadderEvent::Password(p)) => after_password(
            kdf,
            p@,
            input.email@,
            next,
        ),
        (LadderState::AwaitingLogin { keys }, LadderEvent::LoggedIn) => next.0 == (
            LadderState::AwaitingSync { keys }) && next.1 is Sync,
        (LadderState::AwaitingSync { keys }, LadderEvent::Synced(sync)) => {
            &&& next.0 is Finished
            &&& keys.wf() ==> match unlock_spec(
                sync,
                opt_string(input.session_key_b64),
                opt_string(input.org_id_filter),
                keys.master_key@,
                keys.master_password_hash_bytes@,
            ) {
                Ok((id, org_key, user_key)) => next.1 matches LadderAction::Done(u) && u.org_id@
                    == id && u.org_key@ == org_key && u.user_key@ == user_key,
                Err(e) => next.1 == LadderAction::Fail(e),
            }
            &&& !keys.wf() ==> next.1 == LadderAction::Fail(Error::UserKeyNotDecrypted)
        },
        _ => next.0 is Finished && next.1 == LadderAction::Fail(Error::OutOfTurn),
    }
}

/// Derives the keys and logs in.
fn enter_password(kdf: &KdfInfo, password: &str, email: &str) -> (next: (LadderState, LadderAction))
    ensures
        after_password(*kdf, password@, email@, next),
{
    match derive_login_keys(kdf, password, email) {
        Err(e) => (LadderState::Finished, LadderAction::Fail(e)),
        Ok(keys) => {
            let hash = keys.master_password_hash.clone();
            (LadderState::AwaitingLogin { keys }, LadderAction::Login { master_password_hash: hash })
        },
    }
}

/// Takes one step of the ladder: from where it stands and what came back to
/// where it stands next and what is to be done.
pub fn ladder_step(input: &LadderInput, state: LadderState, event: LadderEvent) -> (next: (
    LadderState,
    LadderAction,
))
    ensures
        ladder_step_spec(*input, state, event, next),
{
    match (state, event) {
        (_, LadderEvent::Failed(e)) => (LadderState::Finished, LadderAction::Fail(e)),
        (LadderState::Start, LadderEvent::Begin) => (LadderState::AwaitingKdf, LadderAction::Prelogin),
        (LadderState::AwaitingKdf, LadderEvent::Kdf(kdf)) => match &input.password_override {
            Some(p) => enter_password(&kdf, p.as_str(), input.email.as_str()),
            None => (LadderState::AwaitingPassword { kdf }, LadderAction::PromptPassword),
        },
        (LadderState::AwaitingPassword { kdf }, LadderEvent::Password(p)) => enter_password(
            &kdf,
            p.as_str(),
            input.email.as_str(),
        ),
        (LadderState::AwaitingLogin { keys }, LadderEvent::LoggedIn) => (
            LadderState::AwaitingSync { keys },
            LadderAction::Sync,
        ),
        (LadderState::AwaitingSync { keys }, LadderEvent::Synced(sync)) => {
            if keys.master_key.len() != 32 || keys.master_password_hash_bytes.len() != 32 {
                (LadderState::Finished, LadderAction::Fail(Error::UserKeyNotDecrypted))
            } else {
                match unlock_vault(&sync, input, &keys) {
                    Ok(u) => (LadderState::Finished, LadderAction::Done(u)),
                    Err(e) => (LadderState::Finished, LadderAction::Fail(e)),
                }
            }
        },
        _ => (LadderState::Finished, LadderAction::Fail(Error::OutOfTurn)),
    }
}

} // verus!
