//! The rotation of a user of the identity provider: a new password, and its
//! hash in the form that the identity provider stores.

use crate::commands::rotate::authentik::{generate_blueprint, is_blueprint_of, Blueprint};
use crate::crypto::b64::{base64_encode, base64_encode_spec};
use crate::crypto::kdf::{derive_master_key_pbkdf2, pbkdf2_sha256_spec};
use crate::infra::random::{get_random_string, is_alphanumeric_text};
use crate::models::user::UserDefinition;
use crate::text::{append, chars_of, string_of};
use vstd::prelude::*;
use vstd::string::StringSliceAdditionalSpecFns;
use vstd::utf8::encode_utf8;

verus! {

/// The rounds of PBKDF2 that the hash of a password takes.
pub const HASH_ITERATIONS: u32 = 260000;

/// The length of a new password.
pub const USER_PASSWORD_LENGTH: usize = 32;

/// The length of the salt of a hash.
pub const SALT_LENGTH: usize = 12;

/// The characters of `pbkdf2_sha256$260000$`, which begin a hash.
pub open spec fn hash_head_spec() -> Seq<char> {
    seq![
        'p', 'b', 'k', 'd', 'f', '2', '_', 's', 'h', 'a', '2', '5', '6', '$', '2', '6', '0', '0',
        '0', '0', '$',
    ]
}

/// The hash of a password in the form `pbkdf2_sha256$260000$<salt>$<hash>`,
/// where the hash is the base64 text of the 32 bytes that PBKDF2-HMAC-SHA256
/// derives from the password and the salt in 260000 rounds.
pub open spec fn django_hash_spec(password: Seq<char>, salt: Seq<char>) -> Seq<char> {
    hash_head_spec() + salt + seq!['$'] + base64_encode_spec(
        pbkdf2_sha256_spec(encode_utf8(password), encode_utf8(salt), HASH_ITERATIONS),
    )
}

/// The hash of a password with the given salt.
pub fn django_hash(password: &str, salt: &str) -> (hash: String)
    ensures
        hash@ == django_hash_spec(password@, salt@),
{
    proof {
        reveal_strlit("pbkdf2_sha256$260000$");
    }
    assert("pbkdf2_sha256$260000$"@ =~= hash_head_spec());
    let bytes = derive_master_key_pbkdf2(password.as_bytes(), salt.as_bytes(), HASH_ITERATIONS);
    let encoded = base64_encode(bytes.as_slice());
    let mut out = chars_of("pbkdf2_sha256$260000$");
    let salt_chars = chars_of(salt);
    append(&mut out, salt_chars.as_slice());
    out.push('$');
    let encoded_chars = chars_of(encoded.as_str());
    append(&mut out, encoded_chars.as_slice());
    string_of(out.as_slice())
}

/// What the rotation of a user gives: the new password, its hash, and the
/// blueprint that carries the hash to the identity provider, where the user
/// has a blueprint target.
#[derive(Debug)]
pub struct UserRotation {
    pub password: String,
    pub django_hash: String,
    pub blueprint: Option<Blueprint>,
}

/// Rotates a user: a new random password of 32 letters and digits, its hash
/// under a new random salt of 12, and the blueprint with the hash as the
/// secret. Nothing is written to the vault for users.
pub fn process_user(user: &UserDefinition) -> (r: UserRotation)
    ensures
        r.password@.len() == USER_PASSWORD_LENGTH,
        is_alphanumeric_text(r.password@),
        exists|salt: Seq<char>|
            salt.len() == SALT_LENGTH && is_alphanumeric_text(salt) && r.django_hash@
                == #[trigger] django_hash_spec(r.password@, salt),
        match user.authentik {
            None => r.blueprint is None,
            Some(target) => r.blueprint matches Some(b) && is_blueprint_of(
                b,
                target,
                r.django_hash@,
            ),
        },
{
    let password = get_random_string(USER_PASSWORD_LENGTH);
    let salt = get_random_string(SALT_LENGTH);
    let hash = django_hash(password.as_str(), salt.as_str());
    assert(hash@ == django_hash_spec(password@, salt@));
    let blueprint = match &user.authentik {
        Some(target) => Some(generate_blueprint(target, hash.as_str())),
        None => None,
    };
    UserRotation { password, django_hash: hash, blueprint }
}

} // verus!
