//! The cipher that is created for a secret.

use crate::commands::create_items::types::SecretConfig;
use crate::crypto::field::{decrypt_text_spec, encrypt_text, fits};
use crate::error::Error;
use crate::infra::k8s::{get_k8s_secret, secret_value_spec};
use crate::text::{append, chars_of, clone_strings, starts_with, string_of, string_views, subvec};
use crate::text_map::{lookup, TextMap};
use vstd::prelude::*;

verus! {

/// The name that a cipher is filed under: the name of the secret or, where
/// the secret belongs to an environment, the name without the environment
/// and a hyphen in front, then a slash and the environment.
pub open spec fn label_spec(name: Seq<char>, env: Option<Seq<char>>) -> Seq<char> {
    match env {
        None => name,
        Some(e) => {
            let prefix = e + seq!['-'];
            let base = if prefix.is_prefix_of(name) {
                name.skip(prefix.len() as int)
            } else {
                name
            };
            base + seq!['/'] + e
        },
    }
}

/// The name that a cipher is filed under.
pub fn item_label(name: &str, env: Option<&str>) -> (label: String)
    ensures
        label@ == label_spec(
            name@,
            match env {
                Some(e) => Some(e@),
                None => None,
            },
        ),
{
    let name_chars = chars_of(name);
    match env {
        None => string_of(name_chars.as_slice()),
        Some(e) => {
            let env_chars = chars_of(e);
            let mut prefix = chars_of(e);
            prefix.push('-');
            let mut out = if starts_with(name_chars.as_slice(), prefix.as_slice()) {
                let base = subvec(name_chars.as_slice(), prefix.len(), name_chars.len());
                assert(base@ == name@.skip(prefix@.len() as int));
                base
            } else {
                chars_of(name)
            };
            out.push('/');
            append(&mut out, env_chars.as_slice());
            string_of(out.as_slice())
        },
    }
}

/// The names of the keys of a secret: those of its keys or, without keys,
/// those of its source files.
pub fn key_names(secret: &SecretConfig) -> (names: Vec<String>)
    ensures
        match (secret.keys, secret.source_files) {
            (Some(keys), _) => names@.len() == keys@.len() && forall|i: int|
                0 <= i < keys@.len() ==> (#[trigger] names@[i])@ == keys@[i].name_spec(),
            (None, Some(files)) => names@.len() == files@.len() && forall|i: int|
                0 <= i < files@.len() ==> #[trigger] names@[i] == files@[i].0,
            (None, None) => names@.len() == 0,
        },
{
    let mut names: Vec<String> = Vec::new();
    match &secret.keys {
        Some(keys) => {
            let mut i: usize = 0;
            while i < keys.len()
                invariant
                    i <= keys@.len(),
                    names@.len() == i,
                    forall|j: int| 0 <= j < i ==> (#[trigger] names@[j])@ == keys@[j].name_spec(),
                decreases keys@.len() - i,
            {
                names.push(keys[i].name().to_owned());
                i += 1;
            }
        },
        None => match &secret.source_files {
            Some(files) => {
                let mut i: usize = 0;
                while i < files.len()
                    invariant
                        i <= files@.len(),
                        names@.len() == i,
                        forall|j: int| 0 <= j < i ==> #[trigger] names@[j] == files@[j].0,
                    decreases files@.len() - i,
                {
                    names.push(files[i].0.clone());
                    i += 1;
                }
            },
            None => {},
        },
    }
    names
}

/// The values that the cluster holds for the keys: for every key that the
/// data of the secret has a value for, that value. A key that the data has
/// no value for is left out.
pub fn fetched_values(names: &Vec<String>, data: &Option<Vec<(String, Option<String>)>>) -> (values:
    TextMap)
    ensures
        forall|i: int|
            0 <= i < names@.len() ==> match secret_value_spec(*data, (#[trigger] names@[i])@) {
                Ok(v) => lookup(values.pairs(), names@[i]@) == Some(v),
                Err(_) => lookup(values.pairs(), names@[i]@) is None,
            },
        forall|k: Seq<char>| #[trigger]
            lookup(values.pairs(), k) is Some ==> secret_value_spec(*data, k) == Ok::<
                Seq<char>,
                Error,
            >(lookup(values.pairs(), k)->0),
{
    let mut values = TextMap::new();
    let mut i: usize = 0;
    while i < names.len()
        invariant
            i <= names@.len(),
            forall|j: int|
                0 <= j < i ==> match secret_value_spec(*data, (#[trigger] names@[j])@) {
                    Ok(v) => lookup(values.pairs(), names@[j]@) == Some(v),
                    Err(_) => lookup(values.pairs(), names@[j]@) is None,
                },
            forall|k: Seq<char>| #[trigger]
                lookup(values.pairs(), k) is Some ==> secret_value_spec(*data, k) == Ok::<
                    Seq<char>,
                    Error,
                >(lookup(values.pairs(), k)->0),
        decreases names@.len() - i,
    {
        let ghost before = values.pairs();
        match get_k8s_secret(data, names[i].as_str()) {
            Ok(v) => {
                values.insert(names[i].clone(), v);
                proof {
                    assert forall|k: Seq<char>| #[trigger]
                        lookup(values.pairs(), k) is Some implies secret_value_spec(*data, k) == Ok::<
                        Seq<char>,
                        Error,
                    >(lookup(values.pairs(), k)->0) by {
                        crate::text_map::lemma_put(before, names@[i as int]@, v@, k);
                    }
                    assert forall|j: int| 0 <= j <= i implies match secret_value_spec(
                        *data,
                        (#[trigger] names@[j])@,
                    ) {
                        Ok(w) => lookup(values.pairs(), names@[j]@) == Some(w),
                        Err(_) => lookup(values.pairs(), names@[j]@) is None,
                    } by {
                        crate::text_map::lemma_put(before, names@[i as int]@, v@, names@[j]@);
                    }
                }
            },
            Err(_) => {},
        }
        i += 1;
    }
    values
}

/// A custom field of a new cipher: its name and its value, both encrypted,
/// and its type.
#[derive(Debug)]
pub struct PayloadField {
    pub name: String,
    pub value: String,
    pub field_type: i64,
}

/// A cipher to create: a login, with everything that names or holds
/// anything encrypted under the organization key.
#[derive(Debug)]
pub struct CipherPayload {
    /// The type of the cipher; 1 is a login.
    pub cipher_type: i64,
    pub name: String,
    pub notes: String,
    pub fields: Vec<PayloadField>,
    pub username: String,
    pub password: String,
    pub organization_id: String,
    pub collection_ids: Vec<String>,
    pub folder_id: Option<String>,
}

/// The characters of `:current`.
pub open spec fn current_spec() -> Seq<char> {
    seq![':', 'c', 'u', 'r', 'r', 'e', 'n', 't']
}

/// The characters of `:previous`.
pub open spec fn previous_spec() -> Seq<char> {
    seq![':', 'p', 'r', 'e', 'v', 'i', 'o', 'u', 's']
}

/// The text that a value may be missing from stands for: the value, or the
/// empty text.
pub open spec fn or_empty(v: Option<Seq<char>>) -> Seq<char> {
    match v {
        Some(s) => s,
        None => seq![],
    }
}

/// Whether the field decrypts to the given name and value and is hidden.
pub open spec fn field_decrypts_to(
    field: PayloadField,
    name: Seq<char>,
    value: Seq<char>,
    org_key: Seq<u8>,
) -> bool {
    &&& decrypt_text_spec(field.name@, org_key) == Some(name)
    &&& decrypt_text_spec(field.value@, org_key) == Some(value)
    &&& field.field_type == 1
}

/// The names and values of the fields of a new cipher, in plain text: for
/// every key two fields, `<label>:<key>:current` with the value that was
/// fetched for the key, or empty, and `<label>:<key>:previous`, empty.
pub open spec fn plain_fields_spec(
    label: Seq<char>,
    names: Seq<Seq<char>>,
    pairs: Seq<(Seq<char>, Seq<char>)>,
) -> Seq<(Seq<char>, Seq<char>)>
    decreases names.len(),
{
    if names.len() == 0 {
        seq![]
    } else {
        plain_fields_spec(label, names.drop_last(), pairs) + seq![
            (label + seq![':'] + names.last() + current_spec(), or_empty(lookup(pairs, names.last()))),
            (label + seq![':'] + names.last() + previous_spec(), seq![]),
        ]
    }
}

/// Whether `fields` are hidden fields that decrypt, one by one, to the
/// names and values of `plain`.
pub open spec fn are_fields_of(
    fields: Seq<PayloadField>,
    plain: Seq<(Seq<char>, Seq<char>)>,
    org_key: Seq<u8>,
) -> bool {
    &&& fields.len() == plain.len()
    &&& forall|i: int|
        0 <= i < fields.len() ==> field_decrypts_to(
            #[trigger] fields[i],
            plain[i].0,
            plain[i].1,
            org_key,
        )
}

/// Whether every text of the cipher to create is short enough to be
/// encrypted: its label, its notes, the names and values of its fields, its
/// user name and its password.
pub open spec fn payload_fits(
    label: Seq<char>,
    notes: Option<Seq<char>>,
    names: Seq<Seq<char>>,
    pairs: Seq<(Seq<char>, Seq<char>)>,
) -> bool {
    &&& fits(label)
    &&& fits(or_empty(notes))
    &&& forall|i: int|
        0 <= i < names.len() ==> {
            &&& fits(label + seq![':'] + #[trigger] names[i] + current_spec())
            &&& fits(or_empty(lookup(pairs, names[i])))
            &&& fits(label + seq![':'] + names[i] + previous_spec())
        }
    &&& fits(or_empty(lookup(pairs, crate::logic::parsing::username_spec())))
    &&& fits(or_empty(lookup(pairs, crate::logic::parsing::password_spec())))
}

/// The label of a secret.
pub open spec fn label_of(secret: SecretConfig) -> Seq<char> {
    label_spec(
        secret.name@,
        match secret.env {
            Some(e) => Some(e@),
            None => None,
        },
    )
}

/// Whether `p` is the cipher to create for the secret.
pub open spec fn is_payload_of(
    p: CipherPayload,
    secret: SecretConfig,
    names: Seq<Seq<char>>,
    pairs: Seq<(Seq<char>, Seq<char>)>,
    org_id: Seq<char>,
    org_key: Seq<u8>,
    collection_ids: Seq<String>,
    folder_id: Option<String>,
    notes: Option<Seq<char>>,
) -> bool {
    let label = label_spec(
        secret.name@,
        match secret.env {
            Some(e) => Some(e@),
            None => None,
        },
    );
    &&& p.cipher_type == 1
    &&& decrypt_text_spec(p.name@, org_key) == Some(label)
    &&& decrypt_text_spec(p.notes@, org_key) == Some(or_empty(notes))
    &&& are_fields_of(p.fields@, plain_fields_spec(label, names, pairs), org_key)
    &&& decrypt_text_spec(p.username@, org_key) == Some(
        or_empty(lookup(pairs, crate::logic::parsing::username_spec())),
    )
    &&& decrypt_text_spec(p.password@, org_key) == Some(
        or_empty(lookup(pairs, crate::logic::parsing::password_spec())),
    )
    &&& p.organization_id@ == org_id
    &&& p.collection_ids@ == collection_ids
    &&& p.folder_id == folder_id
}

/// The value of a key among the fetched values, or the empty text.
fn value_or_empty(values: &TextMap, key: &str) -> (v: String)
    ensures
        v@ == or_empty(lookup(values.pairs(), key@)),
{
    match values.get(key) {
        Some(v) => v.clone(),
        None => String::new(),
    }
}

/// The name of a field: `<label>:<key>` and the suffix.
fn field_name(label: &str, key: &str, suffix: &str) -> (name: String)
    ensures
        name@ == label@ + seq![':'] + key@ + suffix@,
{
    let mut out = chars_of(label);
    out.push(':');
    let key_chars = chars_of(key);
    append(&mut out, key_chars.as_slice());
    let suffix_chars = chars_of(suffix);
    append(&mut out, suffix_chars.as_slice());
    string_of(out.as_slice())
}

/// Builds the cipher to create for a secret: a login named by the label of
/// the secret, with two hidden fields for every key, all encrypted under the
/// organization key. It fails where the organization key is shorter than 64
/// bytes or a text is too long to encrypt.
pub fn build_payload(
    secret: &SecretConfig,
    org_id: &str,
    org_key: &[u8],
    collection_ids: &Vec<String>,
    folder_id: Option<String>,
    notes: Option<String>,
    names: &Vec<String>,
    values: &TextMap,
) -> (r: Result<CipherPayload, Error>)
    ensures
        r matches Ok(p) ==> is_payload_of(
            p,
            *secret,
            string_views(names@),
            values.pairs(),
            org_id@,
            org_key@,
            collection_ids@,
            folder_id,
            match notes {
                Some(n) => Some(n@),
                None => None,
            },
        ),
        org_key@.len() < 64 ==> (r matches Err(e) && e == Error::KeyTooShort),
        org_key@.len() >= 64 ==> (r matches Err(e) ==> e == Error::PlaintextTooLong),
        r is Ok <==> org_key@.len() >= 64 && payload_fits(
            label_of(*secret),
            match notes {
                Some(n) => Some(n@),
                None => None,
            },
            string_views(names@),
            values.pairs(),
        ),
{
    proof {
        reveal_strlit(":current");
        reveal_strlit(":previous");
        reveal_strlit("username");
        reveal_strlit("password");
    }
    assert(":current"@ =~= current_spec());
    assert(":previous"@ =~= previous_spec());
    assert("username"@ =~= crate::logic::parsing::username_spec());
    assert("password"@ =~= crate::logic::parsing::password_spec());
    let env = match &secret.env {
        Some(e) => Some(e.as_str()),
        None => None,
    };
    let label = item_label(secret.name.as_str(), env);
    let name_enc = encrypt_text(label.as_str(), org_key)?;
    let notes_text = match &notes {
        Some(n) => n.clone(),
        None => String::new(),
    };
    let notes_enc = encrypt_text(notes_text.as_str(), org_key)?;
    let mut fields: Vec<PayloadField> = Vec::new();
    let mut i: usize = 0;
    assert(string_views(names@).take(0) =~= Seq::<Seq<char>>::empty());
    while i < names.len()
        invariant
            i <= names@.len(),
            ":current"@ == current_spec(),
            ":previous"@ == previous_spec(),
            org_key@.len() >= 64,
            label@ == label_of(*secret),
            are_fields_of(
                fields@,
                plain_fields_spec(label@, string_views(names@).take(i as int), values.pairs()),
                org_key@,
            ),
            forall|j: int|
                0 <= j < i ==> {
                    &&& fits(label@ + seq![':'] + #[trigger] string_views(names@)[j] + current_spec())
                    &&& fits(or_empty(lookup(values.pairs(), string_views(names@)[j])))
                    &&& fits(label@ + seq![':'] + string_views(names@)[j] + previous_spec())
                },
        decreases names@.len() - i,
    {
        let key = names[i].as_str();
        let ghost next = string_views(names@).take(i + 1);
        assert(next.drop_last() == string_views(names@).take(i as int));
        assert(next.last() == key@);
        assert(string_views(names@)[i as int] == key@);
        let value = value_or_empty(values, key);
        let current = field_name(label.as_str(), key, ":current");
        let previous = field_name(label.as_str(), key, ":previous");
        let empty = String::new();
        let first = PayloadField {
            name: encrypt_text(current.as_str(), org_key)?,
            value: encrypt_text(value.as_str(), org_key)?,
            field_type: 1,
        };
        let second = PayloadField {
            name: encrypt_text(previous.as_str(), org_key)?,
            value: encrypt_text(empty.as_str(), org_key)?,
            field_type: 1,
        };
        let ghost before = fields@;
        fields.push(first);
        fields.push(second);
        proof {
            let plain = plain_fields_spec(label@, next, values.pairs());
            assert forall|k: int| 0 <= k < fields@.len() implies field_decrypts_to(
                #[trigger] fields@[k],
                plain[k].0,
                plain[k].1,
                org_key@,
            ) by {
                if k < before.len() {
                    assert(fields@[k] == before[k]);
                }
            }
        }
        i += 1;
    }
    assert(string_views(names@).take(names@.len() as int) == string_views(names@));
    let username = value_or_empty(values, "username");
    let password = value_or_empty(values, "password");
    let username_enc = encrypt_text(username.as_str(), org_key)?;
    let password_enc = encrypt_text(password.as_str(), org_key)?;
    Ok(
        CipherPayload {
            cipher_type: 1,
            name: name_enc,
            notes: notes_enc,
            fields,
            username: username_enc,
            password: password_enc,
            organization_id: org_id.to_owned(),
            collection_ids: clone_strings(collection_ids),
            folder_id,
        },
    )
}

} // verus!
