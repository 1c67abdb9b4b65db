//! What a rotation does to a cipher: the values of its keys go to the login
//! block and to hidden custom fields, and the notes get a fresh marker.

use crate::crypto::field::{decrypt_text, decrypt_text_spec, encrypt_text, fits};
use crate::crypto::aes::has_sealed_shape;
use crate::error::Error;
use crate::infra::clock::utc_now_rfc3339;
use crate::logic::parsing::{
    existing_value_spec, field_is_named, field_value_spec, first_holding, holds_text_for,
    is_login_key, is_password, is_username, login_text, password_spec, username_spec,
};
use crate::text::opt_string;
use crate::logic::parsing::find_existing_encrypted_value;
use crate::logic::policy::{marker, marker_spec, rotation_due, rotation_due_spec, should_rotate_by_policy};
use crate::logic::resolution::{
    public_key_spec, random_length, resolve_value, resolved_by, Resolved,
};
use crate::models::config::SecretDefinition;
use crate::models::keys::{KeyDefinition, KeyType};
use crate::text_map::{lemma_put, lookup, pair_views, put, put_all, TextMap};
use crate::search::{first_index, lemma_first_index, lemma_first_index_agrees, lemma_first_index_at};
use crate::text::{
    append, chars_of, contains, contains_run, join, join_spec, lines, lines_spec, starts_with, str_eq,
    string_of, views,
};
use crate::vaultwarden::item::{ItemField, ItemLogin, VaultItem, HIDDEN_FIELD};
use vstd::prelude::*;

verus! {

/// The window of the rotation policy, in days.
pub const ROTATION_WINDOW_DAYS: u64 = 30;

/// The notes of a cipher, empty where it has none.
pub open spec fn notes_of(item: VaultItem) -> Seq<char> {
    match item.notes {
        Some(n) => n@,
        None => seq![],
    }
}

/// Whether the cipher is to be rotated at the instant `now`: always when
/// forced, and otherwise when the policy says it is due.
pub open spec fn rotation_needed_spec(item: VaultItem, force: bool, now: (int, int)) -> bool {
    force || rotation_due_spec(notes_of(item), ROTATION_WINDOW_DAYS, now)
}

/// Whether the cipher is to be rotated at the instant `now`.
pub fn rotation_needed(item: &VaultItem, force: bool, now: (i64, u32)) -> (r: bool)
    ensures
        r == rotation_needed_spec(*item, force, (now.0 as int, now.1 as int)),
{
    if force {
        return true;
    }
    match &item.notes {
        Some(n) => rotation_due(n.as_str(), ROTATION_WINDOW_DAYS, now),
        None => {
            let empty = String::new();
            rotation_due(empty.as_str(), ROTATION_WINDOW_DAYS, now)
        },
    }
}

/// Whether the cipher is to be rotated now.
pub fn check_rotation_needed(item: &VaultItem, force: bool) -> (r: bool)
    ensures
        force ==> r,
        exists|now: (int, int)| r == rotation_needed_spec(*item, force, now),
{
    if force {
        assert(rotation_needed_spec(*item, force, (0, 0)));
        return true;
    }
    let r = match &item.notes {
        Some(n) => should_rotate_by_policy(n.as_str(), ROTATION_WINDOW_DAYS),
        None => {
            let empty = String::new();
            should_rotate_by_policy(empty.as_str(), ROTATION_WINDOW_DAYS)
        },
    };
    proof {
        let now = choose|now: (int, int)|
            r == rotation_due_spec(notes_of(*item), ROTATION_WINDOW_DAYS, now);
        assert(r == rotation_needed_spec(*item, force, now));
    }
    r
}

/// The characters of `Last Rotated:`, by which an old marker line is known.
pub open spec fn marker_head_spec() -> Seq<char> {
    seq!['L', 'a', 's', 't', ' ', 'R', 'o', 't', 'a', 't', 'e', 'd', ':']
}

/// The head of the marker, as characters.
fn marker_head() -> (m: Vec<char>)
    ensures
        m@ == marker_head_spec(),
{
    proof {
        reveal_strlit("Last Rotated:");
    }
    let m = chars_of("Last Rotated:");
    assert(m@ =~= marker_head_spec());
    m
}

/// The lines that do not begin with the head of the marker.
pub open spec fn unmarked(lines: Seq<Seq<char>>) -> Seq<Seq<char>>
    decreases lines.len(),
{
    if lines.len() == 0 {
        seq![]
    } else if marker_head_spec().is_prefix_of(lines.last()) {
        unmarked(lines.drop_last())
    } else {
        unmarked(lines.drop_last()).push(lines.last())
    }
}

/// The notes of a rotated cipher: the marker with the instant `now` as the
/// first line, then the old notes. Where the old notes hold the head of the
/// marker, their lines that begin with it are dropped and the others joined
/// by line feeds.
pub open spec fn regenerated_notes_spec(old: Seq<char>, now: Seq<char>) -> Seq<char> {
    let rest = if contains_run(old, marker_head_spec()) {
        join_spec(unmarked(lines_spec(old)), seq!['\n'])
    } else {
        old
    };
    marker_spec() + now + seq!['\n'] + rest
}

/// The notes of a rotated cipher.
pub fn regenerate_notes(old_notes: &str, now: &str) -> (r: String)
    ensures
        r@ == regenerated_notes_spec(old_notes@, now@),
{
    let old = chars_of(old_notes);
    let head = marker_head();
    let mut out = marker();
    let now_chars = chars_of(now);
    append(&mut out, now_chars.as_slice());
    out.push('\n');
    if contains(old.as_slice(), head.as_slice()) {
        let all = lines(old.as_slice());
        let mut kept: Vec<Vec<char>> = Vec::new();
        let mut i: usize = 0;
        assert(views(all@).take(0) =~= Seq::<Seq<char>>::empty());
        assert(views(kept@) =~= Seq::<Seq<char>>::empty());
        while i < all.len()
            invariant
                i <= all.len(),
                head@ == marker_head_spec(),
                views(kept@) == unmarked(views(all@).take(i as int)),
            decreases all.len() - i,
        {
            let ghost done = views(all@).take(i as int);
            let ghost next = views(all@).take(i + 1);
            let ghost before = kept@;
            assert(next.drop_last() == done);
            assert(next.last() == all@[i as int]@);
            if !starts_with(all[i].as_slice(), head.as_slice()) {
                let line = crate::text::subvec(all[i].as_slice(), 0, all[i].len());
                assert(line@ == all@[i as int]@);
                kept.push(line);
                assert(views(kept@) =~= views(before).push(line@));
            }
            i += 1;
        }
        assert(views(all@).take(all.len() as int) == views(all@));
        let mut sep: Vec<char> = Vec::new();
        sep.push('\n');
        let rest = join(&kept, sep.as_slice());
        append(&mut out, rest.as_slice());
    } else {
        append(&mut out, old.as_slice());
    }
    string_of(out.as_slice())
}

/// The notes of a rotated cipher begin with the marker and the instant.
pub proof fn lemma_marker_comes_first(old: Seq<char>, now: Seq<char>)
    ensures
        (marker_spec() + now).is_prefix_of(regenerated_notes_spec(old, now)),
{
    let r = regenerated_notes_spec(old, now);
    let head = marker_spec() + now;
    assert(r.subrange(0, head.len() as int) =~= head);
}

/// Whether the field at an index is named `key`.
pub open spec fn is_named(fields: Seq<ItemField>, key: Seq<char>, org_key: Seq<u8>) -> spec_fn(
    int,
) -> bool {
    |i: int| field_is_named(fields[i], key, org_key)
}

/// The index of the first field whose name decrypts to `key`, or the number
/// of fields.
pub open spec fn first_named(fields: Seq<ItemField>, key: Seq<char>, org_key: Seq<u8>) -> int {
    first_index(fields.len() as int, 0, is_named(fields, key, org_key))
}

/// Whether the field is hidden and holds the cipher string `value`.
pub open spec fn hidden_with(field: ItemField, value: Seq<char>) -> bool {
    &&& field.value matches Some(v)
    &&& v@ == value
    &&& field.field_type == Some(HIDDEN_FIELD)
}

/// The custom fields of a cipher, none where it has no list of them.
pub open spec fn fields_of(item: VaultItem) -> Seq<ItemField> {
    match item.fields {
        Some(f) => f@,
        None => seq![],
    }
}

/// The user name of a login block, where there is one.
pub open spec fn username_of(login: Option<ItemLogin>) -> Option<String> {
    match login {
        Some(l) => l.username,
        None => None,
    }
}

/// The password of a login block, where there is one.
pub open spec fn password_of(login: Option<ItemLogin>) -> Option<String> {
    match login {
        Some(l) => l.password,
        None => None,
    }
}

/// Whether `new` is the list `old` with the cipher string `value` for `key`:
/// the first field whose name decrypts to `key` holds the value and is
/// hidden; where there is none, a hidden field with the encrypted name
/// `name` and the value comes last. Nothing else differs.
pub open spec fn fields_hold(
    old: Seq<ItemField>,
    new: Seq<ItemField>,
    key: Seq<char>,
    value: Seq<char>,
    name: Seq<char>,
    org_key: Seq<u8>,
) -> bool {
    let i = first_named(old, key, org_key);
    if i < old.len() {
        &&& new.len() == old.len()
        &&& forall|j: int| 0 <= j < old.len() && j != i ==> new[j] == old[j]
        &&& new[i].name == old[i].name
        &&& hidden_with(new[i], value)
    } else {
        &&& new.len() == old.len() + 1
        &&& forall|j: int| 0 <= j < old.len() ==> new[j] == old[j]
        &&& new[old.len() as int].name matches Some(n)
        &&& n@ == name
        &&& hidden_with(new[old.len() as int], value)
    }
}

/// Whether `new` is the cipher `old` with the cipher string `value` for
/// `key`. The keys `username` and `password` live in the login block, which
/// is made where there is none; every other key lives in a hidden custom
/// field, whose encrypted name is `name` where it is new. Nothing else
/// differs.
pub open spec fn value_is_set(
    old: VaultItem,
    new: VaultItem,
    key: Seq<char>,
    value: Seq<char>,
    name: Seq<char>,
    org_key: Seq<u8>,
) -> bool {
    &&& new.id == old.id
    &&& new.name == old.name
    &&& new.notes == old.notes
    &&& new.folder_id == old.folder_id
    &&& new.collection_ids == old.collection_ids
    &&& new.has_collections == old.has_collections
    &&& if key == username_spec() {
        &&& new.fields == old.fields
        &&& new.login matches Some(l)
        &&& l.username matches Some(u)
        &&& u@ == value
        &&& l.password == password_of(old.login)
    } else if key == password_spec() {
        &&& new.fields == old.fields
        &&& new.login matches Some(l)
        &&& l.password matches Some(p)
        &&& p@ == value
        &&& l.username == username_of(old.login)
    } else {
        &&& new.login == old.login
        &&& new.fields is Some
        &&& fields_hold(fields_of(old), fields_of(new), key, value, name, org_key)
    }
}

/// The index of the first field whose name decrypts to `key`.
fn find_named(fields: &Vec<ItemField>, key: &str, org_key: &[u8]) -> (i: usize)
    ensures
        i == first_named(fields@, key@, org_key@),
        i <= fields@.len(),
{
    let mut i: usize = 0;
    while i < fields.len()
        invariant
            i <= fields@.len(),
            forall|j: int| 0 <= j < i ==> !#[trigger] is_named(fields@, key@, org_key@)(j),
        decreases fields@.len() - i,
    {
        let named = match &fields[i].name {
            Some(n) => match decrypt_text(n.as_str(), org_key) {
                Some(name) => str_eq(name.as_str(), key),
                None => false,
            },
            None => false,
        };
        if named {
            proof {
                let p = is_named(fields@, key@, org_key@);
                assert(p(i as int));
                lemma_first_index_at(fields@.len() as int, 0, p, i as int);
            }
            return i;
        }
        i += 1;
    }
    proof {
        lemma_first_index_at(
            fields@.len() as int,
            0,
            is_named(fields@, key@, org_key@),
            fields@.len() as int,
        );
    }
    i
}

/// Puts the cipher string `encrypted_value` into the cipher as the value of
/// `key`. `encrypted_name` is the name of the field where a new one is made.
pub fn set_item_value(
    item: &mut VaultItem,
    key: &str,
    encrypted_value: String,
    encrypted_name: String,
    org_key: &[u8],
)
    ensures
        value_is_set(
            *old(item),
            *final(item),
            key@,
            encrypted_value@,
            encrypted_name@,
            org_key@,
        ),
{
    if is_username(key) {
        let password = match item.login.take() {
            Some(l) => l.password,
            None => None,
        };
        item.login = Some(ItemLogin { username: Some(encrypted_value), password });
    } else if is_password(key) {
        let username = match item.login.take() {
            Some(l) => l.username,
            None => None,
        };
        item.login = Some(ItemLogin { username, password: Some(encrypted_value) });
    } else {
        let mut fields = match item.fields.take() {
            Some(f) => f,
            None => Vec::new(),
        };
        let ghost before = fields@;
        let i = find_named(&fields, key, org_key);
        if i < fields.len() {
            let old_field = fields.remove(i);
            fields.insert(
                i,
                ItemField {
                    name: old_field.name,
                    value: Some(encrypted_value),
                    field_type: Some(HIDDEN_FIELD),
                },
            );
        } else {
            fields.push(
                ItemField {
                    name: Some(encrypted_name),
                    value: Some(encrypted_value),
                    field_type: Some(HIDDEN_FIELD),
                },
            );
        }
        item.fields = Some(fields);
    }
}

/// Whether a value can be stored for a key: the organization key has 64
/// bytes or more, the value is short enough to be encrypted, and so is the
/// name of a key that lives in a custom field.
pub open spec fn storable(key: Seq<char>, value: Seq<char>, org_key: Seq<u8>) -> bool {
    &&& org_key.len() >= 64
    &&& fits(value)
    &&& is_login_key(key) || fits(key)
}

/// The error of a value that cannot be stored.
pub open spec fn crypto_error(org_key: Seq<u8>) -> Error {
    if org_key.len() < 64 {
        Error::KeyTooShort
    } else {
        Error::PlaintextTooLong
    }
}

/// Puts the cipher string `encrypted_value` into the cipher as the value of
/// `key`. The name of a custom field that is new is encrypted under the
/// organization key. It fails, and leaves the cipher as it is, where that
/// name cannot be encrypted.
fn apply_key_to_item(item: &mut VaultItem, key: &str, encrypted_value: &str, org_key: &[u8]) -> (r:
    Result<(), Error>)
    ensures
        r is Ok ==> exists|name: Seq<char>|
            {
                &&& #[trigger] value_is_set(
                    *old(item),
                    *final(item),
                    key@,
                    encrypted_value@,
                    name,
                    org_key@,
                )
                &&& !is_login_key(key@) ==> decrypt_text_spec(name, org_key@) == Some(key@)
            },
        r is Err ==> *final(item) == *old(item),
        r is Ok <==> is_login_key(key@) || (org_key@.len() >= 64 && fits(key@)),
        r matches Err(e) ==> e == crypto_error(org_key@),
{
    let encrypted_name = if is_username(key) || is_password(key) {
        String::new()
    } else {
        match encrypt_text(key, org_key) {
            Ok(n) => n,
            Err(e) => {
                return Err(e);
            },
        }
    };
    let ghost n = encrypted_name@;
    set_item_value(item, key, encrypted_value.to_owned(), encrypted_name, org_key);
    assert(value_is_set(*old(item), *item, key@, encrypted_value@, n, org_key@));
    Ok(())
}

/// Whether `new` is the cipher `old` with the text `plain` stored for `key`:
/// it holds a cipher string that decrypts to `plain` under the organization
/// key, in the place where `key` lives; a field that is new has a name that
/// decrypts to `key`.
pub open spec fn value_is_stored(
    old: VaultItem,
    new: VaultItem,
    key: Seq<char>,
    plain: Seq<char>,
    org_key: Seq<u8>,
) -> bool {
    exists|value: Seq<char>, name: Seq<char>|
        {
            &&& #[trigger] value_is_set(old, new, key, value, name, org_key)
            &&& has_sealed_shape(value)
            &&& decrypt_text_spec(value, org_key) == Some(plain)
            &&& !is_login_key(key) ==> decrypt_text_spec(name, org_key) == Some(key)
        }
}

/// Encrypts `value` under the organization key and stores it in the cipher
/// as the value of `key`. The name of a custom field is encrypted too. It
/// fails, and leaves the cipher as it is, where the organization key is
/// shorter than 64 bytes or a text is too long to encrypt.
pub fn store_item_value(item: &mut VaultItem, key: &str, value: &str, org_key: &[u8]) -> (r: Result<
    (),
    Error,
>)
    ensures
        r is Ok ==> value_is_stored(*old(item), *final(item), key@, value@, org_key@),
        r is Err ==> *final(item) == *old(item),
        r is Ok <==> storable(key@, value@, org_key@),
        r matches Err(e) ==> e == crypto_error(org_key@),
{
    let encrypted_value = match encrypt_text(value, org_key) {
        Ok(v) => v,
        Err(e) => {
            return Err(e);
        },
    };
    let r = apply_key_to_item(item, key, encrypted_value.as_str(), org_key);
    proof {
        if r is Ok {
            let name = choose|name: Seq<char>|
                {
                    &&& #[trigger] value_is_set(
                        *old(item),
                        *item,
                        key@,
                        encrypted_value@,
                        name,
                        org_key@,
                    )
                    &&& !is_login_key(key@) ==> decrypt_text_spec(name, org_key@) == Some(key@)
                };
            assert(value_is_set(*old(item), *item, key@, encrypted_value@, name, org_key@));
        }
    }
    r
}

/// A value that was set is what the cipher holds for its key afterwards.
pub proof fn lemma_stored_value_is_found(
    old: VaultItem,
    new: VaultItem,
    key: Seq<char>,
    plain: Seq<char>,
    org_key: Seq<u8>,
)
    requires
        value_is_stored(old, new, key, plain, org_key),
    ensures
        existing_value_spec(new, key, org_key) == Some(plain),
{
    let (value, name) = choose|value: Seq<char>, name: Seq<char>|
        {
            &&& #[trigger] value_is_set(old, new, key, value, name, org_key)
            &&& has_sealed_shape(value)
            &&& decrypt_text_spec(value, org_key) == Some(plain)
            &&& !is_login_key(key) ==> decrypt_text_spec(name, org_key) == Some(key)
        };
    if !is_login_key(key) {
        let a = fields_of(old);
        let b = fields_of(new);
        let i = first_named(a, key, org_key);
        lemma_first_index(a.len() as int, 0, is_named(a, key, org_key));
        let q = holds_text_for(b, key, org_key);
        assert forall|j: int| 0 <= j < i implies !#[trigger] q(j) by {
            assert(!is_named(a, key, org_key)(j));
            assert(b[j] == a[j]);
        }
        if i < a.len() {
            assert(is_named(a, key, org_key)(i));
        }
        assert(q(i));
        lemma_first_index_at(b.len() as int, 0, q, i);
    }
}

/// A value that was set for one key leaves what the cipher holds for every
/// other key.
pub proof fn lemma_stored_value_keeps_others(
    old: VaultItem,
    new: VaultItem,
    key: Seq<char>,
    plain: Seq<char>,
    org_key: Seq<u8>,
    other: Seq<char>,
)
    requires
        value_is_stored(old, new, key, plain, org_key),
        other != key,
    ensures
        existing_value_spec(new, other, org_key) == existing_value_spec(old, other, org_key),
{
    let (value, name) = choose|value: Seq<char>, name: Seq<char>|
        {
            &&& #[trigger] value_is_set(old, new, key, value, name, org_key)
            &&& has_sealed_shape(value)
            &&& decrypt_text_spec(value, org_key) == Some(plain)
            &&& !is_login_key(key) ==> decrypt_text_spec(name, org_key) == Some(key)
        };
    if is_login_key(key) {
        assert(login_text(new, other) == login_text(old, other));
        assert(fields_of(new) == fields_of(old));
        assert(field_value_spec(fields_of(new), other, org_key) == field_value_spec(
            fields_of(old),
            other,
            org_key,
        ));
        if old.fields is None {
            assert(new.fields is None);
        }
    } else {
        let a = fields_of(old);
        let b = fields_of(new);
        let i = first_named(a, key, org_key);
        lemma_first_index(a.len() as int, 0, is_named(a, key, org_key));
        let p = holds_text_for(a, other, org_key);
        let q = holds_text_for(b, other, org_key);
        assert forall|j: int| 0 <= j < a.len() implies #[trigger] p(j) == q(j) by {
            if j == i {
                assert(is_named(a, key, org_key)(i));
            } else {
                assert(b[j] == a[j]);
            }
        }
        assert forall|j: int| a.len() <= j < b.len() implies !#[trigger] q(j) by {}
        lemma_first_index_agrees(a.len() as int, b.len() as int, p, q);
        lemma_first_index(a.len() as int, 0, p);
        let k = first_holding(a, other, org_key);
        if k < a.len() {
            assert(p(k));
            if k != i {
                assert(b[k] == a[k]);
            }
        }
        if old.fields is None {
            assert(a.len() == 0);
        }
    }
}

/// Whether the cipher holds every value of the data: what it holds for a
/// key of the data is the value of the key.
pub open spec fn item_holds_data(
    item: VaultItem,
    pairs: Seq<(Seq<char>, Seq<char>)>,
    org_key: Seq<u8>,
) -> bool {
    forall|k: Seq<char>| #[trigger]
        lookup(pairs, k) is Some ==> existing_value_spec(item, k, org_key) == lookup(pairs, k)
}

/// Whether `new` differs from `old` only in the login block, the custom
/// fields and the notes.
pub open spec fn only_values_differ(old: VaultItem, new: VaultItem) -> bool {
    &&& new.id == old.id
    &&& new.name == old.name
    &&& new.folder_id == old.folder_id
    &&& new.collection_ids == old.collection_ids
    &&& new.has_collections == old.has_collections
}

/// Whether `states` are the ciphers that lead from `old` to `new` by
/// storing the texts of `stores`, each under its name, one after the other.
pub open spec fn leads_by_stores(
    states: Seq<VaultItem>,
    old: VaultItem,
    new: VaultItem,
    stores: Seq<(Seq<char>, Seq<char>)>,
    org_key: Seq<u8>,
) -> bool {
    &&& states.len() == stores.len() + 1
    &&& states[0] == old
    &&& states[stores.len() as int] == new
    &&& forall|i: int|
        0 <= i < stores.len() ==> value_is_stored(
            #[trigger] states[i],
            states[i + 1],
            stores[i].0,
            stores[i].1,
            org_key,
        )
}

/// Whether `new` is the cipher `old` after the texts of `stores` have been
/// stored in it, each under its name, one after the other: a login key in
/// the login block, with the custom fields as they were; any other key in
/// its hidden custom field, which is made where there is none, with the
/// login block as it was.
pub open spec fn values_are_stored(
    old: VaultItem,
    new: VaultItem,
    stores: Seq<(Seq<char>, Seq<char>)>,
    org_key: Seq<u8>,
) -> bool {
    exists|states: Seq<VaultItem>| #[trigger] leads_by_stores(states, old, new, stores, org_key)
}

/// What comes with a value, by name, as characters.
pub open spec fn aux_pairs(aux: Option<Vec<(String, String)>>) -> Seq<(Seq<char>, Seq<char>)> {
    match aux {
        Some(extra) => pair_views(extra@),
        None => seq![],
    }
}

/// What is stored for a key: its value under its name, then what came with
/// the value.
pub open spec fn stores_for(
    name: Seq<char>,
    value: Seq<char>,
    extra: Seq<(Seq<char>, Seq<char>)>,
) -> Seq<(Seq<char>, Seq<char>)> {
    seq![(name, value)] + extra
}

/// Whether the cipher `item` holds for every key what `base` holds once the
/// values of `known` have been stored in it.
pub open spec fn tracks(
    item: VaultItem,
    base: VaultItem,
    known: Seq<(Seq<char>, Seq<char>)>,
    org_key: Seq<u8>,
) -> bool {
    forall|k: Seq<char>| #[trigger]
        existing_value_spec(item, k, org_key) == held_value(base, known, k, org_key)
}

/// A cipher that keeps track holds the data.
proof fn lemma_tracks_holds(
    item: VaultItem,
    base: VaultItem,
    known: Seq<(Seq<char>, Seq<char>)>,
    org_key: Seq<u8>,
)
    requires
        tracks(item, base, known, org_key),
    ensures
        item_holds_data(item, known, org_key),
{
    assert forall|k: Seq<char>| #[trigger] lookup(known, k) is Some implies existing_value_spec(
        item,
        k,
        org_key,
    ) == lookup(known, k) by {
        assert(existing_value_spec(item, k, org_key) == held_value(base, known, k, org_key));
    }
}

/// The ciphers that lead through some stores lead through one store more.
proof fn lemma_chain_grows(
    states: Seq<VaultItem>,
    old: VaultItem,
    before: VaultItem,
    after: VaultItem,
    stores: Seq<(Seq<char>, Seq<char>)>,
    pair: (Seq<char>, Seq<char>),
    org_key: Seq<u8>,
)
    requires
        leads_by_stores(states, old, before, stores, org_key),
        value_is_stored(before, after, pair.0, pair.1, org_key),
    ensures
        leads_by_stores(states.push(after), old, after, stores.push(pair), org_key),
{
    let states2 = states.push(after);
    let stores2 = stores.push(pair);
    assert forall|j: int| 0 <= j < stores2.len() implies value_is_stored(
        #[trigger] states2[j],
        states2[j + 1],
        stores2[j].0,
        stores2[j].1,
        org_key,
    ) by {
        if j < stores.len() {
            assert(states2[j] == states[j]);
            assert(states2[j + 1] == states[j + 1]);
            assert(stores2[j] == stores[j]);
        } else {
            assert(states2[j] == before);
            assert(states2[j + 1] == after);
        }
    }
}

/// A cipher keeps track when one more value is stored in it.
proof fn lemma_tracks_put(
    base: VaultItem,
    before: VaultItem,
    after: VaultItem,
    known: Seq<(Seq<char>, Seq<char>)>,
    key: Seq<char>,
    value: Seq<char>,
    org_key: Seq<u8>,
)
    requires
        tracks(before, base, known, org_key),
        existing_value_spec(after, key, org_key) == Some(value),
        forall|k: Seq<char>|
            k != key ==> #[trigger] existing_value_spec(after, k, org_key) == existing_value_spec(
                before,
                k,
                org_key,
            ),
    ensures
        tracks(after, base, put(known, key, value), org_key),
{
    assert forall|k: Seq<char>|
        existing_value_spec(after, k, org_key) == held_value(
            base,
            put(known, key, value),
            k,
            org_key,
        ) by {
        lemma_put(known, key, value, k);
        if k != key {
            assert(existing_value_spec(after, k, org_key) == existing_value_spec(before, k, org_key));
            assert(existing_value_spec(before, k, org_key) == held_value(base, known, k, org_key));
        }
    }
}

/// Setting the pairs of a list that has one more pair sets that pair last.
pub proof fn lemma_put_all_push(
    pairs: Seq<(Seq<char>, Seq<char>)>,
    extra: Seq<(Seq<char>, Seq<char>)>,
    last: (Seq<char>, Seq<char>),
)
    ensures
        put_all(pairs, extra.push(last)) == put(put_all(pairs, extra), last.0, last.1),
{
    assert(extra.push(last).drop_last() == extra);
    assert(extra.push(last).last() == last);
}

/// Setting the one pair of a list sets that pair.
pub proof fn lemma_put_all_one(pairs: Seq<(Seq<char>, Seq<char>)>, key: Seq<char>, value: Seq<char>)
    ensures
        put_all(pairs, seq![(key, value)]) == put(pairs, key, value),
{
    let none = Seq::<(Seq<char>, Seq<char>)>::empty();
    assert(seq![(key, value)] == none.push((key, value)));
    lemma_put_all_push(pairs, none, (key, value));
    assert(put_all(pairs, none) == pairs);
}

/// Notes the value of a key in the data and stores it in the cipher.
fn record_value(
    item: &mut VaultItem,
    data: &mut TextMap,
    key: &str,
    value: &str,
    org_key: &[u8],
) -> (r: Result<(), Error>)
    requires
        item_holds_data(*old(item), old(data).pairs(), org_key@),
    ensures
        r is Ok ==> {
            &&& final(data).pairs() == put(old(data).pairs(), key@, value@)
            &&& item_holds_data(*final(item), final(data).pairs(), org_key@)
            &&& only_values_differ(*old(item), *final(item))
            &&& final(item).notes == old(item).notes
            &&& existing_value_spec(*final(item), key@, org_key@) == Some(value@)
            &&& forall|k: Seq<char>|
                k != key@ ==> #[trigger] existing_value_spec(*final(item), k, org_key@)
                    == existing_value_spec(*old(item), k, org_key@)
            &&& value_is_stored(*old(item), *final(item), key@, value@, org_key@)
        },
        r is Ok <==> storable(key@, value@, org_key@),
        r matches Err(e) ==> e == crypto_error(org_key@),
        r is Err ==> *final(item) == *old(item),
{
    data.insert(key.to_owned(), value.to_owned());
    match store_item_value(item, key, value, org_key) {
        Err(e) => Err(e),
        Ok(()) => {
            proof {
                lemma_stored_value_is_found(*old(item), *item, key@, value@, org_key@);
                assert forall|k: Seq<char>| #[trigger]
                    lookup(data.pairs(), k) is Some implies existing_value_spec(
                    *item,
                    k,
                    org_key@,
                ) == lookup(data.pairs(), k) by {
                    lemma_put(old(data).pairs(), key@, value@, k);
                    if k != key@ {
                        lemma_stored_value_keeps_others(
                            *old(item),
                            *item,
                            key@,
                            value@,
                            org_key@,
                            k,
                        );
                    }
                }
                let (v, n) = choose|v: Seq<char>, n: Seq<char>|
                    {
                        &&& #[trigger] value_is_set(*old(item), *item, key@, v, n, org_key@)
                        &&& has_sealed_shape(v)
                        &&& decrypt_text_spec(v, org_key@) == Some(value@)
                        &&& !is_login_key(key@) ==> decrypt_text_spec(n, org_key@) == Some(key@)
                    };
                assert forall|k: Seq<char>| k != key@ implies #[trigger] existing_value_spec(
                    *item,
                    k,
                    org_key@,
                ) == existing_value_spec(*old(item), k, org_key@) by {
                    lemma_stored_value_keeps_others(
                        *old(item),
                        *item,
                        key@,
                        value@,
                        org_key@,
                        k,
                    );
                }
            }
            Ok(())
        },
    }
}

/// The value of a key that the manifest and the cipher settle between
/// them, for what the cipher holds for the key: the value of a static key, or
/// the error of one without a value; the error of a file key without a
/// source; and what the cipher holds for a random key, unless the rotation is
/// forced. It is `None` for a key whose value comes from outside: from a
/// file, from the cluster, or from a generator.
pub open spec fn settled_value(key_def: KeyDefinition, held: Option<Seq<char>>, force: bool) -> Option<
    Result<Seq<char>, Error>,
> {
    match key_def.key_type {
        KeyType::Static => match key_def.value {
            Some(v) => Some(Ok(v@)),
            None => Some(Err(Error::StaticWithoutValue)),
        },
        KeyType::File => if key_def.source is None {
            Some(Err(Error::FileWithoutSource))
        } else {
            None
        },
        KeyType::Random => match held {
            Some(v) if !force => Some(Ok(v)),
            _ => None,
        },
        _ => None,
    }
}

/// What a cipher holds for a key once the values of `known` have been
/// stored in it: the value of `known`, or what the cipher held before.
pub open spec fn held_value(
    item: VaultItem,
    known: Seq<(Seq<char>, Seq<char>)>,
    key: Seq<char>,
    org_key: Seq<u8>,
) -> Option<Seq<char>> {
    match lookup(known, key) {
        Some(v) => Some(v),
        None => existing_value_spec(item, key, org_key),
    }
}

/// How the preparation of a cipher ends where nothing outside decides, from
/// the key at `from` on, with the values `known` already stored: the values
/// of all keys, by name, where every key is settled and can be stored; the
/// error of the first key that has none or cannot be stored; and `None` as
/// soon as a key takes its value from outside. `item` is the cipher as it
/// was fetched.
pub open spec fn settled_outcome(
    item: VaultItem,
    keys: Seq<KeyDefinition>,
    org_key: Seq<u8>,
    force: bool,
    from: int,
    known: Seq<(Seq<char>, Seq<char>)>,
) -> Option<Result<Seq<(Seq<char>, Seq<char>)>, Error>>
    decreases keys.len() - from,
{
    if from < 0 || from >= keys.len() {
        Some(Ok(known))
    } else {
        let name = keys[from].name@;
        match settled_value(keys[from], held_value(item, known, name, org_key), force) {
            None => None,
            Some(Err(e)) => Some(Err(e)),
            Some(Ok(v)) => if storable(name, v, org_key) {
                settled_outcome(item, keys, org_key, force, from + 1, put(known, name, v))
            } else {
                Some(Err(crypto_error(org_key)))
            },
        }
    }
}

/// The existing value that a key may keep: what the cipher holds for a
/// random key, unless the rotation is forced.
pub open spec fn reusable_value(
    item: VaultItem,
    key_def: KeyDefinition,
    org_key: Seq<u8>,
    force: bool,
) -> Option<Seq<char>> {
    kept_value(key_def, existing_value_spec(item, key_def.name@, org_key), force)
}

/// The value that a key may keep, of what the cipher holds for it: that of
/// a random key, unless the rotation is forced.
pub open spec fn kept_value(key_def: KeyDefinition, held: Option<Seq<char>>, force: bool) -> Option<
    Seq<char>,
> {
    if key_def.key_type is Random && !force {
        held
    } else {
        None
    }
}

/// Produces the value of one key for a cipher. A random key keeps the value
/// that the cipher holds for it, unless the rotation is forced; an SSH key
/// is always new.
pub fn produce_value<F, K, R, S>(
    item: &VaultItem,
    key_def: &KeyDefinition,
    org_key: &[u8],
    force: bool,
    file_resolver: F,
    k8s_resolver: K,
    random_generator: R,
    ssh_generator: S,
) -> (r: Resolved) where
    F: Fn(&str, &str) -> Result<String, Error>,
    K: Fn(&str) -> Result<String, Error>,
    R: Fn(usize) -> String,
    S: Fn() -> Result<(String, String), Error>,

    requires
        forall|path: &str, key_path: &str| file_resolver.requires((path, key_path)),
        forall|name: &str| k8s_resolver.requires((name,)),
        forall|n: usize| random_generator.requires((n,)),
        ssh_generator.requires(()),
    ensures
        exists|existing: Option<String>|
            {
                &&& opt_string(existing) == reusable_value(*item, *key_def, org_key@, force)
                &&& #[trigger] resolved_by(
                    *key_def,
                    existing,
                    file_resolver,
                    k8s_resolver,
                    random_generator,
                    ssh_generator,
                    r,
                )
            },
        reusable_value(*item, *key_def, org_key@, force) matches Some(v) ==> r matches Ok(out)
            && out.0@ == v && !out.1 && out.2 is None,
        key_def.key_type is Ssh ==> (r matches Ok(out) ==> out.1 && out.2 is Some),
        match settled_value(
            *key_def,
            existing_value_spec(*item, key_def.name@, org_key@),
            force,
        ) {
            Some(Ok(v)) => r matches Ok(out) && out.0@ == v && !out.1 && out.2 is None,
            Some(Err(e)) => r matches Err(x) && x == e,
            None => true,
        },
{
    let existing = match key_def.key_type {
        KeyType::Random => if force {
            None
        } else {
            find_existing_encrypted_value(item, key_def.name.as_str(), org_key)
        },
        _ => None,
    };
    let r = resolve_value(
        key_def,
        existing,
        file_resolver,
        k8s_resolver,
        random_generator,
        ssh_generator,
    );
    assert(resolved_by(
        *key_def,
        existing,
        file_resolver,
        k8s_resolver,
        random_generator,
        ssh_generator,
        r,
    ));
    r
}

/// Whether every key that `before` holds is a key of `after`.
pub open spec fn keeps_keys(
    before: Seq<(Seq<char>, Seq<char>)>,
    after: Seq<(Seq<char>, Seq<char>)>,
) -> bool {
    forall|k: Seq<char>| #[trigger] lookup(before, k) is Some ==> lookup(after, k) is Some
}

/// Whether everything that came with a value can be stored.
pub open spec fn aux_storable(aux: Option<Vec<(String, String)>>, org_key: Seq<u8>) -> bool {
    match aux {
        None => true,
        Some(extra) => forall|i: int|
            0 <= i < extra@.len() ==> storable(
                (#[trigger] extra@[i]).0@,
                extra@[i].1@,
                org_key,
            ),
    }
}

/// Whether `k` names something that came with a value.
pub open spec fn aux_has_key(aux: Option<Vec<(String, String)>>, k: Seq<char>) -> bool {
    match aux {
        None => false,
        Some(extra) => exists|i: int| 0 <= i < extra@.len() && (#[trigger] extra@[i]).0@ == k,
    }
}

/// Notes the value of a key, and what came with it, in the data, and stores
/// all of it in the cipher. It fails where something cannot be stored.
/// `base` is the cipher that the data began with.
#[verifier::rlimit(80)]
#[verifier::spinoff_prover]
pub(crate) fn record_resolved(
    item: &mut VaultItem,
    data: &mut TextMap,
    name: &str,
    value: &str,
    aux: &Option<Vec<(String, String)>>,
    org_key: &[u8],
    Ghost(base): Ghost<VaultItem>,
) -> (r: Result<(), Error>)
    requires
        tracks(*old(item), base, old(data).pairs(), org_key@),
    ensures
        r is Ok ==> {
            &&& final(data).pairs() == put_all(
                old(data).pairs(),
                stores_for(name@, value@, aux_pairs(*aux)),
            )
            &&& values_are_stored(
                *old(item),
                *final(item),
                stores_for(name@, value@, aux_pairs(*aux)),
                org_key@,
            )
            &&& tracks(*final(item), base, final(data).pairs(), org_key@)
            &&& item_holds_data(*final(item), final(data).pairs(), org_key@)
            &&& lookup(final(data).pairs(), name@) is Some
            &&& keeps_keys(old(data).pairs(), final(data).pairs())
            &&& forall|k: Seq<char>|
                k != name@ && !aux_has_key(*aux, k) ==> #[trigger] existing_value_spec(
                    *final(item),
                    k,
                    org_key@,
                ) == existing_value_spec(*old(item), k, org_key@)
        },
        only_values_differ(*old(item), *final(item)),
        final(item).notes == old(item).notes,
        r is Ok <==> storable(name@, value@, org_key@) && aux_storable(*aux, org_key@),
        r matches Err(e) ==> e == crypto_error(org_key@),
{
    let ghost first = data.pairs();
    let ghost extra_pairs = aux_pairs(*aux);
    match record_value(item, data, name, value, org_key) {
        Ok(()) => {},
        Err(e) => {
            return Err(e);
        },
    }
    let ghost mut states: Seq<VaultItem> = seq![*old(item)];
    proof {
        assert forall|k: Seq<char>| #[trigger] lookup(first, k) is Some implies lookup(
            data.pairs(),
            k,
        ) is Some by {
            lemma_put(first, name@, value@, k);
        }
        lemma_put(first, name@, value@, name@);
        lemma_tracks_put(base, *old(item), *item, first, name@, value@, org_key@);
        lemma_put_all_one(first, name@, value@);
        let none = Seq::<(Seq<char>, Seq<char>)>::empty();
        assert(leads_by_stores(states, *old(item), *old(item), none, org_key@));
        lemma_chain_grows(states, *old(item), *old(item), *item, none, (name@, value@), org_key@);
        states = states.push(*item);
        assert(extra_pairs.take(0) == none);
        assert(stores_for(name@, value@, extra_pairs.take(0)) == none.push((name@, value@)));
        assert(stores_for(name@, value@, extra_pairs.take(0)) == seq![(name@, value@)]);
    }
    let none: Vec<(String, String)> = Vec::new();
    let extra: &Vec<(String, String)> = match aux {
        Some(list) => list,
        None => &none,
    };
    assert(pair_views(extra@) =~= extra_pairs);
    let mut a: usize = 0;
    while a < extra.len()
        invariant
            a <= extra@.len(),
            extra_pairs == aux_pairs(*aux),
            extra_pairs == pair_views(extra@),
            storable(name@, value@, org_key@),
            data.pairs() == put_all(first, stores_for(name@, value@, extra_pairs.take(a as int))),
            leads_by_stores(
                states,
                *old(item),
                *item,
                stores_for(name@, value@, extra_pairs.take(a as int)),
                org_key@,
            ),
            tracks(*item, base, data.pairs(), org_key@),
            lookup(data.pairs(), name@) is Some,
            keeps_keys(first, data.pairs()),
            only_values_differ(*old(item), *item),
            item.notes == old(item).notes,
            forall|j: int|
                0 <= j < a ==> storable((#[trigger] extra_pairs[j]).0, extra_pairs[j].1, org_key@),
            forall|k: Seq<char>|
                k != name@ && !aux_has_key(*aux, k) ==> #[trigger] existing_value_spec(
                    *item,
                    k,
                    org_key@,
                ) == existing_value_spec(*old(item), k, org_key@),
        decreases extra@.len() - a,
    {
        let ghost before = data.pairs();
        let ghost item_before = *item;
        let ghost stores_before = stores_for(name@, value@, extra_pairs.take(a as int));
        let ghost pair = (extra@[a as int].0@, extra@[a as int].1@);
        assert(extra_pairs[a as int] == pair);
        match record_value(item, data, extra[a].0.as_str(), extra[a].1.as_str(), org_key) {
            Ok(()) => {},
            Err(e) => {
                return Err(e);
            },
        }
        proof {
            assert(stores_for(name@, value@, extra_pairs.take(a + 1)) == stores_before.push(pair));
            lemma_put_all_push(first, stores_before, pair);
            lemma_tracks_put(base, item_before, *item, before, pair.0, pair.1, org_key@);
            lemma_chain_grows(states, *old(item), item_before, *item, stores_before, pair, org_key@);
            states = states.push(*item);
            lemma_keeps_keys_put(first, before, pair.0, pair.1);
            lemma_put(before, pair.0, pair.1, name@);
            assert forall|k: Seq<char>|
                k != name@ && !aux_has_key(*aux, k) implies #[trigger] existing_value_spec(
                *item,
                k,
                org_key@,
            ) == existing_value_spec(*old(item), k, org_key@) by {
                assert(aux_has_key(*aux, extra@[a as int].0@));
                assert(existing_value_spec(*item, k, org_key@) == existing_value_spec(
                    item_before,
                    k,
                    org_key@,
                ));
            }
        }
        a += 1;
    }
    proof {
        assert(extra_pairs.take(extra@.len() as int) == extra_pairs);
        lemma_tracks_holds(*item, base, data.pairs(), org_key@);
        assert(aux_storable(*aux, org_key@)) by {
            assert forall|j: int| 0 <= j < extra@.len() implies storable(
                (#[trigger] extra@[j]).0@,
                extra@[j].1@,
                org_key@,
            ) by {
                assert(extra_pairs[j] == (extra@[j].0@, extra@[j].1@));
            }
        }
    }
    Ok(())
}

/// Every key that a list holds is a key of a later list with one more pair
/// set.
proof fn lemma_keeps_keys_put(
    first: Seq<(Seq<char>, Seq<char>)>,
    before: Seq<(Seq<char>, Seq<char>)>,
    key: Seq<char>,
    value: Seq<char>,
)
    requires
        keeps_keys(first, before),
    ensures
        keeps_keys(first, put(before, key, value)),
{
    assert forall|k: Seq<char>| #[trigger] lookup(first, k) is Some implies lookup(
        put(before, key, value),
        k,
    ) is Some by {
        assert(lookup(before, k) is Some);
        lemma_put(before, key, value, k);
    }
}

/// Gives the notes of the cipher a fresh marker with the current time. What
/// the cipher holds for its keys stays.
pub(crate) fn stamp_notes(item: &mut VaultItem)
    ensures
        final(item).notes matches Some(n) && exists|now: Seq<char>|
            n@ == #[trigger] regenerated_notes_spec(notes_of(*old(item)), now),
        final(item).login == old(item).login,
        final(item).fields == old(item).fields,
        only_values_differ(*old(item), *final(item)),
        is_stamped(*old(item), *final(item)),
        forall|k: Seq<char>, org_key: Seq<u8>| #[trigger]
            existing_value_spec(*final(item), k, org_key) == existing_value_spec(
                *old(item),
                k,
                org_key,
            ),
{
    let now = utc_now_rfc3339();
    let new_notes = match &item.notes {
        Some(n) => regenerate_notes(n.as_str(), now.as_str()),
        None => {
            let empty = String::new();
            regenerate_notes(empty.as_str(), now.as_str())
        },
    };
    assert(new_notes@ == regenerated_notes_spec(notes_of(*old(item)), now@));
    item.notes = Some(new_notes);
}

/// What producing the value of a key gives: the value, whether it is new,
/// and what comes with it.
pub type Produced = (String, bool, Option<Vec<(String, String)>>);

/// How the resolvers and generators make the value of the key at an index,
/// for what the cipher holds for the key: a random key that may keep a value
/// keeps it, and every other value is what `resolved_by` says.
pub open spec fn made_by<F, K, R, S>(
    keys: Seq<KeyDefinition>,
    force: bool,
    file_resolver: F,
    k8s_resolver: K,
    random_generator: R,
    ssh_generator: S,
) -> spec_fn(int, Option<Seq<char>>, Resolved) -> bool where
    F: Fn(&str, &str) -> Result<String, Error>,
    K: Fn(&str) -> Result<String, Error>,
    R: Fn(usize) -> String,
    S: Fn() -> Result<(String, String), Error>,
 {
    |j: int, held: Option<Seq<char>>, r: Resolved|
        exists|existing: Option<String>|
            {
                &&& opt_string(existing) == kept_value(keys[j], held, force)
                &&& #[trigger] resolved_by(
                    keys[j],
                    existing,
                    file_resolver,
                    k8s_resolver,
                    random_generator,
                    ssh_generator,
                    r,
                )
            }
}

/// Whether the key at `j` went well: `outs[j]` is what was made for it, for
/// what the cipher held for the key once the values of `knowns[j]` had been
/// stored; its value, and what came with it, was set in the data and stored
/// in the cipher, which led from `knowns[j]` and `items[j]` to the next.
pub open spec fn step_ok(
    base: VaultItem,
    keys: Seq<KeyDefinition>,
    org_key: Seq<u8>,
    made: spec_fn(int, Option<Seq<char>>, Resolved) -> bool,
    outs: Seq<Produced>,
    knowns: Seq<Seq<(Seq<char>, Seq<char>)>>,
    items: Seq<VaultItem>,
    j: int,
) -> bool {
    let name = keys[j].name@;
    let stores = stores_for(name, outs[j].0@, aux_pairs(outs[j].2));
    &&& made(j, held_value(base, knowns[j], name, org_key), Ok(outs[j]))
    &&& knowns[j + 1] == put_all(knowns[j], stores)
    &&& values_are_stored(items[j], items[j + 1], stores, org_key)
}

/// Whether `outs`, `knowns` and `items` tell how the first `upto` keys went,
/// one after the other, from the cipher `base` and no data: what was made
/// for each key, and the data and the cipher after each key. A later key of
/// the same name takes the place of an earlier one.
pub open spec fn is_partial_trace(
    base: VaultItem,
    keys: Seq<KeyDefinition>,
    org_key: Seq<u8>,
    made: spec_fn(int, Option<Seq<char>>, Resolved) -> bool,
    upto: int,
    outs: Seq<Produced>,
    knowns: Seq<Seq<(Seq<char>, Seq<char>)>>,
    items: Seq<VaultItem>,
) -> bool {
    &&& 0 <= upto <= keys.len()
    &&& outs.len() == upto
    &&& knowns.len() == upto + 1
    &&& items.len() == upto + 1
    &&& knowns[0] == Seq::<(Seq<char>, Seq<char>)>::empty()
    &&& items[0] == base
    &&& forall|j: int|
        0 <= j < upto ==> #[trigger] step_ok(base, keys, org_key, made, outs, knowns, items, j)
}

/// Whether `after` is the cipher `before` with a fresh marker: its notes are
/// the old notes under a new marker line, and nothing else differs.
pub open spec fn is_stamped(before: VaultItem, after: VaultItem) -> bool {
    &&& after.id == before.id
    &&& after.name == before.name
    &&& after.login == before.login
    &&& after.fields == before.fields
    &&& after.folder_id == before.folder_id
    &&& after.collection_ids == before.collection_ids
    &&& after.has_collections == before.has_collections
    &&& after.notes matches Some(n)
    &&& exists|now: Seq<char>| n@ == #[trigger] regenerated_notes_spec(notes_of(before), now)
}

/// Whether the key at `j` ends the preparation with the error `e`: its
/// value cannot be made, or what was made cannot be stored.
pub open spec fn fails_at(
    keys: Seq<KeyDefinition>,
    org_key: Seq<u8>,
    made: spec_fn(int, Option<Seq<char>>, Resolved) -> bool,
    held: Option<Seq<char>>,
    j: int,
    e: Error,
) -> bool {
    ||| made(j, held, Err(e))
    ||| exists|out: Produced|
        {
            &&& #[trigger] made(j, held, Ok(out))
            &&& !(storable(keys[j].name@, out.0@, org_key) && aux_storable(out.2, org_key))
            &&& e == crypto_error(org_key)
        }
}

/// Whether the first `j` keys went well and the key at `j` ends the
/// preparation with the error `e`.
pub open spec fn is_failed_trace(
    base: VaultItem,
    keys: Seq<KeyDefinition>,
    org_key: Seq<u8>,
    made: spec_fn(int, Option<Seq<char>>, Resolved) -> bool,
    j: int,
    outs: Seq<Produced>,
    knowns: Seq<Seq<(Seq<char>, Seq<char>)>>,
    items: Seq<VaultItem>,
    e: Error,
) -> bool {
    &&& is_partial_trace(base, keys, org_key, made, j, outs, knowns, items)
    &&& j < keys.len()
    &&& fails_at(keys, org_key, made, held_value(base, knowns[j], keys[j].name@, org_key), j, e)
}

/// What a preparation is, for the way the values are made. It succeeds
/// where every key, one after the other, gets a value that can be stored:
/// the data then holds those values, set in the order of the keys, and the
/// cipher `after` has them stored, each in its place, under a fresh marker.
/// It fails with the error of the first key whose value cannot be made or
/// stored.
pub open spec fn prepared_as(
    base: VaultItem,
    after: VaultItem,
    keys: Seq<KeyDefinition>,
    org_key: Seq<u8>,
    made: spec_fn(int, Option<Seq<char>>, Resolved) -> bool,
    r: Result<Seq<(Seq<char>, Seq<char>)>, Error>,
) -> bool {
    match r {
        Ok(pairs) => exists|
            outs: Seq<Produced>,
            knowns: Seq<Seq<(Seq<char>, Seq<char>)>>,
            items: Seq<VaultItem>,
        |
            {
                &&& #[trigger] is_partial_trace(
                    base,
                    keys,
                    org_key,
                    made,
                    keys.len() as int,
                    outs,
                    knowns,
                    items,
                )
                &&& pairs == knowns[keys.len() as int]
                &&& is_stamped(items[keys.len() as int], after)
            },
        Err(e) => exists|
            outs: Seq<Produced>,
            knowns: Seq<Seq<(Seq<char>, Seq<char>)>>,
            items: Seq<VaultItem>,
            j: int,
        | #[trigger] is_failed_trace(base, keys, org_key, made, j, outs, knowns, items, e),
    }
}

/// The result of a preparation, with the data as pairs of characters.
pub open spec fn pairs_result(r: Result<TextMap, Error>) -> Result<
    Seq<(Seq<char>, Seq<char>)>,
    Error,
> {
    match r {
        Ok(data) => Ok(data.pairs()),
        Err(e) => Err(e),
    }
}

/// The trace of the keys so far is one of a key more, once that key has
/// gone well.
pub proof fn lemma_trace_grows(
    base: VaultItem,
    keys: Seq<KeyDefinition>,
    org_key: Seq<u8>,
    made: spec_fn(int, Option<Seq<char>>, Resolved) -> bool,
    upto: int,
    outs: Seq<Produced>,
    knowns: Seq<Seq<(Seq<char>, Seq<char>)>>,
    items: Seq<VaultItem>,
    out: Produced,
    known: Seq<(Seq<char>, Seq<char>)>,
    item: VaultItem,
)
    requires
        is_partial_trace(base, keys, org_key, made, upto, outs, knowns, items),
        upto < keys.len(),
        made(upto, held_value(base, knowns[upto], keys[upto].name@, org_key), Ok(out)),
        known == put_all(knowns[upto], stores_for(keys[upto].name@, out.0@, aux_pairs(out.2))),
        values_are_stored(
            items[upto],
            item,
            stores_for(keys[upto].name@, out.0@, aux_pairs(out.2)),
            org_key,
        ),
    ensures
        is_partial_trace(
            base,
            keys,
            org_key,
            made,
            upto + 1,
            outs.push(out),
            knowns.push(known),
            items.push(item),
        ),
{
    let outs2 = outs.push(out);
    let knowns2 = knowns.push(known);
    let items2 = items.push(item);
    assert forall|j: int| 0 <= j < upto + 1 implies #[trigger] step_ok(
        base,
        keys,
        org_key,
        made,
        outs2,
        knowns2,
        items2,
        j,
    ) by {
        if j < upto {
            assert(step_ok(base, keys, org_key, made, outs, knowns, items, j));
            assert(outs2[j] == outs[j]);
            assert(knowns2[j] == knowns[j]);
            assert(knowns2[j + 1] == knowns[j + 1]);
            assert(items2[j] == items[j]);
            assert(items2[j + 1] == items[j + 1]);
        } else {
            assert(outs2[j] == out);
            assert(knowns2[j] == knowns[j]);
            assert(knowns2[j + 1] == known);
            assert(items2[j] == items[j]);
            assert(items2[j + 1] == item);
        }
    }
}

/// What the resolvers and generators make for a key, by its kind. A static
/// key gets the value of the manifest, or fails without one. A random key
/// keeps what the cipher holds for it, unless the rotation is forced or the
/// cipher holds nothing: then it gets what the generator returns for its
/// length, and that is new. A file key without source fails. Nothing comes
/// with any of these values.
pub proof fn lemma_made_by_kind<F, K, R, S>(
    keys: Seq<KeyDefinition>,
    force: bool,
    file_resolver: F,
    k8s_resolver: K,
    random_generator: R,
    ssh_generator: S,
    j: int,
    held: Option<Seq<char>>,
    r: Resolved,
) where
    F: Fn(&str, &str) -> Result<String, Error>,
    K: Fn(&str) -> Result<String, Error>,
    R: Fn(usize) -> String,
    S: Fn() -> Result<(String, String), Error>,

    requires
        made_by(keys, force, file_resolver, k8s_resolver, random_generator, ssh_generator)(
            j,
            held,
            r,
        ),
    ensures
        match settled_value(keys[j], held, force) {
            Some(Ok(v)) => r matches Ok(out) && out.0@ == v && !out.1 && out.2 is None,
            Some(Err(e)) => r matches Err(x) && x == e,
            None => true,
        },
        keys[j].key_type is Random && settled_value(keys[j], held, force) is None ==> {
            &&& r matches Ok(out)
            &&& random_generator.ensures((random_length(keys[j]),), out.0)
            &&& out.1
            &&& out.2 is None
        },
        keys[j].key_type is Ssh ==> (r matches Ok(out) ==> out.1 && aux_pairs(out.2).len() == 1
            && aux_pairs(out.2)[0].0 == public_key_spec()),
{
    let existing = choose|existing: Option<String>|
        {
            &&& opt_string(existing) == kept_value(keys[j], held, force)
            &&& #[trigger] resolved_by(
                keys[j],
                existing,
                file_resolver,
                k8s_resolver,
                random_generator,
                ssh_generator,
                r,
            )
        };
    if keys[j].key_type is Ssh && r is Ok {
        let aux = r->Ok_0.2->0;
        assert(aux_pairs(r->Ok_0.2)[0] == (aux@[0].0@, aux@[0].1@));
    }
}

/// One text that is stored leads from a cipher to the next in one step.
pub proof fn lemma_one_store(
    old: VaultItem,
    new: VaultItem,
    key: Seq<char>,
    plain: Seq<char>,
    org_key: Seq<u8>,
)
    requires
        values_are_stored(old, new, seq![(key, plain)], org_key),
    ensures
        value_is_stored(old, new, key, plain, org_key),
{
    let states = choose|states: Seq<VaultItem>| #[trigger]
        leads_by_stores(states, old, new, seq![(key, plain)], org_key);
    let first: int = 0;
    assert(value_is_stored(states[first], states[first + 1], key, plain, org_key));
}

/// Where a text is stored for a key. A login key lives in the login block:
/// the custom fields stay as they were. Any other key lives in the first
/// custom field whose name decrypts to it, and where there is none in one
/// new field that comes last: all other fields stay, the field is hidden,
/// and the login block stays as it was. In its place the cipher then holds
/// the text.
pub proof fn lemma_stored_key_place(
    old: VaultItem,
    new: VaultItem,
    key: Seq<char>,
    plain: Seq<char>,
    org_key: Seq<u8>,
)
    requires
        value_is_stored(old, new, key, plain, org_key),
    ensures
        is_login_key(key) ==> new.fields == old.fields,
        !is_login_key(key) ==> new.login == old.login,
        !is_login_key(key) ==> ({
            let a = fields_of(old);
            let b = fields_of(new);
            let i = first_named(a, key, org_key);
            &&& 0 <= i <= a.len()
            &&& b.len() == if i < a.len() {
                a.len()
            } else {
                a.len() + 1
            }
            &&& forall|j: int| 0 <= j < a.len() && j != i ==> b[j] == a[j]
            &&& b[i].field_type == Some(HIDDEN_FIELD)
            &&& b[i].value matches Some(v)
            &&& decrypt_text_spec(v@, org_key) == Some(plain)
        }),
        existing_value_spec(new, key, org_key) == Some(plain),
{
    lemma_stored_value_is_found(old, new, key, plain, org_key);
    if !is_login_key(key) {
        lemma_first_index(fields_of(old).len() as int, 0, is_named(fields_of(old), key, org_key));
    }
}

/// Whether the cipher `new` is the cipher `old` after the values of the
/// data have been stored in it: it holds, for every name of the data, the
/// value of the data; its notes are the old notes under a new marker line;
/// and nothing but login block, custom fields and notes differs.
pub open spec fn is_prepared(
    old: VaultItem,
    new: VaultItem,
    pairs: Seq<(Seq<char>, Seq<char>)>,
    org_key: Seq<u8>,
) -> bool {
    &&& item_holds_data(new, pairs, org_key)
    &&& only_values_differ(old, new)
    &&& new.notes matches Some(n)
    &&& exists|now: Seq<char>| n@ == #[trigger] regenerated_notes_spec(notes_of(old), now)
}

/// Whether the data has a value for every key of the secret.
pub open spec fn covers_keys(pairs: Seq<(Seq<char>, Seq<char>)>, secret: SecretDefinition) -> bool {
    forall|i: int|
        0 <= i < secret.keys@.len() ==> lookup(pairs, (#[trigger] secret.keys@[i]).name@) is Some
}

/// Produces the values of the keys of a secret, stores them in the cipher,
/// encrypted under the organization key, and gives the notes a fresh marker.
/// The values come back by name, with what else came with them.
///
/// The keys are taken one after the other. A key gets the value that the
/// manifest and the cipher settle for it, or what its resolver or generator
/// returns; the value is stored where the key lives, a login key in the
/// login block and any other key in its hidden custom field; and the
/// preparation succeeds exactly where every key gets a value that can be
/// stored, and fails with the error of the first key that gets none.
/// Afterwards the cipher holds, for every name of the data, the value of the
/// data; every key of the secret has a value; and the notes are the old
/// notes under a new marker line. On failure the notes are as they were.
pub fn prepare_updated_item<F, K, R, S>(
    item: &mut VaultItem,
    secret: &SecretDefinition,
    org_key: &[u8],
    force: bool,
    file_resolver: F,
    k8s_resolver: K,
    random_generator: R,
    ssh_generator: S,
) -> (r: Result<TextMap, Error>) where
    F: Fn(&str, &str) -> Result<String, Error>,
    K: Fn(&str) -> Result<String, Error>,
    R: Fn(usize) -> String,
    S: Fn() -> Result<(String, String), Error>,

    requires
        forall|path: &str, key_path: &str| file_resolver.requires((path, key_path)),
        forall|name: &str| k8s_resolver.requires((name,)),
        forall|n: usize| random_generator.requires((n,)),
        ssh_generator.requires(()),
    ensures
        prepared_as(
            *old(item),
            *final(item),
            secret.keys@,
            org_key@,
            made_by(
                secret.keys@,
                force,
                file_resolver,
                k8s_resolver,
                random_generator,
                ssh_generator,
            ),
            pairs_result(r),
        ),
        r matches Ok(data) ==> is_prepared(*old(item), *final(item), data.pairs(), org_key@)
            && covers_keys(data.pairs(), *secret),
        match settled_outcome(
            *old(item),
            secret.keys@,
            org_key@,
            force,
            0,
            Seq::<(Seq<char>, Seq<char>)>::empty(),
        ) {
            Some(Ok(pairs)) => r matches Ok(data) && data.pairs() == pairs,
            Some(Err(e)) => r matches Err(x) && x == e,
            None => true,
        },
        r is Err ==> only_values_differ(*old(item), *final(item)) && final(item).notes == old(
            item,
        ).notes,
{
    let mut data = TextMap::new();
    let mut i: usize = 0;
    let ghost whole = settled_outcome(
        *old(item),
        secret.keys@,
        org_key@,
        force,
        0,
        Seq::<(Seq<char>, Seq<char>)>::empty(),
    );
    let ghost made = made_by(
        secret.keys@,
        force,
        file_resolver,
        k8s_resolver,
        random_generator,
        ssh_generator,
    );
    let ghost mut settled = true;
    let ghost mut outs: Seq<Produced> = seq![];
    let ghost mut knowns: Seq<Seq<(Seq<char>, Seq<char>)>> = seq![data.pairs()];
    let ghost mut items: Seq<VaultItem> = seq![*item];
    while i < secret.keys.len()
        invariant
            i <= secret.keys@.len(),
            whole == settled_outcome(
                *old(item),
                secret.keys@,
                org_key@,
                force,
                0,
                Seq::<(Seq<char>, Seq<char>)>::empty(),
            ),
            made == made_by(
                secret.keys@,
                force,
                file_resolver,
                k8s_resolver,
                random_generator,
                ssh_generator,
            ),
            settled ==> whole == settled_outcome(
                *old(item),
                secret.keys@,
                org_key@,
                force,
                i as int,
                data.pairs(),
            ),
            !settled ==> whole is None,
            is_partial_trace(
                *old(item),
                secret.keys@,
                org_key@,
                made,
                i as int,
                outs,
                knowns,
                items,
            ),
            knowns[i as int] == data.pairs(),
            items[i as int] == *item,
            tracks(*item, *old(item), data.pairs(), org_key@),
            forall|path: &str, key_path: &str| file_resolver.requires((path, key_path)),
            forall|name: &str| k8s_resolver.requires((name,)),
            forall|n: usize| random_generator.requires((n,)),
            ssh_generator.requires(()),
            forall|j: int| 0 <= j < i ==> lookup(data.pairs(), (#[trigger] secret.keys@[j]).name@) is Some,
            only_values_differ(*old(item), *item),
            item.notes == old(item).notes,
        decreases secret.keys@.len() - i,
    {
        let key_def = &secret.keys[i];
        let ghost known = data.pairs();
        let ghost item_before = *item;
        let ghost held = held_value(*old(item), known, key_def.name@, org_key@);
        let ghost value_here = settled_value(*key_def, held, force);
        proof {
            assert(existing_value_spec(*item, key_def.name@, org_key@) == held);
            if settled && value_here is None {
                settled = false;
            }
        }
        let produced = produce_value(
            item,
            key_def,
            org_key,
            force,
            &file_resolver,
            &k8s_resolver,
            &random_generator,
            &ssh_generator,
        );
        proof {
            let existing = choose|existing: Option<String>|
                {
                    &&& opt_string(existing) == reusable_value(*item, *key_def, org_key@, force)
                    &&& #[trigger] resolved_by(
                        *key_def,
                        existing,
                        &file_resolver,
                        &k8s_resolver,
                        &random_generator,
                        &ssh_generator,
                        produced,
                    )
                };
            assert(resolved_by(
                secret.keys@[i as int],
                existing,
                file_resolver,
                k8s_resolver,
                random_generator,
                ssh_generator,
                produced,
            ));
            assert(made(i as int, held, produced));
        }
        let (value, is_new, aux) = match produced {
            Ok(out) => out,
            Err(e) => {
                proof {
                    assert(is_failed_trace(
                        *old(item),
                        secret.keys@,
                        org_key@,
                        made,
                        i as int,
                        outs,
                        knowns,
                        items,
                        e,
                    ));
                }
                return Err(e);
            },
        };
        let ghost out: Produced = (value, is_new, aux);
        match record_resolved(
            item,
            &mut data,
            key_def.name.as_str(),
            value.as_str(),
            &aux,
            org_key,
            Ghost(*old(item)),
        ) {
            Ok(()) => {},
            Err(e) => {
                proof {
                    assert(made(i as int, held, Ok::<Produced, Error>(out)));
                    assert(is_failed_trace(
                        *old(item),
                        secret.keys@,
                        org_key@,
                        made,
                        i as int,
                        outs,
                        knowns,
                        items,
                        e,
                    ));
                }
                return Err(e);
            },
        }
        proof {
            lemma_trace_grows(
                *old(item),
                secret.keys@,
                org_key@,
                made,
                i as int,
                outs,
                knowns,
                items,
                out,
                data.pairs(),
                *item,
            );
            outs = outs.push(out);
            knowns = knowns.push(data.pairs());
            items = items.push(*item);
            if settled {
                assert(aux is None);
                assert(stores_for(key_def.name@, value@, aux_pairs(aux)) == seq![
                    (key_def.name@, value@),
                ]);
                lemma_put_all_one(known, key_def.name@, value@);
                assert(data.pairs() == put(known, key_def.name@, value@));
            }
        }
        i += 1;
    }
    let ghost before_notes = *item;
    stamp_notes(item);
    proof {
        assert forall|k: Seq<char>| #[trigger]
            lookup(data.pairs(), k) is Some implies existing_value_spec(
            *item,
            k,
            org_key@,
        ) == lookup(data.pairs(), k) by {
            assert(existing_value_spec(*item, k, org_key@) == existing_value_spec(
                before_notes,
                k,
                org_key@,
            ));
        }
        let now = choose|now: Seq<char>|
            item.notes->0@ == #[trigger] regenerated_notes_spec(notes_of(before_notes), now);
        assert(notes_of(before_notes) == notes_of(*old(item)));
        assert(item.notes->0@ == regenerated_notes_spec(notes_of(*old(item)), now));
        assert(is_stamped(items[secret.keys@.len() as int], *item));
        assert(is_partial_trace(
            *old(item),
            secret.keys@,
            org_key@,
            made,
            secret.keys@.len() as int,
            outs,
            knowns,
            items,
        ));
    }
    Ok(data)
}

} // verus!
