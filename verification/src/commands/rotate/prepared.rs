//! What follows from a preparation: which value a key ends up with, and
//! which parts of the cipher stay as they were.

use crate::commands::rotate::item_ops::{
    aux_pairs, held_value, is_partial_trace, is_stamped, kept_value, leads_by_stores,
    lemma_made_by_kind, lemma_stored_key_place, made_by, prepared_as, reusable_value,
    settled_value, step_ok, stores_for, value_is_stored, values_are_stored, Produced,
};
use crate::commands::rotate::values::{
    answer_for, has_distinct_keys, made_with, plan_spec, ValueAnswer, ValuePlan,
};
use crate::error::Error;
use crate::infra::random::is_alphanumeric_text;
use crate::logic::parsing::{existing_value_spec, is_login_key, password_spec, username_spec};
use crate::logic::resolution::{public_key_spec, random_length, resolved_by, Resolved};
use crate::models::config::SecretDefinition;
use crate::models::keys::KeyDefinition;
use crate::text::opt_string;
use crate::text_map::{lemma_put, lookup, put_all};
use crate::vaultwarden::item::VaultItem;
use vstd::prelude::*;

verus! {

/// Setting pairs leaves a key that is none of theirs as it was.
pub proof fn lemma_put_all_other(
    pairs: Seq<(Seq<char>, Seq<char>)>,
    stores: Seq<(Seq<char>, Seq<char>)>,
    key: Seq<char>,
)
    requires
        forall|i: int| 0 <= i < stores.len() ==> (#[trigger] stores[i]).0 != key,
    ensures
        lookup(put_all(pairs, stores), key) == lookup(pairs, key),
    decreases stores.len(),
{
    if stores.len() > 0 {
        let head = stores.drop_last();
        assert forall|i: int| 0 <= i < head.len() implies (#[trigger] head[i]).0 != key by {
            assert(head[i] == stores[i]);
        }
        lemma_put_all_other(pairs, head, key);
        assert(stores.last() == stores[stores.len() - 1]);
        lemma_put(put_all(pairs, head), stores.last().0, stores.last().1, key);
    }
}

/// Setting a value under a name, and then pairs of other names, leaves the
/// name with the value.
pub proof fn lemma_put_all_first(
    pairs: Seq<(Seq<char>, Seq<char>)>,
    name: Seq<char>,
    value: Seq<char>,
    extra: Seq<(Seq<char>, Seq<char>)>,
)
    requires
        forall|i: int| 0 <= i < extra.len() ==> (#[trigger] extra[i]).0 != name,
    ensures
        lookup(put_all(pairs, stores_for(name, value, extra)), name) == Some(value),
    decreases extra.len(),
{
    let stores = stores_for(name, value, extra);
    if extra.len() == 0 {
        assert(stores.drop_last() == Seq::<(Seq<char>, Seq<char>)>::empty());
        assert(stores.last() == (name, value));
        assert(put_all(pairs, stores.drop_last()) == pairs);
        lemma_put(pairs, name, value, name);
    } else {
        let head = extra.drop_last();
        assert forall|i: int| 0 <= i < head.len() implies (#[trigger] head[i]).0 != name by {
            assert(head[i] == extra[i]);
        }
        lemma_put_all_first(pairs, name, value, head);
        assert(stores.drop_last() == stores_for(name, value, head));
        assert(stores.last() == extra[extra.len() - 1]);
        lemma_put(put_all(pairs, stores.drop_last()), stores.last().0, stores.last().1, name);
    }
}

/// Whether nothing but a public key came with any value of the trace.
pub open spec fn only_public_keys_came(outs: Seq<Produced>) -> bool {
    forall|m: int, a: int|
        0 <= m < outs.len() && 0 <= a < aux_pairs(outs[m].2).len() ==> (#[trigger] aux_pairs(
            outs[m].2,
        )[a]).0 == public_key_spec()
}

/// Whether the keys have names of their own: no two share a name, and none
/// is named `public_key`.
pub open spec fn are_own_names(keys: Seq<KeyDefinition>) -> bool {
    &&& forall|i: int, j: int|
        0 <= i < j < keys.len() ==> (#[trigger] keys[i]).name@ != (#[trigger] keys[j]).name@
    &&& forall|i: int| 0 <= i < keys.len() ==> (#[trigger] keys[i]).name@ != public_key_spec()
}

/// Up to its own turn, nothing is known under the name of a key that has a
/// name of its own.
proof fn lemma_unknown_before(
    base: VaultItem,
    keys: Seq<KeyDefinition>,
    org_key: Seq<u8>,
    made: spec_fn(int, Option<Seq<char>>, Resolved) -> bool,
    upto: int,
    outs: Seq<Produced>,
    knowns: Seq<Seq<(Seq<char>, Seq<char>)>>,
    items: Seq<VaultItem>,
    j: int,
    m: int,
)
    requires
        is_partial_trace(base, keys, org_key, made, upto, outs, knowns, items),
        are_own_names(keys),
        only_public_keys_came(outs),
        0 <= m <= j < keys.len(),
        m <= upto,
    ensures
        lookup(knowns[m], keys[j].name@) is None,
    decreases m,
{
    let name = keys[j].name@;
    if m > 0 {
        lemma_unknown_before(base, keys, org_key, made, upto, outs, knowns, items, j, m - 1);
        assert(step_ok(base, keys, org_key, made, outs, knowns, items, m - 1));
        let stores = stores_for(keys[m - 1].name@, outs[m - 1].0@, aux_pairs(outs[m - 1].2));
        assert forall|i: int| 0 <= i < stores.len() implies (#[trigger] stores[i]).0 != name by {
            if i > 0 {
                assert(stores[i] == aux_pairs(outs[m - 1].2)[i - 1]);
            }
        }
        lemma_put_all_other(knowns[m - 1], stores, name);
    }
}

/// After its own turn, a key that has a name of its own is known with the
/// value that was made for it.
proof fn lemma_known_after(
    base: VaultItem,
    keys: Seq<KeyDefinition>,
    org_key: Seq<u8>,
    made: spec_fn(int, Option<Seq<char>>, Resolved) -> bool,
    upto: int,
    outs: Seq<Produced>,
    knowns: Seq<Seq<(Seq<char>, Seq<char>)>>,
    items: Seq<VaultItem>,
    j: int,
    m: int,
)
    requires
        is_partial_trace(base, keys, org_key, made, upto, outs, knowns, items),
        are_own_names(keys),
        only_public_keys_came(outs),
        0 <= j < m <= upto,
    ensures
        lookup(knowns[m], keys[j].name@) == Some(outs[j].0@),
    decreases m,
{
    let name = keys[j].name@;
    assert(step_ok(base, keys, org_key, made, outs, knowns, items, m - 1));
    let extra = aux_pairs(outs[m - 1].2);
    let stores = stores_for(keys[m - 1].name@, outs[m - 1].0@, extra);
    if m - 1 == j {
        assert forall|i: int| 0 <= i < extra.len() implies (#[trigger] extra[i]).0 != name by {
            assert(aux_pairs(outs[j].2)[i].0 == public_key_spec());
        }
        lemma_put_all_first(knowns[j], name, outs[j].0@, extra);
    } else {
        lemma_known_after(base, keys, org_key, made, upto, outs, knowns, items, j, m - 1);
        assert forall|i: int| 0 <= i < stores.len() implies (#[trigger] stores[i]).0 != name by {
            if i > 0 {
                assert(stores[i] == extra[i - 1]);
            }
        }
        lemma_put_all_other(knowns[m - 1], stores, name);
    }
}

/// The value of a key after a preparation by resolvers and generators,
/// where the keys have names of their own. The data holds for the key what
/// was made for it, for what the cipher held for the key before: the value
/// that the manifest and the cipher settle, where they settle one, so that a
/// static key has the value of the manifest and a random key keeps its value
/// in a run that is not forced; and what the generator returned for the
/// length of the key, for a random key that keeps none.
pub proof fn lemma_values_by_key<F, K, R, S>(
    base: VaultItem,
    after: VaultItem,
    secret: SecretDefinition,
    org_key: Seq<u8>,
    force: bool,
    file_resolver: F,
    k8s_resolver: K,
    random_generator: R,
    ssh_generator: S,
    pairs: Seq<(Seq<char>, Seq<char>)>,
    j: int,
) where
    F: Fn(&str, &str) -> Result<String, Error>,
    K: Fn(&str) -> Result<String, Error>,
    R: Fn(usize) -> String,
    S: Fn() -> Result<(String, String), Error>,

    requires
        has_distinct_keys(secret),
        0 <= j < secret.keys@.len(),
        prepared_as(
            base,
            after,
            secret.keys@,
            org_key,
            made_by(
                secret.keys@,
                force,
                file_resolver,
                k8s_resolver,
                random_generator,
                ssh_generator,
            ),
            Ok(pairs),
        ),
    ensures
        exists|out: Produced|
            {
                &&& #[trigger] made_by(
                    secret.keys@,
                    force,
                    file_resolver,
                    k8s_resolver,
                    random_generator,
                    ssh_generator,
                )(j, existing_value_spec(base, secret.keys@[j].name@, org_key), Ok(out))
                &&& lookup(pairs, secret.keys@[j].name@) == Some(out.0@)
            },
        match settled_value(
            secret.keys@[j],
            existing_value_spec(base, secret.keys@[j].name@, org_key),
            force,
        ) {
            Some(Ok(v)) => lookup(pairs, secret.keys@[j].name@) == Some(v),
            Some(Err(_)) => false,
            None => true,
        },
        secret.keys@[j].key_type is Random && settled_value(
            secret.keys@[j],
            existing_value_spec(base, secret.keys@[j].name@, org_key),
            force,
        ) is None ==> exists|s: String| #[trigger]
            random_generator.ensures((random_length(secret.keys@[j]),), s) && lookup(
                pairs,
                secret.keys@[j].name@,
            ) == Some(s@),
{
    let keys = secret.keys@;
    let made = made_by(keys, force, file_resolver, k8s_resolver, random_generator, ssh_generator);
    let n = keys.len() as int;
    let (outs, knowns, items) = choose|
        outs: Seq<Produced>,
        knowns: Seq<Seq<(Seq<char>, Seq<char>)>>,
        items: Seq<VaultItem>,
    |
        {
            &&& #[trigger] is_partial_trace(base, keys, org_key, made, n, outs, knowns, items)
            &&& pairs == knowns[n]
            &&& is_stamped(items[n], after)
        };
    assert forall|m: int, a: int|
        0 <= m < outs.len() && 0 <= a < aux_pairs(outs[m].2).len() implies (#[trigger] aux_pairs(
        outs[m].2,
    )[a]).0 == public_key_spec() by {
        assert(step_ok(base, keys, org_key, made, outs, knowns, items, m));
        let held = held_value(base, knowns[m], keys[m].name@, org_key);
        let r = Ok::<Produced, Error>(outs[m]);
        lemma_made_by_kind(
            keys,
            force,
            file_resolver,
            k8s_resolver,
            random_generator,
            ssh_generator,
            m,
            held,
            r,
        );
        lemma_nothing_comes_but_with_ssh(
            keys,
            force,
            file_resolver,
            k8s_resolver,
            random_generator,
            ssh_generator,
            m,
            held,
            outs[m],
        );
    }
    lemma_unknown_before(base, keys, org_key, made, n, outs, knowns, items, j, j);
    lemma_known_after(base, keys, org_key, made, n, outs, knowns, items, j, n);
    assert(step_ok(base, keys, org_key, made, outs, knowns, items, j));
    let held = existing_value_spec(base, keys[j].name@, org_key);
    assert(held_value(base, knowns[j], keys[j].name@, org_key) == held);
    let out = outs[j];
    assert(made(j, held, Ok::<Produced, Error>(out)));
    lemma_made_by_kind(
        keys,
        force,
        file_resolver,
        k8s_resolver,
        random_generator,
        ssh_generator,
        j,
        held,
        Ok::<Produced, Error>(out),
    );
    if keys[j].key_type is Random && settled_value(keys[j], held, force) is None {
        assert(random_generator.ensures((random_length(keys[j]),), out.0));
    }
}

/// Nothing comes with the value of a key that is no SSH key.
proof fn lemma_nothing_comes_but_with_ssh<F, K, R, S>(
    keys: Seq<KeyDefinition>,
    force: bool,
    file_resolver: F,
    k8s_resolver: K,
    random_generator: R,
    ssh_generator: S,
    j: int,
    held: Option<Seq<char>>,
    out: Produced,
) where
    F: Fn(&str, &str) -> Result<String, Error>,
    K: Fn(&str) -> Result<String, Error>,
    R: Fn(usize) -> String,
    S: Fn() -> Result<(String, String), Error>,

    requires
        made_by(keys, force, file_resolver, k8s_resolver, random_generator, ssh_generator)(
            j,
            held,
            Ok(out),
        ),
    ensures
        !(keys[j].key_type is Ssh) ==> aux_pairs(out.2).len() == 0,
{
    let existing = choose|existing: Option<String>|
        {
            &&& opt_string(existing) == kept_value(keys[j], held, force)
            &&& #[trigger] resolved_by(
                keys[j],
                existing,
                file_resolver,
                k8s_resolver,
                random_generator,
                ssh_generator,
                Ok(out),
            )
        };
}

/// The value of a key after a preparation from answers, where the keys have
/// names of their own: the data holds for the key what its plan says, for
/// what the cipher held for the key before and for its answer.
pub proof fn lemma_values_by_plan(
    base: VaultItem,
    after: VaultItem,
    secret: SecretDefinition,
    org_key: Seq<u8>,
    force: bool,
    answers: Seq<ValueAnswer>,
    pairs: Seq<(Seq<char>, Seq<char>)>,
    j: int,
)
    requires
        has_distinct_keys(secret),
        0 <= j < secret.keys@.len(),
        prepared_as(
            base,
            after,
            secret.keys@,
            org_key,
            made_with(secret.keys@, answers, force),
            Ok(pairs),
        ),
    ensures
        match plan_spec(
            secret.keys@[j],
            reusable_value(base, secret.keys@[j], org_key, force),
            answer_for(secret.keys@, answers, j),
        ) {
            Ok(ValuePlan::Known { value, public, is_new }) => lookup(pairs, secret.keys@[j].name@)
                == Some(value),
            Ok(ValuePlan::Fresh { length }) => lookup(pairs, secret.keys@[j].name@) matches Some(v)
                && v.len() == length && is_alphanumeric_text(v),
            Err(_) => false,
        },
{
    let keys = secret.keys@;
    let made = made_with(keys, answers, force);
    let n = keys.len() as int;
    let (outs, knowns, items) = choose|
        outs: Seq<Produced>,
        knowns: Seq<Seq<(Seq<char>, Seq<char>)>>,
        items: Seq<VaultItem>,
    |
        {
            &&& #[trigger] is_partial_trace(base, keys, org_key, made, n, outs, knowns, items)
            &&& pairs == knowns[n]
            &&& is_stamped(items[n], after)
        };
    assert forall|m: int, a: int|
        0 <= m < outs.len() && 0 <= a < aux_pairs(outs[m].2).len() implies (#[trigger] aux_pairs(
        outs[m].2,
    )[a]).0 == public_key_spec() by {
        assert(step_ok(base, keys, org_key, made, outs, knowns, items, m));
        let aux = outs[m].2->0;
        assert(aux_pairs(outs[m].2)[a] == (aux@[a].0@, aux@[a].1@));
    }
    lemma_unknown_before(base, keys, org_key, made, n, outs, knowns, items, j, j);
    lemma_known_after(base, keys, org_key, made, n, outs, knowns, items, j, n);
    assert(step_ok(base, keys, org_key, made, outs, knowns, items, j));
    assert(held_value(base, knowns[j], keys[j].name@, org_key) == existing_value_spec(
        base,
        keys[j].name@,
        org_key,
    ));
}

/// The parts of the cipher that a preparation leaves alone. Where no key of
/// the secret is `username` or `password`, the login block is as it was;
/// where every key is one of the two and nothing came with a value, the
/// custom fields are as they were.
pub proof fn lemma_untouched_parts(
    base: VaultItem,
    after: VaultItem,
    keys: Seq<KeyDefinition>,
    org_key: Seq<u8>,
    made: spec_fn(int, Option<Seq<char>>, Resolved) -> bool,
    outs: Seq<Produced>,
    knowns: Seq<Seq<(Seq<char>, Seq<char>)>>,
    items: Seq<VaultItem>,
)
    requires
        is_partial_trace(base, keys, org_key, made, keys.len() as int, outs, knowns, items),
        is_stamped(items[keys.len() as int], after),
        only_public_keys_came(outs),
    ensures
        (forall|i: int| 0 <= i < keys.len() ==> !is_login_key((#[trigger] keys[i]).name@))
            ==> after.login == base.login,
        (forall|i: int|
            0 <= i < keys.len() ==> is_login_key((#[trigger] keys[i]).name@) && aux_pairs(
                outs[i].2,
            ).len() == 0) ==> after.fields == base.fields,
{
    lemma_parts_upto(base, keys, org_key, made, keys.len() as int, outs, knowns, items, keys.len() as int);
}

/// The parts of the cipher that a preparation by resolvers and generators
/// leaves alone. Where no key of the secret is `username` or `password`, the
/// login block is as it was. Where every key is one of the two, and none is
/// an SSH key, the custom fields are as they were.
pub proof fn lemma_parts_by_key<F, K, R, S>(
    base: VaultItem,
    after: VaultItem,
    secret: SecretDefinition,
    org_key: Seq<u8>,
    force: bool,
    file_resolver: F,
    k8s_resolver: K,
    random_generator: R,
    ssh_generator: S,
    pairs: Seq<(Seq<char>, Seq<char>)>,
) where
    F: Fn(&str, &str) -> Result<String, Error>,
    K: Fn(&str) -> Result<String, Error>,
    R: Fn(usize) -> String,
    S: Fn() -> Result<(String, String), Error>,

    requires
        prepared_as(
            base,
            after,
            secret.keys@,
            org_key,
            made_by(
                secret.keys@,
                force,
                file_resolver,
                k8s_resolver,
                random_generator,
                ssh_generator,
            ),
            Ok(pairs),
        ),
    ensures
        (forall|i: int|
            0 <= i < secret.keys@.len() ==> !is_login_key((#[trigger] secret.keys@[i]).name@))
            ==> after.login == base.login,
        (forall|i: int|
            0 <= i < secret.keys@.len() ==> is_login_key((#[trigger] secret.keys@[i]).name@) && !(
            secret.keys@[i].key_type is Ssh)) ==> after.fields == base.fields,
{
    let keys = secret.keys@;
    let made = made_by(keys, force, file_resolver, k8s_resolver, random_generator, ssh_generator);
    let n = keys.len() as int;
    let (outs, knowns, items) = choose|
        outs: Seq<Produced>,
        knowns: Seq<Seq<(Seq<char>, Seq<char>)>>,
        items: Seq<VaultItem>,
    |
        {
            &&& #[trigger] is_partial_trace(base, keys, org_key, made, n, outs, knowns, items)
            &&& pairs == knowns[n]
            &&& is_stamped(items[n], after)
        };
    assert forall|m: int| 0 <= m < n && !((#[trigger] keys[m]).key_type is Ssh) implies aux_pairs(
        outs[m].2,
    ).len() == 0 by {
        assert(step_ok(base, keys, org_key, made, outs, knowns, items, m));
        let held = held_value(base, knowns[m], keys[m].name@, org_key);
        lemma_nothing_comes_but_with_ssh(
            keys,
            force,
            file_resolver,
            k8s_resolver,
            random_generator,
            ssh_generator,
            m,
            held,
            outs[m],
        );
    }
    assert forall|m: int, a: int|
        0 <= m < outs.len() && 0 <= a < aux_pairs(outs[m].2).len() implies (#[trigger] aux_pairs(
        outs[m].2,
    )[a]).0 == public_key_spec() by {
        assert(step_ok(base, keys, org_key, made, outs, knowns, items, m));
        let held = held_value(base, knowns[m], keys[m].name@, org_key);
        lemma_made_by_kind(
            keys,
            force,
            file_resolver,
            k8s_resolver,
            random_generator,
            ssh_generator,
            m,
            held,
            Ok::<Produced, Error>(outs[m]),
        );
        lemma_nothing_comes_but_with_ssh(
            keys,
            force,
            file_resolver,
            k8s_resolver,
            random_generator,
            ssh_generator,
            m,
            held,
            outs[m],
        );
    }
    lemma_untouched_parts(base, after, keys, org_key, made, outs, knowns, items);
}

/// The parts of the cipher that a preparation from answers leaves alone.
/// Where no key of the secret is `username` or `password`, the login block
/// is as it was. Where every key is one of the two, and none is an SSH key,
/// the custom fields are as they were.
pub proof fn lemma_parts_by_plan(
    base: VaultItem,
    after: VaultItem,
    secret: SecretDefinition,
    org_key: Seq<u8>,
    force: bool,
    answers: Seq<ValueAnswer>,
    pairs: Seq<(Seq<char>, Seq<char>)>,
)
    requires
        prepared_as(
            base,
            after,
            secret.keys@,
            org_key,
            made_with(secret.keys@, answers, force),
            Ok(pairs),
        ),
    ensures
        (forall|i: int|
            0 <= i < secret.keys@.len() ==> !is_login_key((#[trigger] secret.keys@[i]).name@))
            ==> after.login == base.login,
        (forall|i: int|
            0 <= i < secret.keys@.len() ==> is_login_key((#[trigger] secret.keys@[i]).name@) && !(
            secret.keys@[i].key_type is Ssh)) ==> after.fields == base.fields,
{
    let keys = secret.keys@;
    let made = made_with(keys, answers, force);
    let n = keys.len() as int;
    let (outs, knowns, items) = choose|
        outs: Seq<Produced>,
        knowns: Seq<Seq<(Seq<char>, Seq<char>)>>,
        items: Seq<VaultItem>,
    |
        {
            &&& #[trigger] is_partial_trace(base, keys, org_key, made, n, outs, knowns, items)
            &&& pairs == knowns[n]
            &&& is_stamped(items[n], after)
        };
    assert forall|m: int| 0 <= m < n && !((#[trigger] keys[m]).key_type is Ssh) implies aux_pairs(
        outs[m].2,
    ).len() == 0 by {
        assert(step_ok(base, keys, org_key, made, outs, knowns, items, m));
    }
    assert forall|m: int, a: int|
        0 <= m < outs.len() && 0 <= a < aux_pairs(outs[m].2).len() implies (#[trigger] aux_pairs(
        outs[m].2,
    )[a]).0 == public_key_spec() by {
        assert(step_ok(base, keys, org_key, made, outs, knowns, items, m));
        let aux = outs[m].2->0;
        assert(aux_pairs(outs[m].2)[a] == (aux@[a].0@, aux@[a].1@));
    }
    lemma_untouched_parts(base, after, keys, org_key, made, outs, knowns, items);
}

/// The same, up to the key at `m`.
proof fn lemma_parts_upto(
    base: VaultItem,
    keys: Seq<KeyDefinition>,
    org_key: Seq<u8>,
    made: spec_fn(int, Option<Seq<char>>, Resolved) -> bool,
    upto: int,
    outs: Seq<Produced>,
    knowns: Seq<Seq<(Seq<char>, Seq<char>)>>,
    items: Seq<VaultItem>,
    m: int,
)
    requires
        is_partial_trace(base, keys, org_key, made, upto, outs, knowns, items),
        only_public_keys_came(outs),
        0 <= m <= upto,
    ensures
        (forall|i: int| 0 <= i < m ==> !is_login_key((#[trigger] keys[i]).name@)) ==> items[m].login
            == base.login,
        (forall|i: int|
            0 <= i < m ==> is_login_key((#[trigger] keys[i]).name@) && aux_pairs(outs[i].2).len()
                == 0) ==> items[m].fields == base.fields,
    decreases m,
{
    if m > 0 {
        lemma_parts_upto(base, keys, org_key, made, upto, outs, knowns, items, m - 1);
        assert(step_ok(base, keys, org_key, made, outs, knowns, items, m - 1));
        let name = keys[m - 1].name@;
        let extra = aux_pairs(outs[m - 1].2);
        let stores = stores_for(name, outs[m - 1].0@, extra);
        assert forall|i: int| 0 < i < stores.len() implies (#[trigger] stores[i]).0
            == public_key_spec() by {
            assert(stores[i] == extra[i - 1]);
        }
        assert(!is_login_key(public_key_spec())) by {
            assert(public_key_spec().len() == 10);
            assert(username_spec().len() == 8);
            assert(password_spec().len() == 8);
        }
        lemma_stores_leave_parts(items[m - 1], items[m], stores, org_key);
        assert(stores[0] == (name, outs[m - 1].0@));
        if forall|i: int| 0 <= i < m ==> !is_login_key((#[trigger] keys[i]).name@) {
            assert(!is_login_key(keys[m - 1].name@));
            assert forall|i: int| 0 <= i < stores.len() implies !is_login_key(
                (#[trigger] stores[i]).0,
            ) by {}
        }
        if forall|i: int|
            0 <= i < m ==> is_login_key((#[trigger] keys[i]).name@) && aux_pairs(outs[i].2).len()
                == 0 {
            assert(is_login_key(keys[m - 1].name@) && aux_pairs(outs[m - 1].2).len() == 0);
            assert forall|i: int| 0 <= i < stores.len() implies is_login_key(
                (#[trigger] stores[i]).0,
            ) by {}
        }
    }
}

/// Stores under names that are no login keys leave the login block as it
/// was; stores under login keys leave the custom fields as they were.
pub proof fn lemma_stores_leave_parts(
    old: VaultItem,
    new: VaultItem,
    stores: Seq<(Seq<char>, Seq<char>)>,
    org_key: Seq<u8>,
)
    requires
        values_are_stored(old, new, stores, org_key),
    ensures
        (forall|i: int| 0 <= i < stores.len() ==> !is_login_key((#[trigger] stores[i]).0))
            ==> new.login == old.login,
        (forall|i: int| 0 <= i < stores.len() ==> is_login_key((#[trigger] stores[i]).0))
            ==> new.fields == old.fields,
{
    let states = choose|states: Seq<VaultItem>| #[trigger]
        leads_by_stores(states, old, new, stores, org_key);
    lemma_chain_leaves_parts(states, old, new, stores, org_key, stores.len() as int);
}

/// The same, up to the store at `m`.
proof fn lemma_chain_leaves_parts(
    states: Seq<VaultItem>,
    old: VaultItem,
    new: VaultItem,
    stores: Seq<(Seq<char>, Seq<char>)>,
    org_key: Seq<u8>,
    m: int,
)
    requires
        leads_by_stores(states, old, new, stores, org_key),
        0 <= m <= stores.len(),
    ensures
        (forall|i: int| 0 <= i < m ==> !is_login_key((#[trigger] stores[i]).0)) ==> states[m].login
            == old.login,
        (forall|i: int| 0 <= i < m ==> is_login_key((#[trigger] stores[i]).0)) ==> states[m].fields
            == old.fields,
    decreases m,
{
    if m > 0 {
        lemma_chain_leaves_parts(states, old, new, stores, org_key, m - 1);
        assert(value_is_stored(states[m - 1], states[m - 1 + 1], stores[m - 1].0, stores[m - 1].1, org_key));
        lemma_stored_key_place(states[m - 1], states[m], stores[m - 1].0, stores[m - 1].1, org_key);
        if forall|i: int| 0 <= i < m ==> !is_login_key((#[trigger] stores[i]).0) {
            assert(!is_login_key(stores[m - 1].0));
        }
        if forall|i: int| 0 <= i < m ==> is_login_key((#[trigger] stores[i]).0) {
            assert(is_login_key(stores[m - 1].0));
        }
    }
}

} // verus!
