//! The values of a rotation that come from outside: from files of the
//! repository, from secrets of the cluster, and from the key generator.

use crate::commands::rotate::item_ops::{
    aux_has_key, covers_keys, crypto_error, held_value, is_failed_trace, is_partial_trace,
    is_prepared, is_stamped, item_holds_data, kept_value, lemma_trace_grows, notes_of,
    only_values_differ, pairs_result, prepared_as, record_resolved, regenerated_notes_spec,
    reusable_value, stamp_notes, storable, tracks, Produced,
};
use crate::crypto::aes::MAX_PLAINTEXT_LEN;
use crate::crypto::field::fits;
use crate::logic::parsing::is_login_key;
use crate::error::Error;
use crate::text::opt_string;
use crate::infra::fs::{file_value_spec, get_file_value, YamlValue};
use crate::infra::k8s::{get_k8s_secret, secret_value_spec};
use crate::infra::random::{get_random_string, is_alphanumeric_spec, is_alphanumeric_text};
use crate::infra::ssh::generate_ssh_keypair;
use crate::logic::parsing::{existing_value_spec, find_existing_encrypted_value};
use crate::logic::resolution::{
    public_key_name, public_key_spec, random_length, Resolved, DEFAULT_RANDOM_LENGTH,
};
use crate::models::config::SecretDefinition;
use crate::models::k8s::KubernetesTarget;
use crate::models::keys::{KeyDefinition, KeyType};
use crate::text::trim_spec;
use crate::text_map::{lookup, TextMap};
use crate::vaultwarden::item::VaultItem;
use vstd::prelude::*;
use vstd::utf8::encode_utf8;

verus! {

/// What is to be fetched for a key.
#[derive(Debug)]
pub enum ValueRequest {
    /// The YAML document at a path under the root of the repository.
    File { path: String },
    /// The data of a secret of the cluster.
    Cluster { secret_name: String, namespace: String },
    /// A fresh Ed25519 key pair from the key generator.
    SshKeypair,
}

/// What was fetched for a key.
#[derive(Debug)]
pub enum ValueAnswer {
    /// The document.
    File(YamlValue),
    /// The data of the secret: `None` where it has none; an entry is `None`
    /// where it is no string.
    Cluster(Option<Vec<(String, Option<String>)>>),
    /// The two files that the key generator wrote.
    SshKeypair { private_file: String, public_file: String },
}

/// Whether the value of the key is fetched from outside: a file key with a
/// source, a cluster key, an SSH key.
pub open spec fn is_fetched(key_def: KeyDefinition) -> bool {
    match key_def.key_type {
        KeyType::File => key_def.source is Some,
        KeyType::K8s => true,
        KeyType::Ssh => true,
        _ => false,
    }
}

/// Whether `request` asks for what the key needs.
pub open spec fn asks_for(
    request: ValueRequest,
    key_def: KeyDefinition,
    target: KubernetesTarget,
) -> bool {
    match key_def.key_type {
        KeyType::File => request matches ValueRequest::File { path } && key_def.source matches Some(
            source,
        ) && path@ == source.path@,
        KeyType::K8s => request matches ValueRequest::Cluster { secret_name, namespace }
            && secret_name@ == target.secret_name@ && namespace@ == target.namespace@,
        KeyType::Ssh => request is SshKeypair,
        _ => false,
    }
}

/// The number of keys before `upto` whose value is fetched from outside.
pub open spec fn fetched_before(keys: Seq<KeyDefinition>, upto: int) -> int
    decreases upto,
{
    if upto <= 0 {
        0
    } else if is_fetched(keys[upto - 1]) {
        fetched_before(keys, upto - 1) + 1
    } else {
        fetched_before(keys, upto - 1)
    }
}

/// Whether `requests` are the requests of the secret: one for every key
/// whose value is fetched from outside, in the order of the keys. A cluster
/// key is asked of the secret that the rotation writes.
pub open spec fn are_requests_of(requests: Seq<ValueRequest>, secret: SecretDefinition) -> bool {
    &&& requests.len() == fetched_before(secret.keys@, secret.keys@.len() as int)
    &&& forall|i: int|
        0 <= i < secret.keys@.len() && is_fetched(#[trigger] secret.keys@[i]) ==> asks_for(
            requests[fetched_before(secret.keys@, i)],
            secret.keys@[i],
            secret.kubernetes,
        )
}

/// `fetched_before` counts at most the keys it passes.
pub proof fn lemma_fetched_before(keys: Seq<KeyDefinition>, upto: int)
    requires
        0 <= upto,
    ensures
        0 <= fetched_before(keys, upto) <= upto,
    decreases upto,
{
    if upto > 0 {
        lemma_fetched_before(keys, upto - 1);
    }
}

/// What is to be fetched for the keys of a secret.
pub fn value_requests(secret: &SecretDefinition) -> (requests: Vec<ValueRequest>)
    ensures
        are_requests_of(requests@, *secret),
{
    let mut requests: Vec<ValueRequest> = Vec::new();
    let mut i: usize = 0;
    while i < secret.keys.len()
        invariant
            i <= secret.keys@.len(),
            requests@.len() == fetched_before(secret.keys@, i as int),
            forall|j: int|
                0 <= j < i && is_fetched(#[trigger] secret.keys@[j]) ==> asks_for(
                    requests@[fetched_before(secret.keys@, j)],
                    secret.keys@[j],
                    secret.kubernetes,
                ),
        decreases secret.keys@.len() - i,
    {
        let key_def = &secret.keys[i];
        let ghost before = requests@;
        proof {
            assert forall|j: int| 0 <= j < i implies 0 <= fetched_before(secret.keys@, j)
                < fetched_before(secret.keys@, j + 1) || !is_fetched(secret.keys@[j]) by {
                lemma_fetched_before(secret.keys@, j);
            }
            assert forall|j: int| 0 <= j < i && is_fetched(secret.keys@[j]) implies fetched_before(
                secret.keys@,
                j,
            ) < before.len() by {
                lemma_fetched_monotone(secret.keys@, j + 1, i as int);
                lemma_fetched_before(secret.keys@, j);
            }
            lemma_fetched_before(secret.keys@, i as int);
        }
        match key_def.key_type {
            KeyType::File => match &key_def.source {
                Some(source) => {
                    requests.push(ValueRequest::File { path: source.path.clone() });
                },
                None => {},
            },
            KeyType::K8s => {
                requests.push(
                    ValueRequest::Cluster {
                        secret_name: secret.kubernetes.secret_name.clone(),
                        namespace: secret.kubernetes.namespace.clone(),
                    },
                );
            },
            KeyType::Ssh => {
                requests.push(ValueRequest::SshKeypair);
            },
            _ => {},
        }
        proof {
            assert forall|j: int| 0 <= j < i && is_fetched(#[trigger] secret.keys@[j]) implies asks_for(
                requests@[fetched_before(secret.keys@, j)],
                secret.keys@[j],
                secret.kubernetes,
            ) by {
                assert(requests@[fetched_before(secret.keys@, j)] == before[fetched_before(
                    secret.keys@,
                    j,
                )]);
            }
        }
        i += 1;
    }
    requests
}

/// `fetched_before` does not shrink.
pub proof fn lemma_fetched_monotone(keys: Seq<KeyDefinition>, a: int, b: int)
    requires
        0 <= a <= b,
    ensures
        fetched_before(keys, a) <= fetched_before(keys, b),
    decreases b - a,
{
    if a < b {
        lemma_fetched_monotone(keys, a, b - 1);
    }
}

/// What a key gets from what was fetched for it: the value and, for an SSH
/// key, the public half that comes with it. An answer of another kind than
/// the key asked for is out of turn.
pub open spec fn answered_spec(key_def: KeyDefinition, answer: ValueAnswer) -> Result<
    (Seq<char>, Option<Seq<char>>),
    Error,
> {
    match key_def.key_type {
        KeyType::File => match (answer, key_def.source) {
            (ValueAnswer::File(doc), Some(source)) => match file_value_spec(doc, source.key_path@) {
                Ok(v) => Ok((v, None)),
                Err(e) => Err(e),
            },
            _ => Err(Error::OutOfTurn),
        },
        KeyType::K8s => match answer {
            ValueAnswer::Cluster(data) => match secret_value_spec(data, key_def.name@) {
                Ok(v) => Ok((v, None)),
                Err(e) => Err(e),
            },
            _ => Err(Error::OutOfTurn),
        },
        KeyType::Ssh => match answer {
            ValueAnswer::SshKeypair { private_file, public_file } => Ok(
                (trim_spec(private_file@), Some(trim_spec(public_file@))),
            ),
            _ => Err(Error::OutOfTurn),
        },
        _ => Err(Error::OutOfTurn),
    }
}

/// What the value of a key is going to be.
pub enum ValuePlan {
    /// This value, and the public half that comes with an SSH key.
    Known { value: Seq<char>, public: Option<Seq<char>>, is_new: bool },
    /// New random letters and digits, so many.
    Fresh { length: usize },
}

/// What the value of a key is going to be, for the value that the cipher
/// holds and the answer that was fetched for the key.
///
/// A static key has the value of the manifest. A file key and a cluster key
/// have what their answer holds for them; neither is new. A random key keeps
/// the existing value where there is one, and takes new random letters and
/// digits of its length otherwise. An SSH key takes the pair of its answer:
/// the private half is the value, the public half comes with it, and both
/// are new. A key that needs an answer and has none, or one of another kind,
/// is out of turn.
pub open spec fn plan_spec(
    key_def: KeyDefinition,
    existing: Option<Seq<char>>,
    answer: Option<ValueAnswer>,
) -> Result<ValuePlan, Error> {
    match key_def.key_type {
        KeyType::Static => match key_def.value {
            Some(v) => Ok(ValuePlan::Known { value: v@, public: None, is_new: false }),
            None => Err(Error::StaticWithoutValue),
        },
        KeyType::Random => match existing {
            Some(v) => Ok(ValuePlan::Known { value: v, public: None, is_new: false }),
            None => Ok(ValuePlan::Fresh { length: random_length(key_def) }),
        },
        _ => if key_def.key_type is File && key_def.source is None {
            Err(Error::FileWithoutSource)
        } else {
            match answer {
                None => Err(Error::OutOfTurn),
                Some(a) => match answered_spec(key_def, a) {
                    Err(e) => Err(e),
                    Ok((v, public)) => Ok(
                        ValuePlan::Known { value: v, public, is_new: key_def.key_type is Ssh },
                    ),
                },
            }
        },
    }
}

/// Whether what was produced follows the plan.
pub open spec fn follows_plan(out: (String, bool, Option<Vec<(String, String)>>), plan: ValuePlan) -> bool {
    match plan {
        ValuePlan::Known { value, public, is_new } => {
            &&& out.0@ == value
            &&& out.1 == is_new
            &&& match public {
                None => out.2 is None,
                Some(p) => {
                    &&& out.2 matches Some(aux)
                    &&& aux@.len() == 1
                    &&& aux@[0].0@ == public_key_spec()
                    &&& aux@[0].1@ == p
                },
            }
        },
        ValuePlan::Fresh { length } => {
            &&& out.0@.len() == length
            &&& is_alphanumeric_text(out.0@)
            &&& out.1
            &&& out.2 is None
        },
    }
}

/// Whether `r` is what producing the value of a key gives: the error of the
/// plan, or something that follows the plan.
pub open spec fn resolved_with(
    key_def: KeyDefinition,
    existing: Option<Seq<char>>,
    answer: Option<ValueAnswer>,
    r: Resolved,
) -> bool {
    match plan_spec(key_def, existing, answer) {
        Err(e) => r matches Err(x) && x == e,
        Ok(plan) => r matches Ok(out) && follows_plan(out, plan),
    }
}

/// Produces the value of a key from the answer that was fetched for it.
pub fn resolve_with_answer(
    key_def: &KeyDefinition,
    existing_value: Option<String>,
    answer: Option<&ValueAnswer>,
) -> (r: Resolved)
    ensures
        resolved_with(
            *key_def,
            opt_string(existing_value),
            match answer {
                Some(a) => Some(*a),
                None => None,
            },
            r,
        ),
{
    match key_def.key_type {
        KeyType::Static => match &key_def.value {
            Some(v) => Ok((v.clone(), false, None)),
            None => Err(Error::StaticWithoutValue),
        },
        KeyType::Random => match existing_value {
            Some(v) => Ok((v, false, None)),
            None => {
                let len = match key_def.length {
                    Some(n) => n,
                    None => DEFAULT_RANDOM_LENGTH,
                };
                Ok((get_random_string(len), true, None))
            },
        },
        KeyType::File => match &key_def.source {
            None => Err(Error::FileWithoutSource),
            Some(source) => match answer {
                Some(ValueAnswer::File(doc)) => match get_file_value(doc, source.key_path.as_str()) {
                    Ok(v) => Ok((v, false, None)),
                    Err(e) => Err(e),
                },
                _ => Err(Error::OutOfTurn),
            },
        },
        KeyType::K8s => match answer {
            Some(ValueAnswer::Cluster(data)) => match get_k8s_secret(data, key_def.name.as_str()) {
                Ok(v) => Ok((v, false, None)),
                Err(e) => Err(e),
            },
            _ => Err(Error::OutOfTurn),
        },
        KeyType::Ssh => match answer {
            Some(ValueAnswer::SshKeypair { private_file, public_file }) => {
                let pair = generate_ssh_keypair(private_file.as_str(), public_file.as_str());
                let mut aux: Vec<(String, String)> = Vec::new();
                aux.push((public_key_name(), pair.1));
                Ok((pair.0, true, Some(aux)))
            },
            _ => Err(Error::OutOfTurn),
        },
    }
}

/// A random key keeps the value that the cipher holds for it, in a run
/// that is not forced, whatever was fetched; and what an SSH key gets is
/// always new.
pub proof fn lemma_random_keys_keep_their_value(
    item: VaultItem,
    key_def: KeyDefinition,
    org_key: Seq<u8>,
    answer: Option<ValueAnswer>,
    force: bool,
)
    ensures
        key_def.key_type is Random && !force && existing_value_spec(item, key_def.name@, org_key)
            is Some ==> plan_spec(key_def, reusable_value(item, key_def, org_key, force), answer)
            == Ok::<ValuePlan, Error>(
            ValuePlan::Known {
                value: existing_value_spec(item, key_def.name@, org_key)->0,
                public: None,
                is_new: false,
            },
        ),
        key_def.key_type is Ssh ==> match plan_spec(
            key_def,
            reusable_value(item, key_def, org_key, force),
            answer,
        ) {
            Ok(ValuePlan::Known { value, public, is_new }) => is_new && public is Some,
            Ok(ValuePlan::Fresh { length }) => false,
            Err(_) => true,
        },
{
}

/// Whether what is planned for a key can be stored: the organization key
/// has 64 bytes or more, and every text is short enough to be encrypted.
pub open spec fn plan_storable(key_def: KeyDefinition, plan: ValuePlan, org_key: Seq<u8>) -> bool {
    match plan {
        ValuePlan::Known { value, public, is_new } => storable(key_def.name@, value, org_key) && (
        public matches Some(p) ==> fits(p)),
        ValuePlan::Fresh { length } => org_key.len() >= 64 && length <= MAX_PLAINTEXT_LEN && (
        is_login_key(key_def.name@) || fits(key_def.name@)),
    }
}

/// The answer that was fetched for the key at `i`: answers stand in the
/// order of the keys that asked for them.
pub open spec fn answer_for(keys: Seq<KeyDefinition>, answers: Seq<ValueAnswer>, i: int) -> Option<
    ValueAnswer,
> {
    if is_fetched(keys[i]) && fetched_before(keys, i) < answers.len() {
        Some(answers[fetched_before(keys, i)])
    } else {
        None
    }
}

/// The error that ends the preparation, from the key at `from` on: that of
/// the first key whose value cannot be produced or cannot be stored. `item`
/// is the cipher as it was fetched.
pub open spec fn first_failure(
    item: VaultItem,
    keys: Seq<KeyDefinition>,
    answers: Seq<ValueAnswer>,
    org_key: Seq<u8>,
    force: bool,
    from: int,
) -> Option<Error>
    decreases keys.len() - from,
{
    if from < 0 || from >= keys.len() {
        None
    } else {
        match plan_spec(
            keys[from],
            reusable_value(item, keys[from], org_key, force),
            answer_for(keys, answers, from),
        ) {
            Err(e) => Some(e),
            Ok(plan) => if plan_storable(keys[from], plan, org_key) {
                first_failure(item, keys, answers, org_key, force, from + 1)
            } else {
                Some(crypto_error(org_key))
            },
        }
    }
}

/// How the value of the key at an index is made from the answers that were
/// fetched, for what the cipher holds for the key: as `resolved_with` says,
/// with the value that the key may keep and the answer that was fetched for
/// it.
pub open spec fn made_with(keys: Seq<KeyDefinition>, answers: Seq<ValueAnswer>, force: bool) -> spec_fn(
    int,
    Option<Seq<char>>,
    Resolved,
) -> bool {
    |j: int, held: Option<Seq<char>>, r: Resolved|
        resolved_with(keys[j], kept_value(keys[j], held, force), answer_for(keys, answers, j), r)
}

/// Whether the keys of the secret have names of their own: no two keys
/// share a name, and none is named `public_key`, the name that the public
/// half of an SSH key is kept under.
pub open spec fn has_distinct_keys(secret: SecretDefinition) -> bool {
    &&& forall|i: int, j: int|
        0 <= i < j < secret.keys@.len() ==> (#[trigger] secret.keys@[i]).name@ != (
        #[trigger] secret.keys@[j]).name@
    &&& forall|i: int|
        0 <= i < secret.keys@.len() ==> (#[trigger] secret.keys@[i]).name@ != public_key_spec()
}

/// The name `public_key` is short enough to be encrypted.
proof fn lemma_public_key_fits()
    ensures
        fits(public_key_spec()),
{
    vstd::utf8::is_ascii_chars_encode_utf8(public_key_spec());
}

/// A text of letters and digits has as many bytes as characters.
proof fn lemma_alphanumeric_bytes(s: Seq<char>)
    requires
        is_alphanumeric_text(s),
    ensures
        encode_utf8(s).len() == s.len(),
{
    assert(vstd::utf8::is_ascii_chars(s)) by {
        assert forall|i: int| 0 <= i < s.len() implies '\0' <= #[trigger] s[i] <= '\u{7f}' by {
            assert(is_alphanumeric_spec(s[i]));
        }
    }
    vstd::utf8::is_ascii_chars_encode_utf8(s);
}

/// Produces the values of the keys of a secret from the answers that were
/// fetched for them, stores them in the cipher, encrypted under the
/// organization key, and gives the notes a fresh marker. The answers stand
/// in the order of the keys that asked for them.
///
/// The keys are taken one after the other. A key gets what its plan says,
/// for what the cipher holds for it by then and for its answer; the value is
/// stored where the key lives, and the public half of an SSH key under
/// `public_key`; a later key of the same name takes the place of an earlier
/// one. The preparation succeeds exactly where every key gets a value that
/// can be stored, and fails with the error of the first key that gets none.
/// Afterwards the cipher holds, for every name of the data, the value of the
/// data; every key of the secret has a value; and the notes are the old
/// notes under a new marker line. Where the keys have names of their own,
/// the error is that of `first_failure`, which looks at the cipher as it was
/// fetched.
pub fn prepare_with_answers(
    item: &mut VaultItem,
    secret: &SecretDefinition,
    org_key: &[u8],
    force: bool,
    answers: &Vec<ValueAnswer>,
) -> (r: Result<TextMap, Error>)
    ensures
        prepared_as(
            *old(item),
            *final(item),
            secret.keys@,
            org_key@,
            made_with(secret.keys@, answers@, force),
            pairs_result(r),
        ),
        r matches Ok(data) ==> is_prepared(*old(item), *final(item), data.pairs(), org_key@)
            && covers_keys(data.pairs(), *secret),
        r is Err ==> only_values_differ(*old(item), *final(item)) && final(item).notes == old(
            item,
        ).notes,
        has_distinct_keys(*secret) ==> match first_failure(
            *old(item),
            secret.keys@,
            answers@,
            org_key@,
            force,
            0,
        ) {
            Some(e) => r matches Err(x) && x == e,
            None => r is Ok,
        },
{
    let mut data = TextMap::new();
    let mut i: usize = 0;
    let mut next_answer: usize = 0;
    let ghost distinct = has_distinct_keys(*secret);
    let ghost made = made_with(secret.keys@, answers@, force);
    let ghost mut outs: Seq<Produced> = seq![];
    let ghost mut knowns: Seq<Seq<(Seq<char>, Seq<char>)>> = seq![data.pairs()];
    let ghost mut items: Seq<VaultItem> = seq![*item];
    while i < secret.keys.len()
        invariant
            i <= secret.keys@.len(),
            next_answer == fetched_before(secret.keys@, i as int),
            made == made_with(secret.keys@, answers@, force),
            is_partial_trace(
                *old(item),
                secret.keys@,
                org_key@,
                made,
                i as int,
                outs,
                knowns,
                items,
            ),
            knowns[i as int] == data.pairs(),
            items[i as int] == *item,
            tracks(*item, *old(item), data.pairs(), org_key@),
            distinct == has_distinct_keys(*secret),
            item_holds_data(*item, data.pairs(), org_key@),
            forall|j: int| 0 <= j < i ==> lookup(data.pairs(), (#[trigger] secret.keys@[j]).name@) is Some,
            only_values_differ(*old(item), *item),
            item.notes == old(item).notes,
            distinct ==> first_failure(*old(item), secret.keys@, answers@, org_key@, force, 0)
                == first_failure(*old(item), secret.keys@, answers@, org_key@, force, i as int),
            distinct ==> forall|j: int|
                i <= j < secret.keys@.len() ==> #[trigger] existing_value_spec(
                    *item,
                    secret.keys@[j].name@,
                    org_key@,
                ) == existing_value_spec(*old(item), secret.keys@[j].name@, org_key@),
        decreases secret.keys@.len() - i,
    {
        let key_def = &secret.keys[i];
        proof {
            lemma_fetched_before(secret.keys@, i as int);
        }
        let existing = match key_def.key_type {
            KeyType::Random => if force {
                None
            } else {
                find_existing_encrypted_value(item, key_def.name.as_str(), org_key)
            },
            _ => None,
        };
        let fetched = match key_def.key_type {
            KeyType::File => key_def.source.is_some(),
            KeyType::K8s => true,
            KeyType::Ssh => true,
            _ => false,
        };
        let answer = if fetched && next_answer < answers.len() {
            Some(&answers[next_answer])
        } else {
            None
        };
        let ghost plan = plan_spec(
            *key_def,
            opt_string(existing),
            match answer {
                Some(a) => Some(*a),
                None => None,
            },
        );
        proof {
            if distinct {
                assert(existing_value_spec(*item, secret.keys@[i as int].name@, org_key@)
                    == existing_value_spec(*old(item), secret.keys@[i as int].name@, org_key@));
                assert(opt_string(existing) == reusable_value(
                    *old(item),
                    *key_def,
                    org_key@,
                    force,
                ));
            }
        }
        if fetched {
            next_answer += 1;
        }
        let ghost held = held_value(*old(item), data.pairs(), key_def.name@, org_key@);
        proof {
            assert(existing_value_spec(*item, key_def.name@, org_key@) == held);
            assert(opt_string(existing) == kept_value(*key_def, held, force));
        }
        let produced = resolve_with_answer(key_def, existing, answer);
        proof {
            assert(made(i as int, held, produced));
        }
        let (value, is_new, aux) = match produced {
            Ok(out) => out,
            Err(e) => {
                proof {
                    assert(is_failed_trace(
                        *old(item),
                        secret.keys@,
                        org_key@,
                        made,
                        i as int,
                        outs,
                        knowns,
                        items,
                        e,
                    ));
                }
                return Err(e);
            },
        };
        let ghost out: Produced = (value, is_new, aux);
        let ghost item_before = *item;
        proof {
            lemma_public_key_fits();
            if plan is Ok {
                match plan->Ok_0 {
                    ValuePlan::Fresh { length } => {
                        lemma_alphanumeric_bytes(value@);
                    },
                    ValuePlan::Known { value: v, public, is_new } => {},
                }
            }
        }
        match record_resolved(
            item,
            &mut data,
            key_def.name.as_str(),
            value.as_str(),
            &aux,
            org_key,
            Ghost(*old(item)),
        ) {
            Ok(()) => {},
            Err(e) => {
                proof {
                    assert(made(i as int, held, Ok::<Produced, Error>(out)));
                    assert(is_failed_trace(
                        *old(item),
                        secret.keys@,
                        org_key@,
                        made,
                        i as int,
                        outs,
                        knowns,
                        items,
                        e,
                    ));
                }
                return Err(e);
            },
        }
        proof {
            lemma_trace_grows(
                *old(item),
                secret.keys@,
                org_key@,
                made,
                i as int,
                outs,
                knowns,
                items,
                out,
                data.pairs(),
                *item,
            );
            outs = outs.push(out);
            knowns = knowns.push(data.pairs());
            items = items.push(*item);
            if distinct {
                assert forall|j: int| i < j < secret.keys@.len() implies #[trigger] existing_value_spec(
                    *item,
                    secret.keys@[j].name@,
                    org_key@,
                ) == existing_value_spec(*old(item), secret.keys@[j].name@, org_key@) by {
                    let k = secret.keys@[j].name@;
                    assert(k != secret.keys@[i as int].name@);
                    assert(k != public_key_spec());
                    assert(!aux_has_key(aux, k));
                    assert(existing_value_spec(*item, k, org_key@) == existing_value_spec(
                        item_before,
                        k,
                        org_key@,
                    ));
                }
            }
        }
        i += 1;
    }
    let ghost before_notes = *item;
    stamp_notes(item);
    proof {
        assert forall|k: Seq<char>| #[trigger]
            lookup(data.pairs(), k) is Some implies existing_value_spec(
            *item,
            k,
            org_key@,
        ) == lookup(data.pairs(), k) by {
            assert(existing_value_spec(*item, k, org_key@) == existing_value_spec(
                before_notes,
                k,
                org_key@,
            ));
        }
        let now = choose|now: Seq<char>|
            item.notes->0@ == #[trigger] regenerated_notes_spec(notes_of(before_notes), now);
        assert(notes_of(before_notes) == notes_of(*old(item)));
        assert(is_stamped(items[secret.keys@.len() as int], *item));
        assert(is_partial_trace(
            *old(item),
            secret.keys@,
            org_key@,
            made,
            secret.keys@.len() as int,
            outs,
            knowns,
            items,
        ));
    }
    Ok(data)
}

} // verus!
