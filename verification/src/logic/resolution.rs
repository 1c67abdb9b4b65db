//! Which collection a name means, and where the value of a key comes from.

use crate::crypto::aes::{has_type_tag, has_type_tag_spec};
use crate::crypto::field::{decrypt_text, decrypt_text_spec};
use crate::error::Error;
use crate::models::keys::{KeyDefinition, KeyType};
use crate::search::{first_index, lemma_first_index, lemma_first_index_at};
use crate::text::{str_eq, string_views};
use crate::vaultwarden::models::Collection;
use vstd::prelude::*;

verus! {

/// Whether the name of the collection is a cipher string that decrypts to
/// `request` under the organization key.
pub open spec fn sealed_name_is(c: Collection, request: Seq<char>, org_key: Seq<u8>) -> bool {
    has_type_tag_spec(c.name@, '2') && decrypt_text_spec(c.name@, org_key) == Some(request)
}

/// Whether the collection at an index has the id `request`.
pub open spec fn has_id(cols: Seq<Collection>, request: Seq<char>) -> spec_fn(int) -> bool {
    |i: int| cols[i].id@ == request
}

/// Whether the collection at an index has the name `request`, as it stands.
pub open spec fn has_name(cols: Seq<Collection>, request: Seq<char>) -> spec_fn(int) -> bool {
    |i: int| cols[i].name@ == request
}

/// Whether the name of the collection at an index decrypts to `request`.
pub open spec fn has_sealed_name(
    cols: Seq<Collection>,
    request: Seq<char>,
    org_key: Seq<u8>,
) -> spec_fn(int) -> bool {
    |i: int| sealed_name_is(cols[i], request, org_key)
}

/// The index of the first collection whose id is `request`, or the number of
/// collections.
pub open spec fn first_with_id(cols: Seq<Collection>, request: Seq<char>) -> int {
    first_index(cols.len() as int, 0, has_id(cols, request))
}

/// The index of the first collection whose name, as it stands, is `request`,
/// or the number of collections.
pub open spec fn first_with_name(cols: Seq<Collection>, request: Seq<char>) -> int {
    first_index(cols.len() as int, 0, has_name(cols, request))
}

/// The index of the first collection whose name decrypts to `request`, or
/// the number of collections.
pub open spec fn first_with_sealed_name(
    cols: Seq<Collection>,
    request: Seq<char>,
    org_key: Seq<u8>,
) -> int {
    first_index(cols.len() as int, 0, has_sealed_name(cols, request, org_key))
}

/// The id that `request` resolves to: that of the first collection with this
/// id; where there is none, of the first with this name; where there is
/// none, of the first whose name decrypts to it; else `None`.
pub open spec fn resolve_one_spec(
    request: Seq<char>,
    cols: Seq<Collection>,
    org_key: Seq<u8>,
) -> Option<Seq<char>> {
    let i = first_with_id(cols, request);
    let j = first_with_name(cols, request);
    let k = first_with_sealed_name(cols, request, org_key);
    if i < cols.len() {
        Some(cols[i].id@)
    } else if j < cols.len() {
        Some(cols[j].id@)
    } else if k < cols.len() {
        Some(cols[k].id@)
    } else {
        None
    }
}

/// The ids that the requests resolve to, in the order of the requests. A
/// request that resolves to nothing is dropped.
pub open spec fn resolve_all_spec(
    requests: Seq<Seq<char>>,
    cols: Seq<Collection>,
    org_key: Seq<u8>,
) -> Seq<Seq<char>>
    decreases requests.len(),
{
    if requests.len() == 0 {
        seq![]
    } else {
        let before = resolve_all_spec(requests.drop_last(), cols, org_key);
        match resolve_one_spec(requests.last(), cols, org_key) {
            Some(id) => before.push(id),
            None => before,
        }
    }
}

/// The index of the first collection with the id `request`.
fn find_by_id(cols: &[Collection], request: &str) -> (i: usize)
    ensures
        i == first_with_id(cols@, request@),
        i <= cols@.len(),
{
    let mut i: usize = 0;
    while i < cols.len() && !str_eq(cols[i].id.as_str(), request)
        invariant
            i <= cols@.len(),
            forall|j: int| 0 <= j < i ==> cols@[j].id@ != request@,
        decreases cols@.len() - i,
    {
        i += 1;
    }
    proof {
        lemma_first_index_at(cols@.len() as int, 0, has_id(cols@, request@), i as int);
    }
    i
}

/// The index of the first collection with the name `request`.
fn find_by_name(cols: &[Collection], request: &str) -> (i: usize)
    ensures
        i == first_with_name(cols@, request@),
        i <= cols@.len(),
{
    let mut i: usize = 0;
    while i < cols.len() && !str_eq(cols[i].name.as_str(), request)
        invariant
            i <= cols@.len(),
            forall|j: int| 0 <= j < i ==> cols@[j].name@ != request@,
        decreases cols@.len() - i,
    {
        i += 1;
    }
    proof {
        lemma_first_index_at(cols@.len() as int, 0, has_name(cols@, request@), i as int);
    }
    i
}

/// Whether the name of the collection decrypts to `request`.
fn name_decrypts_to(c: &Collection, request: &str, org_key: &[u8]) -> (r: bool)
    ensures
        r == sealed_name_is(*c, request@, org_key@),
{
    if !has_type_tag(c.name.as_str(), '2') {
        return false;
    }
    match decrypt_text(c.name.as_str(), org_key) {
        Some(name) => str_eq(name.as_str(), request),
        None => false,
    }
}

/// The index of the first collection whose name decrypts to `request`.
fn find_by_sealed_name(cols: &[Collection], request: &str, org_key: &[u8]) -> (i: usize)
    ensures
        i == first_with_sealed_name(cols@, request@, org_key@),
        i <= cols@.len(),
{
    let mut i: usize = 0;
    while i < cols.len() && !name_decrypts_to(&cols[i], request, org_key)
        invariant
            i <= cols@.len(),
            forall|j: int| 0 <= j < i ==> !sealed_name_is(cols@[j], request@, org_key@),
        decreases cols@.len() - i,
    {
        i += 1;
    }
    proof {
        lemma_first_index_at(
            cols@.len() as int,
            0,
            has_sealed_name(cols@, request@, org_key@),
            i as int,
        );
    }
    i
}

/// The id that one request resolves to.
pub fn resolve_collection_id(request: &str, all_collections: &[Collection], org_key: &[u8]) -> (r:
    Option<String>)
    ensures
        r matches Some(id) ==> resolve_one_spec(request@, all_collections@, org_key@) == Some(id@),
        r is None ==> resolve_one_spec(request@, all_collections@, org_key@) is None,
{
    let i = find_by_id(all_collections, request);
    if i < all_collections.len() {
        return Some(all_collections[i].id.clone());
    }
    let j = find_by_name(all_collections, request);
    if j < all_collections.len() {
        return Some(all_collections[j].id.clone());
    }
    let k = find_by_sealed_name(all_collections, request, org_key);
    if k < all_collections.len() {
        return Some(all_collections[k].id.clone());
    }
    None
}

/// Resolves the requested collections to ids: by id, then by name, then by
/// the name that a cipher string decrypts to. What does not resolve is
/// dropped.
pub fn resolve_collection_ids(
    requests: &[String],
    all_collections: &[Collection],
    org_key: &[u8],
) -> (resolved: Vec<String>)
    ensures
        string_views(resolved@) == resolve_all_spec(
            string_views(requests@),
            all_collections@,
            org_key@,
        ),
{
    let mut resolved: Vec<String> = Vec::new();
    let mut i: usize = 0;
    assert(string_views(requests@).take(0) =~= Seq::<Seq<char>>::empty());
    assert(string_views(resolved@) =~= Seq::<Seq<char>>::empty());
    while i < requests.len()
        invariant
            i <= requests@.len(),
            string_views(resolved@) == resolve_all_spec(
                string_views(requests@).take(i as int),
                all_collections@,
                org_key@,
            ),
        decreases requests@.len() - i,
    {
        let ghost done = string_views(requests@).take(i as int);
        let ghost next = string_views(requests@).take(i + 1);
        let ghost before = resolved@;
        assert(next.drop_last() == done);
        assert(next.last() == requests@[i as int]@);
        match resolve_collection_id(requests[i].as_str(), all_collections, org_key) {
            Some(id) => {
                resolved.push(id);
                assert(string_views(resolved@) =~= string_views(before).push(id@));
            },
            None => {},
        }
        i += 1;
    }
    assert(string_views(requests@).take(requests@.len() as int) == string_views(requests@));
    resolved
}

/// A collection with the requested id wins over every name: the request
/// resolves to that id.
pub proof fn lemma_id_wins(request: Seq<char>, cols: Seq<Collection>, org_key: Seq<u8>, i: int)
    requires
        0 <= i < cols.len(),
        cols[i].id@ == request,
    ensures
        resolve_one_spec(request, cols, org_key) == Some(request),
{
    let p = has_id(cols, request);
    lemma_first_index(cols.len() as int, 0, p);
    assert(p(i));
}

/// Where no collection has the requested id, a collection with the
/// requested name wins over every name that only decrypts to it: the request
/// resolves to the id of the first collection with that name.
pub proof fn lemma_name_wins_over_sealed_name(
    request: Seq<char>,
    cols: Seq<Collection>,
    org_key: Seq<u8>,
    j: int,
)
    requires
        forall|i: int| 0 <= i < cols.len() ==> cols[i].id@ != request,
        0 <= j < cols.len(),
        cols[j].name@ == request,
        forall|i: int| 0 <= i < j ==> cols[i].name@ != request,
    ensures
        resolve_one_spec(request, cols, org_key) == Some(cols[j].id@),
{
    let p = has_id(cols, request);
    let q = has_name(cols, request);
    lemma_first_index(cols.len() as int, 0, p);
    assert(q(j));
    assert forall|i: int| 0 <= i < j implies !#[trigger] q(i) by {}
    lemma_first_index_at(cols.len() as int, 0, q, j);
}

/// Where no collection has the requested id or name, the request resolves
/// to the id of the first collection whose name decrypts to it, and to
/// nothing where there is none.
pub proof fn lemma_sealed_name_last(request: Seq<char>, cols: Seq<Collection>, org_key: Seq<u8>)
    requires
        forall|i: int| 0 <= i < cols.len() ==> cols[i].id@ != request,
        forall|i: int| 0 <= i < cols.len() ==> cols[i].name@ != request,
    ensures
        resolve_one_spec(request, cols, org_key) == if first_with_sealed_name(
            cols,
            request,
            org_key,
        ) < cols.len() {
            Some(cols[first_with_sealed_name(cols, request, org_key)].id@)
        } else {
            None
        },
        resolve_one_spec(request, cols, org_key) is Some <==> exists|i: int|
            0 <= i < cols.len() && sealed_name_is(cols[i], request, org_key),
{
    let p = has_id(cols, request);
    let q = has_name(cols, request);
    let r = has_sealed_name(cols, request, org_key);
    lemma_first_index(cols.len() as int, 0, p);
    lemma_first_index(cols.len() as int, 0, q);
    lemma_first_index(cols.len() as int, 0, r);
    let k = first_with_sealed_name(cols, request, org_key);
    if k < cols.len() {
        assert(r(k));
    } else {
        assert forall|i: int| 0 <= i < cols.len() implies !sealed_name_is(
            cols[i],
            request,
            org_key,
        ) by {
            assert(!r(i));
        }
    }
}

/// Whether `id` is the id of one of the collections.
pub open spec fn is_collection_id(cols: Seq<Collection>, id: Seq<char>) -> bool {
    exists|i: int| 0 <= i < cols.len() && #[trigger] cols[i].id@ == id
}

/// The id that a request resolves to is the id of a collection.
pub proof fn lemma_resolved_id_exists(request: Seq<char>, cols: Seq<Collection>, org_key: Seq<u8>)
    ensures
        resolve_one_spec(request, cols, org_key) matches Some(id) ==> is_collection_id(cols, id),
{
    lemma_first_index(cols.len() as int, 0, has_id(cols, request));
    lemma_first_index(cols.len() as int, 0, has_name(cols, request));
    lemma_first_index(cols.len() as int, 0, has_sealed_name(cols, request, org_key));
    let i = first_with_id(cols, request);
    let j = first_with_name(cols, request);
    let k = first_with_sealed_name(cols, request, org_key);
    if i < cols.len() {
        assert(cols[i].id@ == resolve_one_spec(request, cols, org_key)->0);
    } else if j < cols.len() {
        assert(cols[j].id@ == resolve_one_spec(request, cols, org_key)->0);
    } else if k < cols.len() {
        assert(cols[k].id@ == resolve_one_spec(request, cols, org_key)->0);
    }
}

/// Every request gives at most one id, in the order of the requests: the
/// ids are no more than the requests, and each is the id of a collection.
pub proof fn lemma_one_id_per_request(
    requests: Seq<Seq<char>>,
    cols: Seq<Collection>,
    org_key: Seq<u8>,
)
    ensures
        resolve_all_spec(requests, cols, org_key).len() <= requests.len(),
        forall|n: int|
            0 <= n < resolve_all_spec(requests, cols, org_key).len() ==> is_collection_id(
                cols,
                #[trigger] resolve_all_spec(requests, cols, org_key)[n],
            ),
    decreases requests.len(),
{
    if requests.len() > 0 {
        lemma_one_id_per_request(requests.drop_last(), cols, org_key);
        lemma_resolved_id_exists(requests.last(), cols, org_key);
        let all = resolve_all_spec(requests, cols, org_key);
        let before = resolve_all_spec(requests.drop_last(), cols, org_key);
        assert forall|n: int| 0 <= n < all.len() implies is_collection_id(
            cols,
            #[trigger] all[n],
        ) by {
            if n < before.len() {
                assert(all[n] == before[n]);
            } else {
                assert(all[n] == resolve_one_spec(requests.last(), cols, org_key)->0);
            }
        }
    }
}

/// The length of a random value where the manifest names none.
pub const DEFAULT_RANDOM_LENGTH: usize = 32;

/// The characters of `public_key`, the name under which the public half of
/// an SSH key pair is kept.
pub open spec fn public_key_spec() -> Seq<char> {
    seq!['p', 'u', 'b', 'l', 'i', 'c', '_', 'k', 'e', 'y']
}

/// The name under which the public half of an SSH key pair is kept.
pub fn public_key_name() -> (r: String)
    ensures
        r@ == public_key_spec(),
{
    proof {
        reveal_strlit("public_key");
    }
    let r = "public_key".to_owned();
    assert(r@ =~= public_key_spec());
    r
}

/// The length of the random value of a key.
pub open spec fn random_length(key_def: KeyDefinition) -> usize {
    match key_def.length {
        Some(n) => n,
        None => DEFAULT_RANDOM_LENGTH,
    }
}

/// What came of producing the value of a key: the value, whether it is new,
/// and what else comes with it.
pub type Resolved = Result<(String, bool, Option<Vec<(String, String)>>), Error>;

/// Whether `r` is what producing the value of the key gives, for what the
/// resolvers and generators answered.
///
/// A static key has the value of the manifest. A file key has what the file
/// resolver gives for its source, and a cluster key what the cluster
/// resolver gives for its name; neither is new. A random key keeps the
/// existing value where there is one, and takes a new one of its length from
/// the generator otherwise. An SSH key always takes a new pair from its
/// generator: the private half is the value, the public half comes with it
/// under the name `public_key`.
pub open spec fn resolved_by<F, K, R, S>(
    key_def: KeyDefinition,
    existing_value: Option<String>,
    file_resolver: F,
    k8s_resolver: K,
    random_generator: R,
    ssh_generator: S,
    r: Resolved,
) -> bool where
    F: Fn(&str, &str) -> Result<String, Error>,
    K: Fn(&str) -> Result<String, Error>,
    R: Fn(usize) -> String,
    S: Fn() -> Result<(String, String), Error>,
 {
    match key_def.key_type {
        KeyType::Static => match key_def.value {
            Some(v) => r matches Ok(out) && out.0@ == v@ && !out.1 && out.2 is None,
            None => r matches Err(e) && e == Error::StaticWithoutValue,
        },
        KeyType::File => match key_def.source {
            None => r matches Err(e) && e == Error::FileWithoutSource,
            Some(source) => exists|path: &str, key_path: &str, x: Result<String, Error>|
                {
                    &&& path@ == source.path@
                    &&& key_path@ == source.key_path@
                    &&& #[trigger] file_resolver.ensures((path, key_path), x)
                    &&& match x {
                        Ok(v) => r matches Ok(out) && out.0 == v && !out.1 && out.2 is None,
                        Err(e) => r matches Err(f) && f == e,
                    }
                },
        },
        KeyType::K8s => exists|name: &str, x: Result<String, Error>|
            {
                &&& name@ == key_def.name@
                &&& #[trigger] k8s_resolver.ensures((name,), x)
                &&& match x {
                    Ok(v) => r matches Ok(out) && out.0 == v && !out.1 && out.2 is None,
                    Err(e) => r matches Err(f) && f == e,
                }
            },
        KeyType::Random => match existing_value {
            Some(v) => r matches Ok(out) && out.0 == v && !out.1 && out.2 is None,
            None => r matches Ok(out) && random_generator.ensures((random_length(key_def),), out.0)
                && out.1 && out.2 is None,
        },
        KeyType::Ssh => exists|x: Result<(String, String), Error>|
            {
                &&& ssh_generator.ensures((), x)
                &&& match x {
                    Ok(pair) => {
                        &&& r matches Ok(out)
                        &&& out.0 == pair.0
                        &&& out.1
                        &&& out.2 matches Some(aux)
                        &&& aux@.len() == 1
                        &&& aux@[0].0@ == public_key_spec()
                        &&& aux@[0].1 == pair.1
                    },
                    Err(e) => r matches Err(f) && f == e,
                }
            },
    }
}

/// Produces the value of a key: the value itself, whether it is new, and
/// what else comes with it.
pub fn resolve_value<F, K, R, S>(
    key_def: &KeyDefinition,
    existing_value: Option<String>,
    file_resolver: F,
    k8s_resolver: K,
    random_generator: R,
    ssh_generator: S,
) -> (r: Resolved) where
    F: Fn(&str, &str) -> Result<String, Error>,
    K: Fn(&str) -> Result<String, Error>,
    R: Fn(usize) -> String,
    S: Fn() -> Result<(String, String), Error>,

    requires
        forall|path: &str, key_path: &str| file_resolver.requires((path, key_path)),
        forall|name: &str| k8s_resolver.requires((name,)),
        forall|n: usize| random_generator.requires((n,)),
        ssh_generator.requires(()),
    ensures
        resolved_by(
            *key_def,
            existing_value,
            file_resolver,
            k8s_resolver,
            random_generator,
            ssh_generator,
            r,
        ),
{
    match key_def.key_type {
        KeyType::Static => match &key_def.value {
            Some(v) => Ok((v.clone(), false, None)),
            None => Err(Error::StaticWithoutValue),
        },
        KeyType::File => match &key_def.source {
            Some(source) => {
                match file_resolver(source.path.as_str(), source.key_path.as_str()) {
                    Ok(v) => Ok((v, false, None)),
                    Err(e) => Err(e),
                }
            },
            None => Err(Error::FileWithoutSource),
        },
        KeyType::K8s => match k8s_resolver(key_def.name.as_str()) {
            Ok(v) => Ok((v, false, None)),
            Err(e) => Err(e),
        },
        KeyType::Random => match existing_value {
            Some(v) => Ok((v, false, None)),
            None => {
                let len = match key_def.length {
                    Some(n) => n,
                    None => DEFAULT_RANDOM_LENGTH,
                };
                Ok((random_generator(len), true, None))
            },
        },
        KeyType::Ssh => match ssh_generator() {
            Ok(pair) => {
                let mut aux: Vec<(String, String)> = Vec::new();
                aux.push((public_key_name(), pair.1));
                Ok((pair.0, true, Some(aux)))
            },
            Err(e) => Err(e),
        },
    }
}

} // verus!
