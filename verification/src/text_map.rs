//! A small map from text to text that keeps the order in which its keys
//! came.

use crate::text::str_eq;
use vstd::prelude::*;

verus! {

/// Pairs of key and value. A key that is set again keeps its place.
#[derive(Debug)]
pub struct TextMap {
    pub entries: Vec<(String, String)>,
}

/// Pairs of strings, as characters.
pub open spec fn pair_views(entries: Seq<(String, String)>) -> Seq<(Seq<char>, Seq<char>)> {
    entries.map_values(|e: (String, String)| (e.0@, e.1@))
}

/// The pairs after every pair of `extra` has been set, in order.
pub open spec fn put_all(
    pairs: Seq<(Seq<char>, Seq<char>)>,
    extra: Seq<(Seq<char>, Seq<char>)>,
) -> Seq<(Seq<char>, Seq<char>)>
    decreases extra.len(),
{
    if extra.len() == 0 {
        pairs
    } else {
        put(put_all(pairs, extra.drop_last()), extra.last().0, extra.last().1)
    }
}

/// The value of the first pair from `from` on whose key is `key`.
pub open spec fn lookup_from(
    pairs: Seq<(Seq<char>, Seq<char>)>,
    from: int,
    key: Seq<char>,
) -> Option<Seq<char>>
    decreases pairs.len() - from,
{
    if from < 0 || from >= pairs.len() {
        None
    } else if pairs[from].0 == key {
        Some(pairs[from].1)
    } else {
        lookup_from(pairs, from + 1, key)
    }
}

/// The value of the first pair whose key is `key`.
pub open spec fn lookup(pairs: Seq<(Seq<char>, Seq<char>)>, key: Seq<char>) -> Option<Seq<char>> {
    lookup_from(pairs, 0, key)
}

/// The index of the first pair from `from` on whose key is `key`, or the
/// number of pairs where there is none.
pub open spec fn index_of_key(pairs: Seq<(Seq<char>, Seq<char>)>, from: int, key: Seq<char>) -> int
    decreases pairs.len() - from,
{
    if from < 0 || from >= pairs.len() {
        pairs.len() as int
    } else if pairs[from].0 == key {
        from
    } else {
        index_of_key(pairs, from + 1, key)
    }
}

/// The pairs after `key` has been set to `value`: the first pair with that
/// key takes the value; where there is none, the pair comes last.
pub open spec fn put(pairs: Seq<(Seq<char>, Seq<char>)>, key: Seq<char>, value: Seq<char>) -> Seq<
    (Seq<char>, Seq<char>),
> {
    let i = index_of_key(pairs, 0, key);
    if i < pairs.len() {
        pairs.update(i, (key, value))
    } else {
        pairs.push((key, value))
    }
}

/// `index_of_key` is in range, points at the key unless it is the length,
/// and no pair between `from` and it has the key.
pub proof fn lemma_index_of_key(pairs: Seq<(Seq<char>, Seq<char>)>, from: int, key: Seq<char>)
    requires
        0 <= from <= pairs.len(),
    ensures
        from <= index_of_key(pairs, from, key) <= pairs.len(),
        index_of_key(pairs, from, key) < pairs.len() ==> pairs[index_of_key(pairs, from, key)].0
            == key,
        forall|j: int| from <= j < index_of_key(pairs, from, key) ==> (#[trigger] pairs[j]).0 != key,
    decreases pairs.len() - from,
{
    if from < pairs.len() && pairs[from].0 != key {
        lemma_index_of_key(pairs, from + 1, key);
    }
}

/// Looking a key up gives the value of the pair that `index_of_key` points
/// at.
pub proof fn lemma_lookup_is_at_index(pairs: Seq<(Seq<char>, Seq<char>)>, from: int, key: Seq<char>)
    requires
        0 <= from <= pairs.len(),
    ensures
        lookup_from(pairs, from, key) == if index_of_key(pairs, from, key) < pairs.len() {
            Some(pairs[index_of_key(pairs, from, key)].1)
        } else {
            None
        },
    decreases pairs.len() - from,
{
    if from < pairs.len() && pairs[from].0 != key {
        lemma_lookup_is_at_index(pairs, from + 1, key);
    }
}

/// Two lists of pairs that agree on their keys, and on the values of the key
/// looked up, give the same answer.
pub proof fn lemma_lookup_same(
    a: Seq<(Seq<char>, Seq<char>)>,
    b: Seq<(Seq<char>, Seq<char>)>,
    from: int,
    key: Seq<char>,
)
    requires
        0 <= from <= a.len(),
        a.len() == b.len(),
        forall|j: int| from <= j < a.len() ==> (#[trigger] a[j]).0 == b[j].0,
        forall|j: int| from <= j < a.len() && a[j].0 == key ==> (#[trigger] a[j]).1 == b[j].1,
    ensures
        lookup_from(a, from, key) == lookup_from(b, from, key),
    decreases a.len() - from,
{
    if from < a.len() {
        assert(a[from].0 == b[from].0);
        if a[from].0 != key {
            lemma_lookup_same(a, b, from + 1, key);
        }
    }
}

/// A pair appended is found by its key where no earlier pair has it, and
/// changes nothing for the other keys.
pub proof fn lemma_lookup_push(
    pairs: Seq<(Seq<char>, Seq<char>)>,
    from: int,
    key: Seq<char>,
    value: Seq<char>,
    other: Seq<char>,
)
    requires
        0 <= from <= pairs.len(),
    ensures
        lookup_from(pairs.push((key, value)), from, other) == match lookup_from(pairs, from, other) {
            Some(v) => Some(v),
            None => if other == key {
                Some(value)
            } else {
                None
            },
        },
    decreases pairs.len() - from,
{
    let longer = pairs.push((key, value));
    if from < pairs.len() {
        assert(longer[from] == pairs[from]);
        if pairs[from].0 != other {
            lemma_lookup_push(pairs, from + 1, key, value, other);
        }
    } else {
        assert(longer[from] == (key, value));
        assert(lookup_from(longer, from + 1, other) is None);
    }
}

/// After `key` has been set to `value`, the key has that value and every
/// other key has the value it had.
pub proof fn lemma_put(
    pairs: Seq<(Seq<char>, Seq<char>)>,
    key: Seq<char>,
    value: Seq<char>,
    other: Seq<char>,
)
    ensures
        lookup(put(pairs, key, value), other) == if other == key {
            Some(value)
        } else {
            lookup(pairs, other)
        },
{
    let i = index_of_key(pairs, 0, key);
    lemma_index_of_key(pairs, 0, key);
    lemma_lookup_is_at_index(pairs, 0, key);
    if i < pairs.len() {
        let after = pairs.update(i, (key, value));
        if other == key {
            lemma_index_of_key(after, 0, key);
            lemma_lookup_is_at_index(after, 0, key);
            let j = index_of_key(after, 0, key);
            if j < i {
                assert(after[j] == pairs[j]);
            }
            if j > i {
                assert(after[i].0 == key);
            }
        } else {
            lemma_lookup_same(pairs, after, 0, other);
        }
    } else {
        lemma_lookup_push(pairs, 0, key, value, other);
    }
}

impl View for TextMap {
    type V = Seq<(Seq<char>, Seq<char>)>;

    /// The pairs, as characters, in their order.
    open spec fn view(&self) -> Seq<(Seq<char>, Seq<char>)> {
        pair_views(self.entries@)
    }
}

impl TextMap {
    /// The pairs, as characters.
    pub open spec fn pairs(&self) -> Seq<(Seq<char>, Seq<char>)> {
        pair_views(self.entries@)
    }

    /// The value of `key`.
    pub open spec fn value_of(&self, key: Seq<char>) -> Option<Seq<char>> {
        lookup(self.pairs(), key)
    }

    /// A map without pairs.
    pub fn new() -> (m: Self)
        ensures
            m.pairs() == Seq::<(Seq<char>, Seq<char>)>::empty(),
    {
        let m = TextMap { entries: Vec::new() };
        assert(m.pairs() =~= Seq::<(Seq<char>, Seq<char>)>::empty());
        m
    }

    /// The number of pairs.
    pub fn len(&self) -> (n: usize)
        ensures
            n == self.pairs().len(),
    {
        self.entries.len()
    }

    /// The index of the first pair whose key is `key`.
    fn position(&self, key: &str) -> (i: usize)
        ensures
            i == index_of_key(self.pairs(), 0, key@),
            i <= self.entries@.len(),
    {
        let mut i: usize = 0;
        while i < self.entries.len()
            invariant
                i <= self.entries@.len(),
                index_of_key(self.pairs(), 0, key@) == index_of_key(self.pairs(), i as int, key@),
            decreases self.entries@.len() - i,
        {
            if str_eq(self.entries[i].0.as_str(), key) {
                return i;
            }
            i += 1;
        }
        i
    }

    /// The value of `key`, where the map holds the key.
    pub fn get(&self, key: &str) -> (r: Option<&String>)
        ensures
            r matches Some(v) ==> self.value_of(key@) == Some(v@),
            r is None ==> self.value_of(key@) is None,
    {
        let i = self.position(key);
        proof {
            lemma_lookup_is_at_index(self.pairs(), 0, key@);
        }
        if i < self.entries.len() {
            Some(&self.entries[i].1)
        } else {
            None
        }
    }

    /// Sets every pair of `extra`, in order.
    pub fn extend(&mut self, extra: &Vec<(String, String)>)
        ensures
            final(self).pairs() == put_all(old(self).pairs(), pair_views(extra@)),
    {
        let mut i: usize = 0;
        assert(pair_views(extra@).take(0) =~= Seq::<(Seq<char>, Seq<char>)>::empty());
        while i < extra.len()
            invariant
                i <= extra@.len(),
                self.pairs() == put_all(old(self).pairs(), pair_views(extra@).take(i as int)),
            decreases extra@.len() - i,
        {
            let ghost next = pair_views(extra@).take(i + 1);
            assert(next.drop_last() == pair_views(extra@).take(i as int));
            assert(next.last() == (extra@[i as int].0@, extra@[i as int].1@));
            self.insert(extra[i].0.clone(), extra[i].1.clone());
            i += 1;
        }
        assert(pair_views(extra@).take(extra@.len() as int) == pair_views(extra@));
    }

    /// Sets `key` to `value`.
    pub fn insert(&mut self, key: String, value: String)
        ensures
            final(self).pairs() == put(old(self).pairs(), key@, value@),
    {
        let i = self.position(key.as_str());
        let ghost before = self.pairs();
        if i < self.entries.len() {
            self.entries.set(i, (key, value));
            assert(self.pairs() =~= before.update(i as int, (key@, value@)));
        } else {
            self.entries.push((key, value));
            assert(self.pairs() =~= before.push((key@, value@)));
        }
    }
}

} // verus!
