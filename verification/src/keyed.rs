//! Maps keyed by text that remember the order in which their keys were first inserted.

use vstd::prelude::*;

verus! {

/// Some pair of `pairs` has the key `key`.
pub open spec fn has_key<V>(pairs: Seq<(Seq<char>, V)>, key: Seq<char>) -> bool {
    exists|i: int| 0 <= i < pairs.len() && (#[trigger] pairs[i]).0 == key
}

/// No two pairs have the same key.
pub open spec fn distinct_keys<V>(pairs: Seq<(Seq<char>, V)>) -> bool {
    forall|i: int, j: int|
        0 <= i < j < pairs.len() ==> (#[trigger] pairs[i]).0 != (#[trigger] pairs[j]).0
}

/// Where the pair with the key `key` stands.
pub open spec fn place_of<V>(pairs: Seq<(Seq<char>, V)>, key: Seq<char>) -> int
    recommends
        has_key(pairs, key),
{
    choose|i: int| 0 <= i < pairs.len() && (#[trigger] pairs[i]).0 == key
}

/// The value that `key` has.
pub open spec fn lookup<V>(pairs: Seq<(Seq<char>, V)>, key: Seq<char>) -> Option<V> {
    if has_key(pairs, key) {
        Some(pairs[place_of(pairs, key)].1)
    } else {
        None
    }
}

/// The pairs after `key` was given `value`: in its old place if it had one, else at the end.
pub open spec fn put<V>(pairs: Seq<(Seq<char>, V)>, key: Seq<char>, value: V) -> Seq<
    (Seq<char>, V),
> {
    if has_key(pairs, key) {
        pairs.update(place_of(pairs, key), (key, value))
    } else {
        pairs.push((key, value))
    }
}

/// The pairs after `key` was removed, the others in the order that they had.
pub open spec fn without<V>(pairs: Seq<(Seq<char>, V)>, key: Seq<char>) -> Seq<(Seq<char>, V)> {
    if has_key(pairs, key) {
        pairs.remove(place_of(pairs, key))
    } else {
        pairs
    }
}

/// The pairs as a map, which forgets their order.
pub open spec fn as_map<V>(pairs: Seq<(Seq<char>, V)>) -> Map<Seq<char>, V> {
    Map::new(|key: Seq<char>| has_key(pairs, key), |key: Seq<char>| lookup(pairs, key)->0)
}

/// A pair's own key leads to its place, where keys are distinct.
pub proof fn lemma_place<V>(pairs: Seq<(Seq<char>, V)>, i: int)
    requires
        distinct_keys(pairs),
        0 <= i < pairs.len(),
    ensures
        has_key(pairs, pairs[i].0),
        place_of(pairs, pairs[i].0) == i,
        lookup(pairs, pairs[i].0) == Some(pairs[i].1),
{
    let j = place_of(pairs, pairs[i].0);
    assert(0 <= j < pairs.len() && pairs[j].0 == pairs[i].0);
}

/// Giving a key a value changes the value of that key and of no other.
pub proof fn lemma_put<V>(pairs: Seq<(Seq<char>, V)>, key: Seq<char>, value: V)
    requires
        distinct_keys(pairs),
    ensures
        distinct_keys(put(pairs, key, value)),
        lookup(put(pairs, key, value), key) == Some(value),
        forall|k: Seq<char>|
            k != key ==> #[trigger] lookup(put(pairs, key, value), k) == lookup(pairs, k),
        forall|k: Seq<char>| #[trigger]
            has_key(put(pairs, key, value), k) <==> k == key || has_key(pairs, k),
        as_map(put(pairs, key, value)) == as_map(pairs).insert(key, value),
{
    let after = put(pairs, key, value);
    let at = if has_key(pairs, key) {
        place_of(pairs, key)
    } else {
        pairs.len() as int
    };
    assert(after[at] == (key, value));
    lemma_place(after, at);
    assert forall|k: Seq<char>| k != key implies #[trigger] lookup(after, k) == lookup(pairs, k)
        && has_key(after, k) == has_key(pairs, k) by {
        if has_key(pairs, k) {
            let i = place_of(pairs, k);
            assert(after[i] == pairs[i]);
            lemma_place(after, i);
        }
        if has_key(after, k) {
            let i = place_of(after, k);
            assert(i != at);
            assert(pairs[i] == after[i]);
            lemma_place(pairs, i);
        }
    }
    assert forall|k: Seq<char>| #[trigger]
        has_key(after, k) <==> k == key || has_key(pairs, k) by {
        assert(k != key ==> lookup(after, k) == lookup(pairs, k));
    }
    assert(as_map(after) =~= as_map(pairs).insert(key, value));
}

/// Removing a key leaves every other key its value.
pub proof fn lemma_without<V>(pairs: Seq<(Seq<char>, V)>, key: Seq<char>)
    requires
        distinct_keys(pairs),
    ensures
        distinct_keys(without(pairs, key)),
        !has_key(without(pairs, key), key),
        forall|k: Seq<char>|
            k != key ==> #[trigger] lookup(without(pairs, key), k) == lookup(pairs, k),
        forall|k: Seq<char>| #[trigger]
            has_key(without(pairs, key), k) <==> k != key && has_key(pairs, k),
        as_map(without(pairs, key)) == as_map(pairs).remove(key),
{
    let after = without(pairs, key);
    if has_key(pairs, key) {
        let at = place_of(pairs, key);
        assert forall|i: int| 0 <= i < after.len() implies #[trigger] after[i] == pairs[if i < at {
            i
        } else {
            i + 1
        }] by {}
        assert forall|i: int, j: int| 0 <= i < j < after.len() implies (#[trigger] after[i]).0 != (
        #[trigger] after[j]).0 by {}
        assert forall|k: Seq<char>| k != key implies #[trigger] lookup(after, k) == lookup(pairs, k)
            && has_key(after, k) == has_key(pairs, k) by {
            if has_key(pairs, k) {
                let i = place_of(pairs, k);
                let j = if i < at {
                    i
                } else {
                    i - 1
                };
                assert(after[j] == pairs[i]);
                lemma_place(after, j);
            }
            if has_key(after, k) {
                let i = place_of(after, k);
                let j = if i < at {
                    i
                } else {
                    i + 1
                };
                assert(after[i] == pairs[j]);
                lemma_place(pairs, j);
            }
        }
        if has_key(after, key) {
            let i = place_of(after, key);
            let j = if i < at {
                i
            } else {
                i + 1
            };
            assert(pairs[j].0 == key && pairs[at].0 == key);
        }
    }
    assert forall|k: Seq<char>| #[trigger]
        has_key(after, k) <==> k != key && has_key(pairs, k) by {
        assert(k != key ==> lookup(after, k) == lookup(pairs, k));
    }
    assert(as_map(after) =~= as_map(pairs).remove(key));
}

/// Removing a key that was just added gives the pairs back.
pub proof fn lemma_without_put<V>(pairs: Seq<(Seq<char>, V)>, key: Seq<char>, value: V)
    requires
        distinct_keys(pairs),
        !has_key(pairs, key),
    ensures
        without(put(pairs, key, value), key) == pairs,
{
    lemma_put(pairs, key, value);
    let after = put(pairs, key, value);
    lemma_place(after, pairs.len() as int);
    assert(without(after, key) =~= pairs);
}

/// A key has the value that some pair gives it, and none if no pair has it.
pub proof fn law_lookup<V>(pairs: Seq<(Seq<char>, V)>, key: Seq<char>, value: V)
    requires
        distinct_keys(pairs),
    ensures
        lookup(pairs, key) == Some(value) <==> pairs.contains((key, value)),
        lookup(pairs, key) is Some <==> has_key(pairs, key),
        as_map(pairs).contains_key(key) <==> has_key(pairs, key),
        has_key(pairs, key) ==> lookup(pairs, key) == Some(as_map(pairs)[key]),
{
    if pairs.contains((key, value)) {
        let i = choose|i: int| 0 <= i < pairs.len() && pairs[i] == (key, value);
        lemma_place(pairs, i);
    }
    if lookup(pairs, key) == Some(value) {
        assert(pairs[place_of(pairs, key)] == (key, value));
    }
}

/// Giving a key a value leaves every key in its place, and puts a new one at the end.
pub proof fn law_put_keeps_places<V>(
    pairs: Seq<(Seq<char>, V)>,
    key: Seq<char>,
    value: V,
    i: int,
)
    ensures
        0 <= i < pairs.len() ==> put(pairs, key, value)[i].0 == pairs[i].0,
        has_key(pairs, key) ==> put(pairs, key, value).len() == pairs.len(),
        !has_key(pairs, key) ==> put(pairs, key, value).len() == pairs.len() + 1 && put(
            pairs,
            key,
            value,
        ).last() == (key, value),
{
}

/// Keeping what is to be kept changes nothing where all is to be kept.
pub proof fn lemma_filter_all<A>(s: Seq<A>, keep: spec_fn(A) -> bool)
    requires
        forall|i: int| 0 <= i < s.len() ==> keep(#[trigger] s[i]),
    ensures
        s.filter(keep) == s,
    decreases s.len(),
{
    reveal(Seq::filter);
    if s.len() > 0 {
        let shorter = s.drop_last();
        assert forall|i: int| 0 <= i < shorter.len() implies keep(#[trigger] shorter[i]) by {
            assert(shorter[i] == s[i]);
        }
        lemma_filter_all(shorter, keep);
        assert(keep(s[s.len() - 1]));
        assert(s =~= shorter.push(s.last()));
    } else {
        assert(s.filter(keep) =~= s);
    }
}

/// Keeping only some of the pairs leaves each of those its key and value.
pub proof fn lemma_filter<V>(pairs: Seq<(Seq<char>, V)>, keep: spec_fn((Seq<char>, V)) -> bool)
    requires
        distinct_keys(pairs),
    ensures
        distinct_keys(pairs.filter(keep)),
        forall|k: Seq<char>| #[trigger]
            lookup(pairs.filter(keep), k) == match lookup(pairs, k) {
                Some(v) => if keep((k, v)) {
                    Some(v)
                } else {
                    None
                },
                None => None,
            },
{
    let kept = pairs.filter(keep);
    lemma_filtered_keys(pairs, keep);
    assert forall|k: Seq<char>| #[trigger] lookup(kept, k) == match lookup(pairs, k) {
        Some(v) => if keep((k, v)) {
            Some(v)
        } else {
            None
        },
        None => None,
    } by {
        if has_key(kept, k) {
            let i = place_of(kept, k);
            assert(0 <= i < kept.len() && kept[i].0 == k);
            pairs.lemma_filter_pred(keep, i);
            assert(kept.contains(kept[i]));
            pairs.lemma_filter_contains_rev(keep, kept[i]);
            let j = choose|j: int| 0 <= j < pairs.len() && pairs[j] == kept[i];
            lemma_place(pairs, j);
            assert(keep((k, kept[i].1)));
        }
        if has_key(pairs, k) {
            let j = place_of(pairs, k);
            assert(0 <= j < pairs.len() && pairs[j].0 == k);
            if keep(pairs[j]) {
                pairs.lemma_filter_contains(keep, j);
                assert(kept.contains(pairs[j]));
                let i = choose|i: int| 0 <= i < kept.len() && kept[i] == pairs[j];
                assert(kept[i].0 == k);
            }
        }
    }
}

proof fn lemma_filtered_keys<V>(
    pairs: Seq<(Seq<char>, V)>,
    keep: spec_fn((Seq<char>, V)) -> bool,
)
    requires
        distinct_keys(pairs),
    ensures
        distinct_keys(pairs.filter(keep)),
    decreases pairs.len(),
{
    reveal(Seq::filter);
    if pairs.len() > 0 {
        let shorter = pairs.drop_last();
        lemma_filtered_keys(shorter, keep);
        let kept = shorter.filter(keep);
        assert forall|i: int| 0 <= i < kept.len() implies (#[trigger] kept[i]).0
            != pairs.last().0 by {
            assert(kept.contains(kept[i]));
            shorter.lemma_filter_contains_rev(keep, kept[i]);
            let j = choose|j: int| 0 <= j < shorter.len() && shorter[j] == kept[i];
            assert(pairs[j] == kept[i]);
            assert(pairs[pairs.len() - 1] == pairs.last());
        }
    }
}

/// Pairs with the same keys in the same places are found in the same places.
pub proof fn lemma_same_keys<V>(before: Seq<(Seq<char>, V)>, after: Seq<(Seq<char>, V)>)
    requires
        distinct_keys(before),
        after.len() == before.len(),
        forall|i: int| 0 <= i < before.len() ==> (#[trigger] after[i]).0 == before[i].0,
    ensures
        distinct_keys(after),
        forall|k: Seq<char>| #[trigger] has_key(after, k) == has_key(before, k),
        forall|k: Seq<char>|
            has_key(before, k) ==> #[trigger] lookup(after, k) == Some(
                after[place_of(before, k)].1,
            ),
{
    assert forall|i: int, j: int| 0 <= i < j < after.len() implies (#[trigger] after[i]).0 != (
    #[trigger] after[j]).0 by {
        assert(before[i].0 != before[j].0);
    }
    assert forall|k: Seq<char>| #[trigger] has_key(after, k) == has_key(before, k) by {
        if has_key(before, k) {
            let i = place_of(before, k);
            assert(before[i].0 == k);
            assert(after[i].0 == k);
        }
        if has_key(after, k) {
            let i = place_of(after, k);
            assert(after[i].0 == k);
            assert(before[i].0 == k);
        }
    }
    assert forall|k: Seq<char>| has_key(before, k) implies #[trigger] lookup(after, k) == Some(
        after[place_of(before, k)].1,
    ) by {
        let i = place_of(before, k);
        assert(before[i].0 == k);
        assert(after[i].0 == k);
        lemma_place(after, i);
    }
}

/// A map keyed by text.
pub struct TextMap<V> {
    entries: Vec<(String, V)>,
}

impl<V: View> View for TextMap<V> {
    type V = Seq<(Seq<char>, V::V)>;

    closed spec fn view(&self) -> Seq<(Seq<char>, V::V)> {
        self.entries@.map_values(|e: (String, V)| (e.0@, e.1@))
    }
}

impl<V: View> TextMap<V> {
    /// A map without keys.
    pub fn new() -> (map: Self)
        ensures
            map@ == Seq::<(Seq<char>, V::V)>::empty(),
    {
        let map = TextMap { entries: Vec::new() };
        assert(map@ =~= Seq::<(Seq<char>, V::V)>::empty());
        map
    }

    /// The number of keys.
    pub fn len(&self) -> (n: usize)
        ensures
            n == self@.len(),
    {
        self.entries.len()
    }

    /// The key in the place `i`.
    pub fn key_at(&self, i: usize) -> (key: &String)
        requires
            i < self@.len(),
        ensures
            key@ == self@[i as int].0,
    {
        &self.entries[i].0
    }

    /// The value in the place `i`.
    pub fn value_at(&self, i: usize) -> (value: &V)
        requires
            i < self@.len(),
        ensures
            value@ == self@[i as int].1,
    {
        &self.entries[i].1
    }

    fn position(&self, key: &String) -> (place: Option<usize>)
        requires
            distinct_keys(self@),
        ensures
            match place {
                Some(i) => i < self@.len() && has_key(self@, key@) && place_of(self@, key@) == i,
                None => !has_key(self@, key@),
            },
    {
        let mut i: usize = 0;
        while i < self.entries.len()
            invariant
                i <= self.entries@.len(),
                distinct_keys(self@),
                forall|j: int| 0 <= j < i ==> (#[trigger] self@[j]).0 != key@,
            decreases self.entries@.len() - i,
        {
            if self.entries[i].0 == *key {
                proof {
                    lemma_place(self@, i as int);
                }
                return Some(i);
            }
            i += 1;
        }
        None
    }

    /// The value of `key`.
    pub fn get(&self, key: &String) -> (value: Option<&V>)
        requires
            distinct_keys(self@),
        ensures
            match value {
                Some(v) => lookup(self@, key@) == Some(v@),
                None => lookup(self@, key@) is None,
            },
    {
        match self.position(key) {
            Some(i) => Some(&self.entries[i].1),
            None => None,
        }
    }

    /// A key has a value.
    pub fn contains_key(&self, key: &String) -> (found: bool)
        requires
            distinct_keys(self@),
        ensures
            found == has_key(self@, key@),
    {
        self.position(key).is_some()
    }

    /// Gives `key` a value, and returns the one that it had.
    pub fn insert(&mut self, key: String, value: V) -> (previous: Option<V>)
        requires
            distinct_keys(old(self)@),
        ensures
            distinct_keys(final(self)@),
            final(self)@ == put(old(self)@, key@, value@),
            match previous {
                Some(v) => lookup(old(self)@, key@) == Some(v@),
                None => lookup(old(self)@, key@) is None,
            },
    {
        proof {
            lemma_put(self@, key@, value@);
        }
        match self.position(&key) {
            Some(i) => {
                let (same_key, previous) = self.entries.remove(i);
                self.entries.insert(i, (same_key, value));
                assert(self@ =~= put(old(self)@, key@, value@));
                Some(previous)
            },
            None => {
                self.entries.push((key, value));
                assert(self@ =~= put(old(self)@, key@, value@));
                None
            },
        }
    }

    /// Removes `key`, and returns the value that it had.
    pub fn remove(&mut self, key: &String) -> (previous: Option<V>)
        requires
            distinct_keys(old(self)@),
        ensures
            distinct_keys(final(self)@),
            final(self)@ == without(old(self)@, key@),
            match previous {
                Some(v) => lookup(old(self)@, key@) == Some(v@),
                None => lookup(old(self)@, key@) is None,
            },
    {
        proof {
            lemma_without(self@, key@);
        }
        match self.position(key) {
            Some(i) => {
                let (_, previous) = self.entries.remove(i);
                assert(self@ =~= without(old(self)@, key@));
                Some(previous)
            },
            None => None,
        }
    }

    /// Removes the key in the place `i`, with its value.
    pub fn remove_at(&mut self, i: usize)
        requires
            i < old(self)@.len(),
        ensures
            final(self)@ == old(self)@.remove(i as int),
    {
        let _ = self.entries.remove(i);
        assert(self@ =~= old(self)@.remove(i as int));
    }

    /// Access to the value in the place `i`.
    pub fn value_mut_at(&mut self, i: usize) -> (value: &mut V)
        requires
            i < old(self)@.len(),
        ensures
            value@ == old(self)@[i as int].1,
            final(self)@ == old(self)@.update(i as int, (old(self)@[i as int].0, final(value)@)),
    {
        &mut self.entries[i].1
    }

    /// Access to the value of a key that the map has.
    pub fn get_mut(&mut self, key: &String) -> (value: &mut V)
        requires
            distinct_keys(old(self)@),
            has_key(old(self)@, key@),
        ensures
            lookup(old(self)@, key@) == Some(value@),
            final(self)@ == put(old(self)@, key@, final(value)@),
    {
        let i: usize = self.position(key).unwrap();
        &mut self.entries[i].1
    }
}

} // verus!
