//! A small map from texts to values.

use vstd::prelude::*;
use crate::text::chars::{has_string, str_eq, views};

verus! {

/// A map keyed by text.
#[derive(Debug)]
#[verifier::reject_recursive_types(V)]
pub struct TextMap<V> {
    entries: Vec<(String, V)>,
}

/// The value of the first entry with this key.
pub open spec fn lookup<V>(entries: Seq<(String, V)>, key: Seq<char>) -> Option<V>
    decreases entries.len(),
{
    if entries.len() == 0 {
        None
    } else {
        match lookup(entries.drop_last(), key) {
            Some(value) => Some(value),
            None => if entries.last().0@ == key {
                Some(entries.last().1)
            } else {
                None
            },
        }
    }
}

impl<V> View for TextMap<V> {
    type V = Map<Seq<char>, V>;

    closed spec fn view(&self) -> Map<Seq<char>, V> {
        Map::new(|key: Seq<char>| lookup(self.entries@, key) is Some, |key: Seq<char>| lookup(self.entries@, key)->0)
    }
}

proof fn lemma_lookup_concat<V>(a: Seq<(String, V)>, b: Seq<(String, V)>, key: Seq<char>)
    ensures
        lookup(a + b, key) == match lookup(a, key) {
            Some(value) => Some(value),
            None => lookup(b, key),
        },
    decreases b.len(),
{
    if b.len() == 0 {
        assert(a + b =~= a);
    } else {
        assert((a + b).drop_last() =~= a + b.drop_last());
        lemma_lookup_concat(a, b.drop_last(), key);
    }
}

proof fn lemma_lookup_key<V>(entries: Seq<(String, V)>, key: Seq<char>)
    ensures
        lookup(entries, key) is Some ==> exists|j: int| 0 <= j < entries.len() && (#[trigger] entries[j]).0@ == key,
    decreases entries.len(),
{
    if entries.len() > 0 {
        let init = entries.drop_last();
        lemma_lookup_key(init, key);
        if lookup(init, key) is Some {
            let j = choose|j: int| 0 <= j < init.len() && (#[trigger] init[j]).0@ == key;
            assert(entries[j].0@ == key);
        } else if entries.last().0@ == key {
            assert(entries[entries.len() - 1].0@ == key);
        }
    }
}

/// Taking an entry out changes what is found under its own key only.
proof fn lemma_lookup_remove<V>(entries: Seq<(String, V)>, i: int, key: Seq<char>)
    requires
        0 <= i < entries.len(),
        entries[i].0@ != key,
    ensures
        lookup(entries.remove(i), key) == lookup(entries, key),
{
    let a = entries.take(i);
    let x = seq![entries[i]];
    let b = entries.skip(i + 1);
    assert(entries =~= a + (x + b));
    assert(entries.remove(i) =~= a + b);
    lemma_lookup_concat(a, x + b, key);
    lemma_lookup_concat(x, b, key);
    lemma_lookup_concat(a, b, key);
    assert(lookup(x.drop_last(), key) is None);
    assert(lookup(x, key) is None);
}

impl<V> TextMap<V> {
    /// A map without entries.
    pub fn new() -> (r: Self)
        ensures
            r@ == Map::<Seq<char>, V>::empty(),
    {
        let r: TextMap<V> = TextMap { entries: Vec::new() };
        assert(r@ =~= Map::<Seq<char>, V>::empty());
        r
    }

    /// The value under `key`.
    pub fn get(&self, key: &str) -> (r: Option<&V>)
        ensures
            match r {
                Some(value) => self@.dom().contains(key@) && *value == self@[key@],
                None => !self@.dom().contains(key@),
            },
    {
        let mut i: usize = 0;
        while i < self.entries.len()
            invariant
                i <= self.entries@.len(),
                lookup(self.entries@.take(i as int), key@) is None,
            decreases self.entries@.len() - i,
        {
            let ghost e = self.entries@;
            assert(e.take(i as int + 1).drop_last() =~= e.take(i as int));
            if str_eq(self.entries[i].0.as_str(), key) {
                proof {
                    lemma_lookup_concat(e.take(i as int + 1), e.skip(i as int + 1), key@);
                    assert(e.take(i as int + 1) + e.skip(i as int + 1) =~= e);
                }
                return Some(&self.entries[i].1);
            }
            i += 1;
        }
        assert(self.entries@.take(i as int) =~= self.entries@);
        None
    }

    /// Takes the value under `key` out.
    pub fn remove(&mut self, key: &str)
        ensures
            final(self)@ == old(self)@.remove(key@),
    {
        let mut i: usize = 0;
        while i < self.entries.len()
            invariant
                i <= self.entries@.len(),
                lookup(self.entries@.take(i as int), key@) is None,
                forall|other: Seq<char>|
                    other != key@ ==> #[trigger] lookup(self.entries@, other) == lookup(old(self).entries@, other),
            decreases self.entries@.len() - i,
        {
            let ghost e = self.entries@;
            if str_eq(self.entries[i].0.as_str(), key) {
                let _taken: (String, V) = self.entries.remove(i);
                assert(self.entries@ =~= e.remove(i as int));
                assert(self.entries@.take(i as int) =~= e.take(i as int));
                assert forall|other: Seq<char>| other != key@ implies #[trigger] lookup(self.entries@, other)
                    == lookup(old(self).entries@, other) by {
                    lemma_lookup_remove(e, i as int, other);
                    assert(lookup(e, other) == lookup(old(self).entries@, other));
                }
            } else {
                assert(e.take(i as int + 1).drop_last() =~= e.take(i as int));
                i += 1;
            }
        }
        assert(self.entries@.take(i as int) =~= self.entries@);
        assert(self@ =~= old(self)@.remove(key@));
    }

    /// Puts `value` under `key`, in place of what was there.
    pub fn insert(&mut self, key: String, value: V)
        ensures
            final(self)@ == old(self)@.insert(key@, value),
    {
        self.remove(key.as_str());
        let ghost cleared = *self;
        let ghost word = key@;
        self.entries.push((key, value));
        let ghost added = self.entries@;
        assert(added.drop_last() =~= cleared.entries@);
        assert(!cleared@.dom().contains(word));
        assert(lookup(cleared.entries@, word) is None);
        assert forall|other: Seq<char>| other != word implies #[trigger] lookup(added, other) == lookup(
            cleared.entries@,
            other,
        ) by {}
        assert(self@ =~= cleared@.insert(word, value));
        assert(cleared@.insert(word, value) =~= old(self)@.insert(word, value));
    }

    /// Takes every value out.
    pub fn clear(&mut self)
        ensures
            final(self)@ == Map::<Seq<char>, V>::empty(),
    {
        self.entries.clear();
        assert(self@ =~= Map::<Seq<char>, V>::empty());
    }

    /// Keeps only the values under one of `keys`.
    pub fn retain(&mut self, keys: &Vec<String>)
        ensures
            final(self)@ == old(self)@.restrict(Set::new(|key: Seq<char>| views(keys@).contains(key))),
    {
        let mut i: usize = 0;
        while i < self.entries.len()
            invariant
                i <= self.entries@.len(),
                forall|j: int| 0 <= j < i ==> views(keys@).contains((#[trigger] self.entries@[j]).0@),
                forall|other: Seq<char>|
                    views(keys@).contains(other) ==> #[trigger] lookup(self.entries@, other) == lookup(
                        old(self).entries@,
                        other,
                    ),
            decreases self.entries@.len() - i,
        {
            let ghost e = self.entries@;
            if has_string(keys, self.entries[i].0.as_str()) {
                i += 1;
            } else {
                let _taken: (String, V) = self.entries.remove(i);
                assert(self.entries@ =~= e.remove(i as int));
                assert forall|other: Seq<char>| views(keys@).contains(other) implies #[trigger] lookup(
                    self.entries@,
                    other,
                ) == lookup(old(self).entries@, other) by {
                    lemma_lookup_remove(e, i as int, other);
                    assert(lookup(e, other) == lookup(old(self).entries@, other));
                }
            }
        }
        let ghost kept = Set::new(|key: Seq<char>| views(keys@).contains(key));
        assert forall|other: Seq<char>| !views(keys@).contains(other) implies #[trigger] lookup(
            self.entries@,
            other,
        ) is None by {
            lemma_lookup_key(self.entries@, other);
        }
        assert(self@ =~= old(self)@.restrict(kept));
    }
}

} // verus!
