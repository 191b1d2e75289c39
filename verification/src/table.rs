//! A small table from text to text that keeps its entries in the order in
//! which their keys first arrived, and holds no key twice.
use vstd::prelude::*;
use vstd::string::*;

verus! {

/// One entry of a table, as mathematics sees it: a key and its value.
pub type Pair = (Seq<char>, Seq<char>);

/// No key occurs at two places.
pub open spec fn distinct_keys(pairs: Seq<Pair>) -> bool {
    forall|i: int, j: int|
        0 <= i < pairs.len() && 0 <= j < pairs.len() && i != j ==> (#[trigger] pairs[i]).0 != (
        #[trigger] pairs[j]).0
}

/// `at` is a place where `key` stands.
pub open spec fn key_at(pairs: Seq<Pair>, key: Seq<char>, at: int) -> bool {
    0 <= at < pairs.len() && pairs[at].0 == key
}

/// Some entry has this key.
pub open spec fn has_key(pairs: Seq<Pair>, key: Seq<char>) -> bool {
    exists|at: int| key_at(pairs, key, at)
}

/// The value stored under a key, if any entry has it.
pub open spec fn value_of(pairs: Seq<Pair>, key: Seq<char>) -> Option<Seq<char>> {
    if has_key(pairs, key) {
        Some(pairs[choose|at: int| key_at(pairs, key, at)].1)
    } else {
        None
    }
}

/// The entries after `key` was set to `value`: an entry with this key is
/// overwritten in place, a new key goes to the end.
pub open spec fn put(pairs: Seq<Pair>, key: Seq<char>, value: Seq<char>) -> Seq<Pair> {
    if has_key(pairs, key) {
        pairs.update(choose|at: int| key_at(pairs, key, at), (key, value))
    } else {
        pairs.push((key, value))
    }
}

/// The entries after each of `items` was put in turn.
pub open spec fn put_all(pairs: Seq<Pair>, items: Seq<Pair>) -> Seq<Pair>
    decreases items.len(),
{
    if items.len() == 0 {
        pairs
    } else {
        put(put_all(pairs, items.drop_last()), items.last().0, items.last().1)
    }
}

/// Where keys are distinct, the place of a key determines its value.
pub proof fn lemma_value_at(pairs: Seq<Pair>, at: int)
    requires
        distinct_keys(pairs),
        0 <= at < pairs.len(),
    ensures
        value_of(pairs, pairs[at].0) == Some(pairs[at].1),
{
    assert(key_at(pairs, pairs[at].0, at));
    let pick = choose|k: int| key_at(pairs, pairs[at].0, k);
    assert(pick == at);
}

/// Putting keeps the keys distinct, stores the value, and leaves every
/// other key as it was.
pub proof fn lemma_put(pairs: Seq<Pair>, key: Seq<char>, value: Seq<char>)
    requires
        distinct_keys(pairs),
    ensures
        distinct_keys(put(pairs, key, value)),
        value_of(put(pairs, key, value), key) == Some(value),
        forall|other: Seq<char>|
            other != key ==> #[trigger] value_of(put(pairs, key, value), other) == value_of(
                pairs,
                other,
            ),
        put(pairs, key, value).len() == pairs.len() + (if has_key(pairs, key) {
            0int
        } else {
            1int
        }),
{
    let next = put(pairs, key, value);
    let at = if has_key(pairs, key) {
        choose|at: int| key_at(pairs, key, at)
    } else {
        pairs.len() as int
    };
    assert(next[at] == (key, value));
    assert forall|i: int| 0 <= i < next.len() && i != at implies next[i] == pairs[i] by {}
    assert forall|i: int| 0 <= i < pairs.len() && i != at implies pairs[i].0 != key by {
        if has_key(pairs, key) {
            assert(pairs[at].0 == key);
        } else {
            assert(!key_at(pairs, key, i));
        }
    }
    assert(distinct_keys(next)) by {
        assert forall|i: int, j: int|
            0 <= i < next.len() && 0 <= j < next.len() && i != j implies (#[trigger] next[i]).0
            != (#[trigger] next[j]).0 by {
            if i == at {
                assert(next[j] == pairs[j]);
            } else if j == at {
                assert(next[i] == pairs[i]);
            } else {
                assert(next[i] == pairs[i] && next[j] == pairs[j]);
            }
        }
    }
    lemma_value_at(next, at);
    assert forall|other: Seq<char>| other != key implies #[trigger] value_of(next, other)
        == value_of(pairs, other) by {
        if has_key(pairs, other) {
            let k = choose|k: int| key_at(pairs, other, k);
            assert(k != at);
            assert(next[k] == pairs[k]);
            assert(key_at(next, other, k));
            lemma_value_at(next, k);
            lemma_value_at(pairs, k);
        } else if has_key(next, other) {
            let k = choose|k: int| key_at(next, other, k);
            assert(k != at);
            assert(key_at(pairs, other, k));
        }
    }
}

/// An entry of a table.
pub struct Entry {
    pub key: String,
    pub value: String,
}

impl Entry {
    /// The entry as a pair of texts.
    pub open spec fn pair(&self) -> Pair {
        (self.key@, self.value@)
    }
}

/// The pairs of a list of entries.
pub open spec fn pairs_of(entries: Seq<Entry>) -> Seq<Pair> {
    Seq::new(entries.len(), |i: int| entries[i].pair())
}

/// A table from text to text.
pub struct Table {
    entries: Vec<Entry>,
}

impl Table {
    #[verifier::type_invariant]
    spec fn inv(&self) -> bool {
        distinct_keys(pairs_of(self.entries@))
    }

    /// The entries, in order.
    pub closed spec fn pairs(&self) -> Seq<Pair> {
        pairs_of(self.entries@)
    }

    /// The value under a key.
    pub open spec fn spec_get(&self, key: Seq<char>) -> Option<Seq<char>> {
        value_of(self.pairs(), key)
    }

    /// An empty table.
    pub fn new() -> (r: Table)
        ensures
            r.pairs() == Seq::<Pair>::empty(),
    {
        let r = Table { entries: Vec::new() };
        assert(pairs_of(r.entries@) =~= Seq::<Pair>::empty());
        r
    }

    /// The number of entries. No two of them share a key.
    pub fn len(&self) -> (r: usize)
        ensures
            r == self.pairs().len(),
            distinct_keys(self.pairs()),
    {
        proof {
            use_type_invariant(self);
        }
        self.entries.len()
    }

    /// The key at a place.
    pub fn key(&self, at: usize) -> (r: &String)
        requires
            at < self.pairs().len(),
        ensures
            r@ == self.pairs()[at as int].0,
    {
        &self.entries[at].key
    }

    /// The value at a place.
    pub fn value(&self, at: usize) -> (r: &String)
        requires
            at < self.pairs().len(),
        ensures
            r@ == self.pairs()[at as int].1,
    {
        &self.entries[at].value
    }

    /// The place of a key.
    pub fn find(&self, key: &String) -> (r: Option<usize>)
        ensures
            match r {
                Some(at) => key_at(self.pairs(), key@, at as int),
                None => !has_key(self.pairs(), key@),
            },
    {
        let mut i: usize = 0;
        while i < self.entries.len()
            invariant
                i <= self.entries.len(),
                forall|j: int| 0 <= j < i ==> !key_at(self.pairs(), key@, j),
            decreases self.entries.len() - i,
        {
            if self.entries[i].key == *key {
                return Some(i);
            }
            i = i + 1;
        }
        None
    }

    /// The value under a key.
    pub fn get(&self, key: &String) -> (r: Option<&String>)
        ensures
            match self.spec_get(key@) {
                Some(value) => r matches Some(found) && found@ == value,
                None => r is None,
            },
    {
        match self.find(key) {
            Some(at) => {
                proof {
                    use_type_invariant(self);
                    lemma_value_at(self.pairs(), at as int);
                }
                Some(&self.entries[at].value)
            },
            None => None,
        }
    }

    /// Sets the value under a key.
    pub fn insert(&mut self, key: String, value: String)
        ensures
            final(self).pairs() == put(old(self).pairs(), key@, value@),
    {
        proof {
            use_type_invariant(&*self);
            lemma_put(self.pairs(), key@, value@);
        }
        let ghost before = self.pairs();
        let found = self.find(&key);
        let mut taken = Table::new();
        std::mem::swap(self, &mut taken);
        let mut entries = taken.entries;
        assert(pairs_of(entries@) == before);
        match found {
            Some(at) => {
                proof {
                    let pick = choose|k: int| key_at(before, key@, k);
                    assert(key_at(before, key@, pick));
                    assert(pick == at);
                }
                entries.set(at, Entry { key, value });
            },
            None => {
                entries.push(Entry { key, value });
            },
        }
        assert(pairs_of(entries@) =~= put(before, key@, value@));
        *self = Table { entries };
    }
}

} // verus!
