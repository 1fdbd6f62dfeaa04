//! Values filed under texts, in the order in which they came.
use vstd::prelude::*;
use crate::text::same_text;

verus! {

/// A map from texts to values that remembers the order of its entries.
#[derive(Debug)]
pub struct TextMap<T> {
    entries: Vec<(String, T)>,
}

pub type Entries<T> = Seq<(Seq<char>, T)>;

impl<T> View for TextMap<T> {
    type V = Seq<(Seq<char>, T)>;

    closed spec fn view(&self) -> Seq<(Seq<char>, T)> {
        self.entries@.map_values(|e: (String, T)| (e.0@, e.1))
    }
}

/// The first entry under `key`, from entry `i` on.
pub open spec fn place_of<T>(entries: Entries<T>, key: Seq<char>, i: nat) -> Option<nat>
    decreases entries.len() - i,
{
    if i >= entries.len() {
        None
    } else if entries[i as int].0 == key {
        Some(i)
    } else {
        place_of(entries, key, i + 1)
    }
}

/// The value under `key`.
pub open spec fn found<T>(entries: Entries<T>, key: Seq<char>) -> Option<T> {
    match place_of(entries, key, 0) {
        Some(i) => Some(entries[i as int].1),
        None => None,
    }
}

/// The entries once `value` is filed under `key`.
pub open spec fn filed<T>(entries: Entries<T>, key: Seq<char>, value: T) -> Entries<T> {
    match place_of(entries, key, 0) {
        Some(i) => entries.update(i as int, (key, value)),
        None => entries.push((key, value)),
    }
}

/// The entries without the one under `key`.
pub open spec fn unfiled<T>(entries: Entries<T>, key: Seq<char>) -> Entries<T> {
    match place_of(entries, key, 0) {
        Some(i) => entries.remove(i as int),
        None => entries,
    }
}

/// No two entries share a key.
pub open spec fn distinct_keys<T>(entries: Entries<T>) -> bool {
    forall|i: int, j: int|
        0 <= i < j < entries.len() ==> (#[trigger] entries[i]).0 != (#[trigger] entries[j]).0
}

impl<T> TextMap<T> {
    pub fn new() -> (r: TextMap<T>)
        ensures
            r@ == Seq::<(Seq<char>, T)>::empty(),
    {
        let r: TextMap<T> = TextMap { entries: Vec::new() };
        assert(r@ =~= Seq::<(Seq<char>, T)>::empty());
        r
    }

    fn position(&self, key: &str) -> (r: Option<usize>)
        ensures
            match r {
                Some(i) => place_of(self@, key@, 0) == Some(i as nat) && i < self.entries@.len(),
                None => place_of(self@, key@, 0) is None,
            },
    {
        let mut i: usize = 0;
        while i < self.entries.len()
            invariant
                i <= self.entries@.len(),
                self@.len() == self.entries@.len(),
                place_of(self@, key@, 0) == place_of(self@, key@, i as nat),
            decreases self.entries@.len() - i,
        {
            assert(self@[i as int].0 == self.entries@[i as int].0@);
            if same_text(self.entries[i].0.as_str(), key) {
                return Some(i);
            }
            i += 1;
        }
        None
    }

    /// The value under `key`.
    pub fn get(&self, key: &str) -> (r: Option<&T>)
        ensures
            match r {
                Some(value) => found(self@, key@) == Some(*value),
                None => found(self@, key@) is None,
            },
    {
        match self.position(key) {
            Some(i) => {
                assert(self@[i as int].1 == self.entries@[i as int].1);
                Some(&self.entries[i].1)
            },
            None => None,
        }
    }

    pub fn contains_key(&self, key: &str) -> (r: bool)
        ensures
            r == (found(self@, key@) is Some),
    {
        match self.position(key) {
            Some(_) => true,
            None => false,
        }
    }

    /// Files `value` under `key`, in the place of what was there.
    pub fn insert(&mut self, key: String, value: T)
        ensures
            final(self)@ == filed(old(self)@, key@, value),
    {
        let ghost before = self@;
        let ghost key_view = key@;
        match self.position(key.as_str()) {
            Some(i) => {
                self.entries.set(i, (key, value));
                assert(self@ =~= before.update(i as int, (key_view, value)));
            },
            None => {
                self.entries.push((key, value));
                assert(self@ =~= before.push((key_view, value)));
            },
        }
    }

    /// Takes out the value under `key`.
    pub fn remove(&mut self, key: &str) -> (r: Option<T>)
        ensures
            final(self)@ == unfiled(old(self)@, key@),
            r == found(old(self)@, key@),
    {
        let ghost before = self@;
        match self.position(key) {
            Some(i) => {
                assert(before[i as int].1 == self.entries@[i as int].1);
                let (_key, value) = self.entries.remove(i);
                assert(self@ =~= before.remove(i as int));
                Some(value)
            },
            None => None,
        }
    }

    pub fn clear(&mut self)
        ensures
            final(self)@ == Seq::<(Seq<char>, T)>::empty(),
    {
        self.entries.clear();
        assert(self@ =~= Seq::<(Seq<char>, T)>::empty());
    }

    pub fn len(&self) -> (r: usize)
        ensures
            r == self@.len(),
    {
        self.entries.len()
    }

    pub fn is_empty(&self) -> (r: bool)
        ensures
            r == (self@.len() == 0),
    {
        self.entries.len() == 0
    }

    /// The value of entry `i`.
    pub fn value_at(&self, i: usize) -> (r: &T)
        requires
            i < self@.len(),
        ensures
            *r == self@[i as int].1,
    {
        &self.entries[i].1
    }
}

// ---------------------------------------------------------------------------
// Laws
// ---------------------------------------------------------------------------

pub proof fn lemma_place<T>(entries: Entries<T>, key: Seq<char>, i: nat)
    ensures
        match place_of(entries, key, i) {
            Some(k) => i <= k < entries.len() && entries[k as int].0 == key && forall|j: int|
                i <= j < k ==> (#[trigger] entries[j]).0 != key,
            None => forall|j: int| i <= j < entries.len() ==> (#[trigger] entries[j]).0 != key,
        },
    decreases entries.len() - i,
{
    if i < entries.len() && entries[i as int].0 != key {
        lemma_place(entries, key, i + 1);
    }
}

/// Filing keeps the keys apart; what was filed is found, and every other key
/// leads where it led before.
pub proof fn filed_values_are_found<T>(
    entries: Entries<T>,
    key: Seq<char>,
    value: T,
    other: Seq<char>,
)
    requires
        distinct_keys(entries),
    ensures
        distinct_keys(filed(entries, key, value)),
        found(filed(entries, key, value), key) == Some(value),
        other != key ==> found(filed(entries, key, value), other) == found(entries, other),
{
    let after = filed(entries, key, value);
    lemma_place(entries, key, 0);
    lemma_place(after, key, 0);
    lemma_place(entries, other, 0);
    lemma_place(after, other, 0);
    match place_of(entries, key, 0) {
        Some(i) => {
            assert(after[i as int].0 == key);
        },
        None => {
            assert(after[entries.len() as int].0 == key);
        },
    }
    if other != key {
        match place_of(entries, other, 0) {
            Some(k) => {
                assert(after[k as int] == entries[k as int]);
            },
            None => {},
        }
    }
}

/// Taking out a key leaves no value under it and touches no other key.
pub proof fn unfiled_values_are_gone<T>(entries: Entries<T>, key: Seq<char>, other: Seq<char>)
    requires
        distinct_keys(entries),
    ensures
        distinct_keys(unfiled(entries, key)),
        found(unfiled(entries, key), key) is None,
        other != key ==> found(unfiled(entries, key), other) == found(entries, other),
{
    let after = unfiled(entries, key);
    lemma_place(entries, key, 0);
    lemma_place(after, key, 0);
    lemma_place(entries, other, 0);
    lemma_place(after, other, 0);
    if let Some(i) = place_of(entries, key, 0) {
        assert forall|a: int, b: int| 0 <= a < b < after.len() implies (#[trigger] after[a]).0 != (
        #[trigger] after[b]).0 by {
            let x = if a < i {
                a
            } else {
                a + 1
            };
            let y = if b < i {
                b
            } else {
                b + 1
            };
            assert(after[a] == entries[x]);
            assert(after[b] == entries[y]);
        }
        assert forall|a: int| 0 <= a < after.len() implies (#[trigger] after[a]).0 != key by {
            let x = if a < i {
                a
            } else {
                a + 1
            };
            assert(after[a] == entries[x]);
        }
        if other != key {
            match place_of(entries, other, 0) {
                Some(k) => {
                    let at = if k < i {
                        k as int
                    } else {
                        k - 1
                    };
                    assert(after[at] == entries[k as int]);
                    assert(after[at].0 == other);
                },
                None => {
                    assert forall|a: int| 0 <= a < after.len() implies (#[trigger] after[a]).0
                        != other by {
                        let x = if a < i {
                            a
                        } else {
                            a + 1
                        };
                        assert(after[a] == entries[x]);
                    }
                },
            }
        }
    }
}

/// Filing under a known key keeps its place; a new key goes to the end. Dropping
/// an entry keeps the order of the others.
pub proof fn entries_keep_their_order<T>(entries: Entries<T>, key: Seq<char>, value: T)
    requires
        distinct_keys(entries),
    ensures
        found(entries, key) is None ==> filed(entries, key, value) =~= entries.push((key, value)),
        found(entries, key) is None ==> unfiled(entries, key) =~= entries,
        found(entries, key) is Some ==> filed(entries, key, value).len() == entries.len()
            && unfiled(entries, key).len() == entries.len() - 1,
        forall|i: int|
            0 <= i < entries.len() && (#[trigger] entries[i]).0 != key ==> filed(
                entries,
                key,
                value,
            )[i] == entries[i],
        forall|i: int|
            0 <= i < entries.len() && (#[trigger] entries[i]).0 == key ==> filed(
                entries,
                key,
                value,
            )[i] == (key, value),
{
    lemma_place(entries, key, 0);
}

} // verus!
