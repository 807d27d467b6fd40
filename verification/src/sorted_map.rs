//! A map from string keys to values that keeps its entries in key order, so
//! that walking it always visits the keys in the same, sorted order.

use crate::text::{key_lt, lemma_key_lt_strict_total, str_eq, str_lt};
use vstd::prelude::*;
use vstd::std_specs::iter::IteratorSpec;

verus! {

/// The entries of a map as a sequence of key and value, in the order in which
/// they are walked.
pub type Entries<T> = Seq<(Seq<char>, T)>;

/// The keys strictly increase along the sequence; no key occurs twice.
pub open spec fn sorted_keys<T>(s: Entries<T>) -> bool {
    forall|i: int, j: int| 0 <= i < j < s.len() ==> key_lt(#[trigger] s[i].0, #[trigger] s[j].0)
}

/// The index of the first entry with the key `key`, or the length of `s` when
/// no entry has it.
pub open spec fn index_of<T>(s: Entries<T>, key: Seq<char>) -> int
    decreases s.len(),
{
    if s.len() == 0 {
        0
    } else if s[0].0 == key {
        0
    } else {
        1 + index_of(s.drop_first(), key)
    }
}

/// The value stored under `key`, if there is one.
pub open spec fn lookup<T>(s: Entries<T>, key: Seq<char>) -> Option<T> {
    if index_of(s, key) < s.len() {
        Some(s[index_of(s, key)].1)
    } else {
        None
    }
}

/// The number of leading entries whose key comes before `key`.
pub open spec fn lower_bound<T>(s: Entries<T>, key: Seq<char>) -> int
    decreases s.len(),
{
    if s.len() == 0 || !key_lt(s[0].0, key) {
        0
    } else {
        1 + lower_bound(s.drop_first(), key)
    }
}

/// The entries after `value` has been stored under `key`: the value replaces
/// the one that the key had, or the new entry takes its place in key order.
pub open spec fn inserted<T>(s: Entries<T>, key: Seq<char>, value: T) -> Entries<T> {
    let at = lower_bound(s, key);
    if at < s.len() && s[at].0 == key {
        s.update(at, (key, value))
    } else {
        s.insert(at, (key, value))
    }
}

/// The entries `s` after every entry of `more` was stored, one after the
/// other.
pub open spec fn inserted_all<T>(s: Entries<T>, more: Entries<T>) -> Entries<T>
    decreases more.len(),
{
    if more.len() == 0 {
        s
    } else {
        inserted(inserted_all(s, more.drop_last()), more.last().0, more.last().1)
    }
}

/// A list of keys and values as entries.
pub open spec fn as_entries<T>(list: Seq<(String, T)>) -> Entries<T> {
    Seq::new(list.len(), |i: int| (list[i].0@, list[i].1))
}

/// `index_of` gives the first index that holds the key.
pub proof fn lemma_index_of<T>(s: Entries<T>, key: Seq<char>)
    ensures
        0 <= index_of(s, key) <= s.len(),
        index_of(s, key) < s.len() ==> s[index_of(s, key)].0 == key,
        forall|i: int| 0 <= i < index_of(s, key) ==> (#[trigger] s[i]).0 != key,
    decreases s.len(),
{
    if s.len() > 0 && s[0].0 != key {
        let rest = s.drop_first();
        lemma_index_of(rest, key);
        assert forall|i: int| 0 <= i < index_of(s, key) implies (#[trigger] s[i]).0 != key by {
            if i > 0 {
                assert(s[i] == rest[i - 1]);
            }
        }
    }
}

/// `lower_bound` splits the entries into those before `key` and the rest.
pub proof fn lemma_lower_bound<T>(s: Entries<T>, key: Seq<char>)
    ensures
        0 <= lower_bound(s, key) <= s.len(),
        forall|i: int| 0 <= i < lower_bound(s, key) ==> key_lt((#[trigger] s[i]).0, key),
        lower_bound(s, key) < s.len() ==> !key_lt(s[lower_bound(s, key)].0, key),
    decreases s.len(),
{
    if s.len() > 0 && key_lt(s[0].0, key) {
        let rest = s.drop_first();
        lemma_lower_bound(rest, key);
        assert forall|i: int| 0 <= i < lower_bound(s, key) implies key_lt(
            (#[trigger] s[i]).0,
            key,
        ) by {
            if i > 0 {
                assert(s[i] == rest[i - 1]);
            }
        }
    }
}

/// Storing a value in sorted entries leaves them sorted.
pub proof fn lemma_inserted_sorted<T>(s: Entries<T>, key: Seq<char>, value: T)
    requires
        sorted_keys(s),
    ensures
        sorted_keys(inserted(s, key, value)),
{
    let at = lower_bound(s, key);
    let r = inserted(s, key, value);
    lemma_lower_bound(s, key);
    if at < s.len() && s[at].0 == key {
        assert forall|i: int, j: int| 0 <= i < j < r.len() implies key_lt(
            #[trigger] r[i].0,
            #[trigger] r[j].0,
        ) by {
            assert(r[i].0 == s[i].0);
            assert(r[j].0 == s[j].0);
        }
    } else {
        assert forall|i: int, j: int| 0 <= i < j < r.len() implies key_lt(
            #[trigger] r[i].0,
            #[trigger] r[j].0,
        ) by {
            if j < at {
                assert(r[i] == s[i] && r[j] == s[j]);
            } else if j == at {
                assert(r[i] == s[i]);
            } else if i == at {
                assert(r[j] == s[j - 1]);
                lemma_key_lt_strict_total(s[at].0, key, key);
                if j - 1 > at {
                    lemma_key_lt_strict_total(key, s[at].0, s[j - 1].0);
                }
            } else if i < at {
                assert(r[i] == s[i] && r[j] == s[j - 1]);
            } else {
                assert(r[i] == s[i - 1] && r[j] == s[j - 1]);
            }
        }
    }
}

/// A key that comes after every key of sorted entries is stored at their end.
pub proof fn lemma_inserted_last<T>(s: Entries<T>, key: Seq<char>, value: T)
    requires
        forall|i: int| 0 <= i < s.len() ==> key_lt((#[trigger] s[i]).0, key),
    ensures
        inserted(s, key, value) == s.push((key, value)),
    decreases s.len(),
{
    lemma_lower_bound(s, key);
    let at = lower_bound(s, key);
    if at < s.len() {
        assert(key_lt(s[at].0, key));
    }
    assert(s.insert(s.len() as int, (key, value)) =~= s.push((key, value)));
}

/// After a value was stored, every entry is the new one or one that was
/// there before.
pub proof fn lemma_inserted_entries<T>(s: Entries<T>, key: Seq<char>, value: T)
    ensures
        forall|i: int|
            0 <= i < inserted(s, key, value).len() ==> (#[trigger] inserted(s, key, value)[i]) == (
                key,
                value,
            ) || s.contains(inserted(s, key, value)[i]),
{
    let r = inserted(s, key, value);
    let at = lower_bound(s, key);
    lemma_lower_bound(s, key);
    assert forall|i: int| 0 <= i < r.len() implies (#[trigger] r[i]) == (key, value)
        || s.contains(r[i]) by {
        if at < s.len() && s[at].0 == key {
            if i != at {
                assert(r[i] == s[i]);
            }
        } else if i < at {
            assert(r[i] == s[i]);
        } else if i > at {
            assert(r[i] == s[i - 1]);
        }
    }
}

/// The keys of sorted entries differ from each other.
pub proof fn lemma_sorted_keys_differ<T>(s: Entries<T>, i: int, j: int)
    requires
        sorted_keys(s),
        0 <= i < s.len(),
        0 <= j < s.len(),
        i != j,
    ensures
        s[i].0 != s[j].0,
{
    lemma_key_lt_strict_total(s[i].0, s[i].0, s[i].0);
    if i < j {
        assert(key_lt(s[i].0, s[j].0));
    } else {
        assert(key_lt(s[j].0, s[i].0));
    }
}

/// In sorted entries the first index that holds a key is the only one.
pub proof fn lemma_sorted_index_is_unique<T>(s: Entries<T>, at: int)
    requires
        sorted_keys(s),
        0 <= at < s.len(),
    ensures
        index_of(s, s[at].0) == at,
{
    lemma_index_of(s, s[at].0);
    let found = index_of(s, s[at].0);
    if found != at {
        assert(found < s.len()) by {
            if found >= s.len() {
                assert(s[at].0 != s[at].0);
            }
        }
        lemma_sorted_keys_differ(s, found, at);
    }
}

/// What was stored under a key is what is found under it.
pub proof fn lemma_lookup_inserted<T>(s: Entries<T>, key: Seq<char>, value: T)
    requires
        sorted_keys(s),
    ensures
        lookup(inserted(s, key, value), key) == Some(value),
{
    let r = inserted(s, key, value);
    let at = lower_bound(s, key);
    lemma_lower_bound(s, key);
    lemma_inserted_sorted(s, key, value);
    assert(r[at] == (key, value));
    lemma_sorted_index_is_unique(r, at);
}

/// Storing under one key leaves what is found under every other key.
pub proof fn lemma_lookup_other<T>(s: Entries<T>, key: Seq<char>, value: T, other: Seq<char>)
    requires
        sorted_keys(s),
        other != key,
    ensures
        lookup(inserted(s, key, value), other) == lookup(s, other),
{
    let r = inserted(s, key, value);
    let at = lower_bound(s, key);
    lemma_lower_bound(s, key);
    lemma_inserted_sorted(s, key, value);
    lemma_index_of(s, other);
    lemma_index_of(r, other);
    let before = index_of(s, other);
    let after = index_of(r, other);
    let replaced = at < s.len() && s[at].0 == key;
    if before < s.len() {
        let moved = if replaced || before < at {
            before
        } else {
            before + 1
        };
        assert(r[moved] == s[before]);
        lemma_sorted_index_is_unique(r, moved);
    } else if after < r.len() {
        if replaced {
            assert(r[after] == s[after]);
        } else if after < at {
            assert(r[after] == s[after]);
        } else {
            assert(r[after] == s[after - 1]);
        }
        assert(false);
    }
}

/// Where a key is found and where it belongs depends on the keys alone, not
/// on the values stored under them.
pub proof fn lemma_same_keys<A, B>(a: Entries<A>, b: Entries<B>, key: Seq<char>)
    requires
        a.len() == b.len(),
        forall|i: int| 0 <= i < a.len() ==> (#[trigger] a[i]).0 == b[i].0,
    ensures
        index_of(a, key) == index_of(b, key),
        lower_bound(a, key) == lower_bound(b, key),
    decreases a.len(),
{
    if a.len() > 0 {
        assert(a[0].0 == b[0].0);
        assert forall|i: int| 0 <= i < a.drop_first().len() implies (#[trigger] a.drop_first()[i]).0
            == b.drop_first()[i].0 by {
            assert(a[i + 1].0 == b[i + 1].0);
        }
        lemma_same_keys(a.drop_first(), b.drop_first(), key);
    }
}

/// The position of the first entry of `entries` with the key `key`.
pub fn position_in<T>(entries: &Vec<(String, T)>, key: &str) -> (at: Option<usize>)
    ensures
        match at {
            Some(i) => i < entries@.len() && i == index_of(as_entries(entries@), key@),
            None => index_of(as_entries(entries@), key@) == entries@.len(),
        },
{
    let ghost all = as_entries(entries@);
    let mut i: usize = 0;
    proof {
        assert(all.skip(0) =~= all);
    }
    while i < entries.len()
        invariant
            i <= entries@.len(),
            all == as_entries(entries@),
            index_of(all, key@) == i + index_of(all.skip(i as int), key@),
        decreases entries@.len() - i,
    {
        proof {
            assert(all.skip(i as int)[0] == all[i as int]);
            assert(all.skip(i as int).drop_first() =~= all.skip(i + 1));
        }
        if str_eq(entries[i].0.as_str(), key) {
            return Some(i);
        }
        i += 1;
    }
    None
}

/// Stores `value` under `key` in `entries`: in place of the value of the
/// entry where `key` belongs, if that entry has the key, and as a new entry
/// at that place otherwise.
pub fn insert_into<T>(entries: &mut Vec<(String, T)>, key: String, value: T)
    ensures
        as_entries(final(entries)@) == inserted(as_entries(old(entries)@), key@, value),
{
    let ghost all = as_entries(entries@);
    proof {
        assert(all.skip(0) =~= all);
    }
    let mut i: usize = 0;
    while i < entries.len() && str_lt(entries[i].0.as_str(), key.as_str())
        invariant
            i <= entries@.len(),
            all == as_entries(entries@),
            entries@ == old(entries)@,
            lower_bound(all, key@) == i + lower_bound(all.skip(i as int), key@),
        decreases entries@.len() - i,
    {
        proof {
            assert(all.skip(i as int)[0] == all[i as int]);
            assert(all.skip(i as int).drop_first() =~= all.skip(i + 1));
        }
        i += 1;
    }
    proof {
        if i < entries@.len() {
            assert(all.skip(i as int)[0] == all[i as int]);
        }
        assert(lower_bound(all, key@) == i);
    }
    if i < entries.len() && str_eq(entries[i].0.as_str(), key.as_str()) {
        entries[i] = (key, value);
    } else {
        entries.insert(i, (key, value));
    }
    assert(as_entries(entries@) =~= inserted(all, key@, value));
}

/// A map from strings to values of type `T`, ordered by key.
#[derive(Debug, PartialEq, Eq)]
pub struct SortedMap<T> {
    entries: Vec<(String, T)>,
}

impl<T> View for SortedMap<T> {
    type V = Entries<T>;

    closed spec fn view(&self) -> Entries<T> {
        as_entries(self.entries@)
    }
}

impl<T> SortedMap<T> {
    /// What every map satisfies: its keys strictly increase.
    #[verifier::type_invariant]
    pub closed spec fn ordered(self) -> bool {
        sorted_keys(self@)
    }

    /// A value stored in a map is structurally smaller than the map, so a
    /// recursion may descend into it.
    pub proof fn lemma_value_decreases(self, i: int)
        requires
            0 <= i < self@.len(),
        ensures
            decreases_to!(self => self@[i].1),
    {
        assert(decreases_to!(self => self.entries));
        assert(decreases_to!(self.entries => self.entries@[i]));
        assert(decreases_to!(self.entries@[i] => self.entries@[i].1));
    }

    /// The empty map.
    pub fn new() -> (map: Self)
        ensures
            map@ == Seq::<(Seq<char>, T)>::empty(),
    {
        let map = SortedMap { entries: Vec::new() };
        assert(map@ =~= Seq::<(Seq<char>, T)>::empty());
        map
    }

    /// The map that holds the entries of `list`. Where a key occurs more
    /// than once, its last value stays.
    pub fn from_entries(list: Vec<(String, T)>) -> (map: Self)
        ensures
            map@ == inserted_all(Seq::empty(), as_entries(list@)),
    {
        broadcast use vstd::std_specs::vec::axiom_spec_into_iter;

        let ghost all = as_entries(list@);
        let mut map: SortedMap<T> = SortedMap::new();
        proof {
            assert(all.take(0) =~= Seq::empty());
        }
        for entry in it: list.into_iter()
            invariant
                all == as_entries(list@),
                it.seq() == list@,
                map@ == inserted_all(Seq::empty(), all.take(it.index() as int)),
        {
            proof {
                let done = it.index() as int;
                assert(entry == list@[done]);
                assert(all.take(done + 1).drop_last() =~= all.take(done));
                assert(all.take(done + 1).last() == (entry.0@, entry.1));
            }
            map.insert(entry.0, entry.1);
        }
        proof {
            assert(all.take(list@.len() as int) =~= all);
        }
        map
    }

    /// The entries of the map, in the order of their keys.
    pub fn into_entries(self) -> (list: Vec<(String, T)>)
        ensures
            as_entries(list@) == self@,
            sorted_keys(self@),
    {
        proof {
            use_type_invariant(&self);
        }
        let list = self.entries;
        assert(as_entries(list@) =~= self@);
        list
    }

    /// The number of entries. The entries of every map are sorted by key.
    pub fn len(&self) -> (n: usize)
        ensures
            n == self@.len(),
            sorted_keys(self@),
    {
        proof {
            use_type_invariant(self);
        }
        self.entries.len()
    }

    /// Whether the map has no entry.
    pub fn is_empty(&self) -> (empty: bool)
        ensures
            empty == (self@.len() == 0),
    {
        self.entries.len() == 0
    }

    /// The key of the entry at position `i`.
    pub fn key_at(&self, i: usize) -> (key: &String)
        requires
            i < self@.len(),
        ensures
            key@ == self@[i as int].0,
    {
        &self.entries[i].0
    }

    /// The value of the entry at position `i`.
    pub fn value_at(&self, i: usize) -> (value: &T)
        requires
            i < self@.len(),
        ensures
            *value == self@[i as int].1,
    {
        &self.entries[i].1
    }

    /// The position of the entry with the key `key`.
    pub fn position(&self, key: &str) -> (at: Option<usize>)
        ensures
            match at {
                Some(i) => i < self@.len() && i == index_of(self@, key@),
                None => index_of(self@, key@) == self@.len(),
            },
    {
        position_in(&self.entries, key)
    }

    /// The value stored under `key`, if there is one.
    pub fn get(&self, key: &str) -> (value: Option<&T>)
        ensures
            match value {
                Some(v) => lookup(self@, key@) == Some(*v),
                None => lookup(self@, key@) is None,
            },
    {
        match self.position(key) {
            Some(i) => Some(&self.entries[i].1),
            None => None,
        }
    }

    /// Stores `value` under `key`, in place of the value that the key had, if
    /// it had one.
    pub fn insert(&mut self, key: String, value: T)
        ensures
            final(self)@ == inserted(old(self)@, key@, value),
    {
        proof {
            use_type_invariant(&*self);
            lemma_inserted_sorted(self@, key@, value);
        }
        let mut entries: Vec<(String, T)> = Vec::new();
        core::mem::swap(&mut self.entries, &mut entries);
        insert_into(&mut entries, key, value);
        core::mem::swap(&mut self.entries, &mut entries);
    }
}

} // verus!
