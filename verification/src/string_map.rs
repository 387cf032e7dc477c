//! A map from strings to values, kept as a list of entries in the order of
//! their keys.
//!
//! vstd states the behaviour of `std::collections::HashMap` only for keys
//! that obey its key model, and gives no such model for `String`: of a std
//! map keyed by strings Verus proves nothing, not even the length after one
//! insertion. The maps of the context are keyed by strings, so they are of
//! this type, of which every operation is proved.

use vstd::prelude::*;
use crate::text::{comes_before, lemma_text_order, matches_chars, same_text, text_before};

verus! {

/// The map that a list of entries stands for: later entries win.
pub open spec fn entries_map<V>(entries: Seq<(String, V)>) -> Map<Seq<char>, V>
    decreases entries.len(),
{
    if entries.len() == 0 {
        Map::empty()
    } else {
        entries_map(entries.drop_last()).insert(entries.last().0@, entries.last().1)
    }
}

/// No two entries share a key.
pub open spec fn distinct_keys<V>(entries: Seq<(String, V)>) -> bool {
    forall|i: int, j: int| 0 <= i < j < entries.len() ==> entries[i].0@ != entries[j].0@
}

/// The keys stand in their order.
pub open spec fn sorted_keys<V>(entries: Seq<(String, V)>) -> bool {
    forall|i: int, j: int|
        0 <= i < j < entries.len() ==> text_before(
            #[trigger] entries[i].0@,
            #[trigger] entries[j].0@,
        )
}

pub proof fn lemma_sorted_keys_are_distinct<V>(entries: Seq<(String, V)>)
    requires
        sorted_keys(entries),
    ensures
        distinct_keys(entries),
{
    assert forall|i: int, j: int| 0 <= i < j < entries.len() implies entries[i].0@
        != entries[j].0@ by {
        assert(text_before(entries[i].0@, entries[j].0@));
        lemma_text_order(entries[i].0@, entries[j].0@, entries[j].0@);
    }
}

proof fn lemma_front_is_distinct<V>(entries: Seq<(String, V)>)
    requires
        distinct_keys(entries),
        entries.len() > 0,
    ensures
        distinct_keys(entries.drop_last()),
{
    let front = entries.drop_last();
    assert forall|a: int, b: int| 0 <= a < b < front.len() implies front[a].0@ != front[b].0@ by {
        assert(front[a] == entries[a] && front[b] == entries[b]);
    }
}

pub proof fn lemma_entries_map_keys<V>(entries: Seq<(String, V)>, key: Seq<char>)
    ensures
        entries_map(entries).contains_key(key) <==> exists|i: int|
            0 <= i < entries.len() && entries[i].0@ == key,
        entries_map(entries).dom().finite(),
    decreases entries.len(),
{
    if entries.len() > 0 {
        let front = entries.drop_last();
        lemma_entries_map_keys(front, key);
        if entries_map(entries).contains_key(key) {
            if entries.last().0@ == key {
                assert(entries[entries.len() - 1].0@ == key);
            } else {
                let i = choose|i: int| 0 <= i < front.len() && front[i].0@ == key;
                assert(entries[i].0@ == key);
            }
        }
        if exists|i: int| 0 <= i < entries.len() && entries[i].0@ == key {
            let i = choose|i: int| 0 <= i < entries.len() && entries[i].0@ == key;
            if i < entries.len() - 1 {
                assert(front[i].0@ == key);
            }
        }
    }
}

pub proof fn lemma_entries_map_value<V>(entries: Seq<(String, V)>, i: int)
    requires
        distinct_keys(entries),
        0 <= i < entries.len(),
    ensures
        entries_map(entries).contains_key(entries[i].0@),
        entries_map(entries)[entries[i].0@] == entries[i].1,
    decreases entries.len(),
{
    let front = entries.drop_last();
    if i < entries.len() - 1 {
        lemma_front_is_distinct(entries);
        lemma_entries_map_value(front, i);
        assert(front[i] == entries[i]);
        assert(entries[i].0@ != entries[entries.len() - 1].0@);
    }
}

pub proof fn lemma_entries_map_len<V>(entries: Seq<(String, V)>)
    requires
        distinct_keys(entries),
    ensures
        entries_map(entries).dom().finite(),
        entries_map(entries).len() == entries.len(),
    decreases entries.len(),
{
    if entries.len() > 0 {
        let front = entries.drop_last();
        lemma_front_is_distinct(entries);
        lemma_entries_map_len(front);
        let key = entries.last().0@;
        lemma_entries_map_keys(front, key);
        if entries_map(front).contains_key(key) {
            let i = choose|i: int| 0 <= i < front.len() && front[i].0@ == key;
            assert(entries[i].0@ == entries[entries.len() - 1].0@);
        }
        assert(entries_map(entries).dom() =~= entries_map(front).dom().insert(key));
    }
}

/// A new value in the place of an entry is a new value under its key.
pub proof fn lemma_entries_map_update<V>(entries: Seq<(String, V)>, i: int, key: String, value: V)
    requires
        distinct_keys(entries),
        0 <= i < entries.len(),
        entries[i].0@ == key@,
    ensures
        entries_map(entries.update(i, (key, value))) == entries_map(entries).insert(key@, value),
    decreases entries.len(),
{
    let next = entries.update(i, (key, value));
    let front = entries.drop_last();
    if i == entries.len() - 1 {
        assert(next.drop_last() =~= front);
        assert(entries_map(next) =~= entries_map(entries).insert(key@, value));
    } else {
        lemma_front_is_distinct(entries);
        assert(front[i] == entries[i]);
        lemma_entries_map_update(front, i, key, value);
        assert(next.drop_last() =~= front.update(i, (key, value)));
        assert(next.last() == entries.last());
        assert(entries[i].0@ != entries[entries.len() - 1].0@);
        assert(entries_map(next) =~= entries_map(entries).insert(key@, value));
    }
}

/// An entry with a new key, put at any place, is a new key in the map.
pub proof fn lemma_entries_map_insert<V>(entries: Seq<(String, V)>, at: int, key: String, value: V)
    requires
        0 <= at <= entries.len(),
        forall|i: int| 0 <= i < entries.len() ==> entries[i].0@ != key@,
    ensures
        entries_map(entries.insert(at, (key, value))) == entries_map(entries).insert(key@, value),
    decreases entries.len(),
{
    let next = entries.insert(at, (key, value));
    if at == entries.len() {
        assert(next.drop_last() =~= entries);
    } else {
        let front = entries.drop_last();
        assert forall|i: int| 0 <= i < front.len() implies front[i].0@ != key@ by {
            assert(front[i] == entries[i]);
        }
        lemma_entries_map_insert(front, at, key, value);
        assert(next.drop_last() =~= front.insert(at, (key, value)));
        assert(next.last() == entries.last());
        assert(entries[entries.len() - 1].0@ != key@);
        assert(entries_map(next) =~= entries_map(entries).insert(key@, value));
    }
}

/// Two lists of entries with their keys in order stand for one map only if
/// they hold the same keys with the same values in the same places.
pub proof fn lemma_sorted_entries_are_one<V>(a: Seq<(String, V)>, b: Seq<(String, V)>)
    requires
        sorted_keys(a),
        sorted_keys(b),
        entries_map(a) == entries_map(b),
    ensures
        a.len() == b.len(),
        forall|i: int| 0 <= i < a.len() ==> a[i].0@ == b[i].0@ && a[i].1 == b[i].1,
    decreases a.len(),
{
    lemma_sorted_keys_are_distinct(a);
    lemma_sorted_keys_are_distinct(b);
    lemma_entries_map_len(a);
    lemma_entries_map_len(b);
    if a.len() > 0 {
        let n = a.len() - 1;
        let ka = a[n].0@;
        let kb = b[n].0@;
        lemma_entries_map_value(a, n);
        lemma_entries_map_value(b, n);
        lemma_entries_map_keys(b, ka);
        lemma_entries_map_keys(a, kb);
        let j = choose|j: int| 0 <= j < b.len() && b[j].0@ == ka;
        let i = choose|i: int| 0 <= i < a.len() && a[i].0@ == kb;
        if j < n {
            assert(text_before(b[j].0@, b[n].0@));
            if i < n {
                assert(text_before(a[i].0@, a[n].0@));
                lemma_text_order(ka, kb, ka);
            }
            lemma_text_order(ka, ka, ka);
        }
        assert(ka == kb);
        // Without their last entries the two lists still stand for one map.
        let fa = a.drop_last();
        let fb = b.drop_last();
        lemma_entries_map_keys(fa, ka);
        lemma_entries_map_keys(fb, ka);
        if entries_map(fa).contains_key(ka) {
            let x = choose|x: int| 0 <= x < fa.len() && fa[x].0@ == ka;
            assert(a[x].0@ == a[n].0@);
        }
        if entries_map(fb).contains_key(ka) {
            let x = choose|x: int| 0 <= x < fb.len() && fb[x].0@ == ka;
            assert(b[x].0@ == b[n].0@);
        }
        assert(entries_map(fa) =~= entries_map(a).remove(ka));
        assert(entries_map(fb) =~= entries_map(b).remove(ka));
        assert(sorted_keys(fa)) by {
            assert forall|x: int, y: int| 0 <= x < y < fa.len() implies text_before(
                #[trigger] fa[x].0@,
                #[trigger] fa[y].0@,
            ) by {
                assert(text_before(a[x].0@, a[y].0@));
            }
        }
        assert(sorted_keys(fb)) by {
            assert forall|x: int, y: int| 0 <= x < y < fb.len() implies text_before(
                #[trigger] fb[x].0@,
                #[trigger] fb[y].0@,
            ) by {
                assert(text_before(b[x].0@, b[y].0@));
            }
        }
        lemma_sorted_entries_are_one(fa, fb);
        assert forall|x: int| 0 <= x < a.len() implies a[x].0@ == b[x].0@ && a[x].1 == b[x].1 by {
            if x < n {
                assert(fa[x] == a[x] && fb[x] == b[x]);
            }
        }
    }
}

/// A finite map keyed by strings.
///
/// Its view is a `Map` keyed by the keys' characters. The entries are kept
/// with their keys in order (`sorted_keys`), so that two maps with the same
/// view hold the same entries in the same places
/// (`lemma_sorted_entries_are_one`), and `==` compares what the maps hold.
#[derive(Debug, PartialEq)]
pub struct StringMap<V> {
    entries: Vec<(String, V)>,
}

impl<V> View for StringMap<V> {
    type V = Map<Seq<char>, V>;

    closed spec fn view(&self) -> Map<Seq<char>, V> {
        entries_map(self.entries@)
    }
}

impl<V> StringMap<V> {
    #[verifier::type_invariant]
    spec fn well_formed(&self) -> bool {
        sorted_keys(self.entries@)
    }

    /// The empty map.
    pub fn new() -> (m: Self)
        ensures
            m@ == Map::<Seq<char>, V>::empty(),
    {
        StringMap { entries: Vec::new() }
    }

    /// The number of keys.
    pub fn len(&self) -> (n: usize)
        ensures
            n == self@.len(),
            self@.dom().finite(),
    {
        proof {
            use_type_invariant(self);
            lemma_sorted_keys_are_distinct(self.entries@);
            lemma_entries_map_len(self.entries@);
        }
        self.entries.len()
    }

    /// Whether the map holds no key.
    pub fn is_empty(&self) -> (r: bool)
        ensures
            r == (self@.len() == 0),
            self@.dom().finite(),
    {
        self.len() == 0
    }

    /// The value under `key`, if the key is present.
    pub fn get(&self, key: &str) -> (r: Option<&V>)
        ensures
            match r {
                Some(v) => self@.contains_key(key@) && *v == self@[key@],
                None => !self@.contains_key(key@),
            },
    {
        proof {
            use_type_invariant(self);
            lemma_sorted_keys_are_distinct(self.entries@);
            lemma_entries_map_keys(self.entries@, key@);
        }
        let mut i: usize = 0;
        while i < self.entries.len()
            invariant
                i <= self.entries.len(),
                distinct_keys(self.entries@),
                forall|j: int| 0 <= j < i ==> self.entries[j].0@ != key@,
            decreases self.entries.len() - i,
        {
            if same_text(self.entries[i].0.as_str(), key) {
                proof {
                    lemma_entries_map_value(self.entries@, i as int);
                }
                return Some(&self.entries[i].1);
            }
            i = i + 1;
        }
        None
    }

    /// The value under the key spelled by `key`, if such a key is present.
    pub fn get_chars(&self, key: &Vec<char>) -> (r: Option<&V>)
        ensures
            match r {
                Some(v) => self@.contains_key(key@) && *v == self@[key@],
                None => !self@.contains_key(key@),
            },
    {
        proof {
            use_type_invariant(self);
            lemma_sorted_keys_are_distinct(self.entries@);
            lemma_entries_map_keys(self.entries@, key@);
        }
        let mut i: usize = 0;
        while i < self.entries.len()
            invariant
                i <= self.entries.len(),
                distinct_keys(self.entries@),
                forall|j: int| 0 <= j < i ==> self.entries[j].0@ != key@,
            decreases self.entries.len() - i,
        {
            if matches_chars(self.entries[i].0.as_str(), key) {
                proof {
                    lemma_entries_map_value(self.entries@, i as int);
                }
                return Some(&self.entries[i].1);
            }
            i = i + 1;
        }
        None
    }

    /// Whether `key` is present.
    pub fn contains_key(&self, key: &str) -> (r: bool)
        ensures
            r == self@.contains_key(key@),
    {
        self.get(key).is_some()
    }

    /// The place of the first entry whose key does not come before `key`.
    fn place_of(&self, key: &str) -> (at: usize)
        ensures
            at <= self.entries.len(),
            forall|j: int| 0 <= j < at ==> text_before(#[trigger] self.entries[j].0@, key@),
            at < self.entries.len() ==> !text_before(self.entries[at as int].0@, key@),
    {
        let mut i: usize = 0;
        while i < self.entries.len()
            invariant
                i <= self.entries.len(),
                forall|j: int| 0 <= j < i ==> text_before(#[trigger] self.entries[j].0@, key@),
            decreases self.entries.len() - i,
        {
            if !comes_before(self.entries[i].0.as_str(), key) {
                return i;
            }
            i = i + 1;
        }
        i
    }

    /// Puts `value` under `key`, in place of the value that was there, if any.
    pub fn insert(&mut self, key: String, value: V)
        ensures
            final(self)@ == old(self)@.insert(key@, value),
    {
        proof {
            use_type_invariant(&*self);
            lemma_sorted_keys_are_distinct(self.entries@);
        }
        let at = self.place_of(key.as_str());
        let ghost before = self.entries@;
        let present = at < self.entries.len() && same_text(
            self.entries[at].0.as_str(),
            key.as_str(),
        );
        let mut entries: Vec<(String, V)> = Vec::new();
        core::mem::swap(&mut self.entries, &mut entries);
        if present {
            proof {
                lemma_entries_map_update(before, at as int, key, value);
                assert forall|i: int, j: int| 0 <= i < j < before.len() implies text_before(
                    #[trigger] before.update(at as int, (key, value))[i].0@,
                    #[trigger] before.update(at as int, (key, value))[j].0@,
                ) by {
                    assert(text_before(before[i].0@, before[j].0@));
                }
            }
            entries.set(at, (key, value));
        } else {
            proof {
                let after = before.insert(at as int, (key, value));
                // The key differs from every key that is there.
                assert forall|i: int| 0 <= i < before.len() implies before[i].0@ != key@ by {
                    lemma_text_order(before[i].0@, key@, key@);
                    if i < at {
                        assert(text_before(before[i].0@, key@));
                    } else if i > at {
                        assert(text_before(before[at as int].0@, before[i].0@));
                        lemma_text_order(before[at as int].0@, key@, key@);
                    }
                }
                lemma_entries_map_insert(before, at as int, key, value);
                // The keys stay in order.
                assert forall|i: int, j: int| 0 <= i < j < after.len() implies text_before(
                    #[trigger] after[i].0@,
                    #[trigger] after[j].0@,
                ) by {
                    if j < at {
                        assert(text_before(before[i].0@, before[j].0@));
                    } else if j == at {
                        assert(text_before(before[i].0@, key@));
                    } else if i == at {
                        // The key comes before the entry that it moved on,
                        // and with it before all that follow.
                        lemma_text_order(before[at as int].0@, key@, key@);
                        assert(text_before(key@, before[at as int].0@));
                        if j - 1 > at {
                            assert(text_before(before[at as int].0@, before[j - 1].0@));
                            lemma_text_order(key@, before[at as int].0@, before[j - 1].0@);
                        }
                    } else if i < at {
                        assert(text_before(before[i].0@, before[j - 1].0@));
                    } else {
                        assert(text_before(before[i - 1].0@, before[j - 1].0@));
                    }
                }
            }
            entries.insert(at, (key, value));
        }
        core::mem::swap(&mut self.entries, &mut entries);
    }
}

impl<V> Default for StringMap<V> {
    fn default() -> (m: Self)
        ensures
            m@ == Map::<Seq<char>, V>::empty(),
    {
        StringMap::new()
    }
}

} // verus!
