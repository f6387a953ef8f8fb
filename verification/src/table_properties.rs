//! Table properties: text values under text keys, each key once.
//!
//! The entries keep the order in which their keys first came in.

use crate::text::same_text;
use vstd::prelude::*;

verus! {

/// The property that asks for a reader version.
pub const MIN_READER_VERSION_PROP: &'static str = "delta.minReaderVersion";

/// The property that asks for a writer version.
pub const MIN_WRITER_VERSION_PROP: &'static str = "delta.minWriterVersion";

/// The mathematical value of a [`PropertyMap`]: its entries in order.
pub type Entries = Seq<(Seq<char>, Seq<char>)>;

/// Whether an entry of `entries` has this key.
pub open spec fn has_key(entries: Entries, key: Seq<char>) -> bool {
    exists|i: int| 0 <= i < entries.len() && #[trigger] entries[i].0 == key
}

/// Whether no two entries share a key.
pub open spec fn keys_differ(entries: Entries) -> bool {
    forall|i: int, j: int|
        0 <= i < j < entries.len() ==> #[trigger] entries[i].0 != #[trigger] entries[j].0
}

/// The value of the first entry with this key.
pub open spec fn lookup(entries: Entries, key: Seq<char>) -> Option<Seq<char>>
    decreases entries.len(),
{
    if entries.len() == 0 {
        None
    } else if entries[0].0 == key {
        Some(entries[0].1)
    } else {
        lookup(entries.drop_first(), key)
    }
}

/// The entries with `key` set to `value`: in place if the key is there, at the end if not.
pub open spec fn put(entries: Entries, key: Seq<char>, value: Seq<char>) -> Entries
    decreases entries.len(),
{
    if entries.len() == 0 {
        seq![(key, value)]
    } else if entries[0].0 == key {
        seq![(key, value)] + entries.drop_first()
    } else {
        seq![entries[0]] + put(entries.drop_first(), key, value)
    }
}

/// The entries with each of `more` put in, from first to last.
pub open spec fn put_all(entries: Entries, more: Entries) -> Entries
    decreases more.len(),
{
    if more.len() == 0 {
        entries
    } else {
        let before = put_all(entries, more.drop_last());
        put(before, more.last().0, more.last().1)
    }
}

/// The entries other than the one with this key, in order.
pub open spec fn without_key(entries: Entries, key: Seq<char>) -> Entries {
    entries.filter(|e: (Seq<char>, Seq<char>)| e.0 != key)
}

/// `lookup` finds the entry at any position whose key no earlier entry has.
pub proof fn lemma_lookup_at(entries: Entries, key: Seq<char>, i: int)
    requires
        0 <= i < entries.len(),
        entries[i].0 == key,
        forall|j: int| 0 <= j < i ==> #[trigger] entries[j].0 != key,
    ensures
        lookup(entries, key) == Some(entries[i].1),
    decreases i,
{
    if i > 0 {
        assert(entries[0].0 != key);
        let rest = entries.drop_first();
        assert forall|j: int| 0 <= j < i - 1 implies #[trigger] rest[j].0 != key by {
            assert(rest[j] == entries[j + 1]);
        }
        lemma_lookup_at(rest, key, i - 1);
    }
}

/// `lookup` finds something exactly where the key occurs.
pub proof fn lemma_lookup_present(entries: Entries, key: Seq<char>)
    ensures
        lookup(entries, key) is Some <==> has_key(entries, key),
    decreases entries.len(),
{
    if entries.len() > 0 {
        let rest = entries.drop_first();
        lemma_lookup_present(rest, key);
        if has_key(rest, key) {
            let i = choose|i: int| 0 <= i < rest.len() && #[trigger] rest[i].0 == key;
            assert(entries[i + 1].0 == key);
        }
        if has_key(entries, key) && entries[0].0 != key {
            let i = choose|i: int| 0 <= i < entries.len() && #[trigger] entries[i].0 == key;
            assert(rest[i - 1].0 == key);
        }
    }
}

/// What `put` does where no entry before position `i` has the key: it replaces the entry at `i`,
/// or appends one if `i` is the end.
proof fn lemma_put_at(entries: Entries, key: Seq<char>, value: Seq<char>, i: int)
    requires
        0 <= i <= entries.len(),
        forall|j: int| 0 <= j < i ==> #[trigger] entries[j].0 != key,
        i < entries.len() ==> entries[i].0 == key,
    ensures
        i < entries.len() ==> put(entries, key, value) == entries.update(i, (key, value)),
        i == entries.len() ==> put(entries, key, value) == entries.push((key, value)),
    decreases i,
{
    if i == 0 {
        if entries.len() > 0 {
            assert(put(entries, key, value) =~= entries.update(0, (key, value)));
        } else {
            assert(put(entries, key, value) =~= entries.push((key, value)));
        }
    } else {
        assert(entries[0].0 != key);
        let rest = entries.drop_first();
        assert forall|j: int| 0 <= j < i - 1 implies #[trigger] rest[j].0 != key by {
            assert(rest[j] == entries[j + 1]);
        }
        lemma_put_at(rest, key, value, i - 1);
        if i < entries.len() {
            assert(put(entries, key, value) =~= entries.update(i, (key, value)));
        } else {
            assert(put(entries, key, value) =~= entries.push((key, value)));
        }
    }
}

/// The entries of a vector of pairs of texts.
pub open spec fn entries_of(pairs: Seq<(String, String)>) -> Entries {
    pairs.map_values(|p: (String, String)| (p.0@, p.1@))
}

/// A map from property names to property values.
#[derive(Debug)]
pub struct PropertyMap {
    pairs: Vec<(String, String)>,
}

impl View for PropertyMap {
    type V = Entries;

    closed spec fn view(&self) -> Entries {
        entries_of(self.pairs@)
    }
}

impl PropertyMap {
    #[verifier::type_invariant]
    spec fn wf(&self) -> bool {
        keys_differ(entries_of(self.pairs@))
    }

    /// An empty map.
    pub fn new() -> (r: PropertyMap)
        ensures
            r@ == Entries::empty(),
    {
        let r = PropertyMap { pairs: Vec::new() };
        assert(entries_of(r.pairs@) =~= Entries::empty());
        r
    }

    /// The number of properties.
    pub fn len(&self) -> (r: usize)
        ensures
            r == self@.len(),
            keys_differ(self@),
    {
        proof {
            use_type_invariant(self);
        }
        self.pairs.len()
    }

    /// Whether there is no property.
    pub fn is_empty(&self) -> (r: bool)
        ensures
            r == (self@.len() == 0),
    {
        self.pairs.len() == 0
    }

    /// The key of the entry at a position.
    pub fn key_at(&self, i: usize) -> (r: &str)
        requires
            i < self@.len(),
        ensures
            r@ == self@[i as int].0,
    {
        self.pairs[i].0.as_str()
    }

    /// The value of the entry at a position.
    pub fn value_at(&self, i: usize) -> (r: &str)
        requires
            i < self@.len(),
        ensures
            r@ == self@[i as int].1,
    {
        self.pairs[i].1.as_str()
    }

    /// The position of a key, or the number of entries if it is not there.
    fn position(&self, key: &str) -> (r: usize)
        ensures
            r <= self@.len(),
            forall|j: int| 0 <= j < r ==> #[trigger] self@[j].0 != key@,
            r < self@.len() ==> self@[r as int].0 == key@,
    {
        let mut i: usize = 0;
        while i < self.pairs.len()
            invariant
                i <= self.pairs.len(),
                forall|j: int| 0 <= j < i ==> #[trigger] self@[j].0 != key@,
            decreases self.pairs.len() - i,
        {
            if same_text(self.pairs[i].0.as_str(), key) {
                return i;
            }
            i = i + 1;
        }
        i
    }

    /// The value of a property.
    pub fn get(&self, key: &str) -> (r: Option<&str>)
        ensures
            match r {
                Some(v) => lookup(self@, key@) == Some(v@),
                None => lookup(self@, key@) is None,
            },
            r is Some <==> has_key(self@, key@),
    {
        let i: usize = self.position(key);
        proof {
            lemma_lookup_present(self@, key@);
        }
        if i < self.pairs.len() {
            proof {
                lemma_lookup_at(self@, key@, i as int);
            }
            Some(self.pairs[i].1.as_str())
        } else {
            None
        }
    }

    /// Whether a property is set.
    pub fn contains_key(&self, key: &str) -> (r: bool)
        ensures
            r == has_key(self@, key@),
    {
        self.get(key).is_some()
    }

    /// Sets a property; an earlier value is overwritten.
    pub fn insert(&mut self, key: String, value: String)
        ensures
            final(self)@ == put(old(self)@, key@, value@),
    {
        proof {
            use_type_invariant(&*self);
        }
        let i: usize = self.position(key.as_str());
        proof {
            lemma_put_at(self@, key@, value@, i as int);
        }
        let mut pairs: Vec<(String, String)> = Vec::new();
        std::mem::swap(&mut pairs, &mut self.pairs);
        let ghost before = pairs@;
        if i < pairs.len() {
            pairs.set(i, (key, value));
            assert(entries_of(pairs@) =~= entries_of(before).update(i as int, (key@, value@)));
        } else {
            pairs.push((key, value));
            assert(entries_of(pairs@) =~= entries_of(before).push((key@, value@)));
        }
        self.pairs = pairs;
    }

    /// Removes a property if it is there.
    pub fn remove(&mut self, key: &str)
        ensures
            final(self)@ == without_key(old(self)@, key@),
    {
        proof {
            use_type_invariant(&*self);
        }
        let i: usize = self.position(key);
        let mut pairs: Vec<(String, String)> = Vec::new();
        std::mem::swap(&mut pairs, &mut self.pairs);
        let ghost before = entries_of(pairs@);
        if i < pairs.len() {
            pairs.remove(i);
            assert(entries_of(pairs@) =~= before.remove(i as int));
        }
        proof {
            lemma_without_at(before, key@, i as int);
        }
        self.pairs = pairs;
    }
}

impl Clone for PropertyMap {
    fn clone(&self) -> (r: PropertyMap)
        ensures
            r@ == self@,
    {
        proof {
            use_type_invariant(self);
        }
        let mut pairs: Vec<(String, String)> = Vec::new();
        let mut i: usize = 0;
        while i < self.pairs.len()
            invariant
                i <= self.pairs.len(),
                entries_of(pairs@) == entries_of(self.pairs@).take(i as int),
            decreases self.pairs.len() - i,
        {
            let ghost before = pairs@;
            pairs.push((self.pairs[i].0.clone(), self.pairs[i].1.clone()));
            proof {
                let all = entries_of(self.pairs@);
                assert(entries_of(pairs@) =~= entries_of(before).push(all[i as int]));
                assert(all.take(i + 1) =~= all.take(i as int).push(all[i as int]));
            }
            i = i + 1;
        }
        assert(entries_of(self.pairs@).take(i as int) =~= entries_of(self.pairs@));
        PropertyMap { pairs }
    }
}

/// What `without_key` leaves: everything but the entry at the key's position.
proof fn lemma_without_at(entries: Entries, key: Seq<char>, i: int)
    requires
        keys_differ(entries),
        0 <= i <= entries.len(),
        forall|j: int| 0 <= j < i ==> #[trigger] entries[j].0 != key,
        i < entries.len() ==> entries[i].0 == key,
    ensures
        i < entries.len() ==> without_key(entries, key) == entries.remove(i),
        i == entries.len() ==> without_key(entries, key) == entries,
    decreases entries.len(),
{
    reveal(Seq::filter);
    let pred = |e: (Seq<char>, Seq<char>)| e.0 != key;
    if entries.len() > 0 {
        let front = entries.drop_last();
        if i == entries.len() - 1 {
            lemma_without_at(front, key, i);
            assert(entries.remove(i) =~= front);
        } else if i < entries.len() {
            lemma_without_at(front, key, i);
            assert(entries.last().0 != key);
            assert(entries.remove(i) =~= front.remove(i).push(entries.last()));
        } else {
            lemma_without_at(front, key, i - 1);
            assert(entries[i - 1].0 != key);
            assert(front.push(entries.last()) =~= entries);
        }
    }
}

/// A property that was put in is found with its value, and every other property is found as before.
pub proof fn law_lookup_after_put(
    entries: Entries,
    key: Seq<char>,
    value: Seq<char>,
    other: Seq<char>,
)
    ensures
        lookup(put(entries, key, value), other) == if other == key {
            Some(value)
        } else {
            lookup(entries, other)
        },
    decreases entries.len(),
{
    reveal_with_fuel(lookup, 2);
    let changed = put(entries, key, value);
    if entries.len() == 0 {
        assert(changed.drop_first() =~= Entries::empty());
    } else if entries[0].0 == key {
        assert(changed.drop_first() =~= entries.drop_first());
    } else {
        law_lookup_after_put(entries.drop_first(), key, value, other);
        assert(changed.drop_first() =~= put(entries.drop_first(), key, value));
    }
}

/// The first position of a key, or the number of entries without it.
pub proof fn lemma_first_position(entries: Entries, key: Seq<char>) -> (i: int)
    ensures
        0 <= i <= entries.len(),
        forall|j: int| 0 <= j < i ==> #[trigger] entries[j].0 != key,
        i < entries.len() ==> entries[i].0 == key,
    decreases entries.len(),
{
    if entries.len() == 0 || entries[0].0 == key {
        0
    } else {
        let rest = entries.drop_first();
        let i = lemma_first_position(rest, key);
        assert forall|j: int| 0 <= j < i + 1 implies #[trigger] entries[j].0 != key by {
            if j > 0 {
                assert(rest[j - 1].0 != key);
            }
        }
        i + 1
    }
}

/// Putting a property in leaves each key once.
pub proof fn law_put_keeps_keys_apart(entries: Entries, key: Seq<char>, value: Seq<char>)
    requires
        keys_differ(entries),
    ensures
        keys_differ(put(entries, key, value)),
{
    let i = lemma_first_position(entries, key);
    lemma_put_at(entries, key, value, i);
}

/// Putting properties in leaves each key once.
pub proof fn law_put_all_keeps_keys_apart(entries: Entries, more: Entries)
    requires
        keys_differ(entries),
    ensures
        keys_differ(put_all(entries, more)),
    decreases more.len(),
{
    if more.len() > 0 {
        law_put_all_keeps_keys_apart(entries, more.drop_last());
        law_put_keeps_keys_apart(
            put_all(entries, more.drop_last()),
            more.last().0,
            more.last().1,
        );
    }
}

/// The value of the last entry with this key.
pub open spec fn last_value(entries: Entries, key: Seq<char>) -> Option<Seq<char>>
    decreases entries.len(),
{
    if entries.len() == 0 {
        None
    } else if entries.last().0 == key {
        Some(entries.last().1)
    } else {
        last_value(entries.drop_last(), key)
    }
}

/// Of several values for one property the last one counts; a property that is not among the new
/// ones keeps its value.
pub proof fn law_last_value_counts(entries: Entries, more: Entries, key: Seq<char>)
    ensures
        lookup(put_all(entries, more), key) == match last_value(more, key) {
            Some(value) => Some(value),
            None => lookup(entries, key),
        },
    decreases more.len(),
{
    if more.len() > 0 {
        let front = more.drop_last();
        law_last_value_counts(entries, front, key);
        law_lookup_after_put(put_all(entries, front), more.last().0, more.last().1, key);
    }
}

/// Putting properties in twice is putting them all in at once.
pub proof fn law_put_all_twice(entries: Entries, first: Entries, second: Entries)
    ensures
        put_all(put_all(entries, first), second) == put_all(entries, first + second),
    decreases second.len(),
{
    if second.len() == 0 {
        assert(first + second =~= first);
    } else {
        law_put_all_twice(entries, first, second.drop_last());
        assert((first + second).drop_last() =~= first + second.drop_last());
    }
}

/// One more entry is found if no earlier one has its key.
pub proof fn lemma_lookup_push(entries: Entries, entry: (Seq<char>, Seq<char>), key: Seq<char>)
    ensures
        lookup(entries.push(entry), key) == match lookup(entries, key) {
            Some(value) => Some(value),
            None => if entry.0 == key {
                Some(entry.1)
            } else {
                None
            },
        },
    decreases entries.len(),
{
    reveal_with_fuel(lookup, 2);
    let more = entries.push(entry);
    if entries.len() == 0 {
        assert(more.drop_first() =~= Entries::empty());
    } else {
        lemma_lookup_push(entries.drop_first(), entry, key);
        assert(more.drop_first() =~= entries.drop_first().push(entry));
    }
}

/// A property that was removed is not found, and every other property is found as before.
pub proof fn law_lookup_after_remove(entries: Entries, key: Seq<char>, other: Seq<char>)
    ensures
        lookup(without_key(entries, key), other) == if other == key {
            None
        } else {
            lookup(entries, other)
        },
    decreases entries.len(),
{
    reveal(Seq::filter);
    if entries.len() > 0 {
        let front = entries.drop_last();
        law_lookup_after_remove(front, key, other);
        lemma_lookup_push(front, entries.last(), other);
        assert(front.push(entries.last()) =~= entries);
        if entries.last().0 != key {
            lemma_lookup_push(without_key(front, key), entries.last(), other);
        }
    }
}

/// Properties are found the same in whatever order they stand.
pub proof fn law_lookup_in_any_order(a: Entries, b: Entries, key: Seq<char>)
    requires
        keys_differ(a),
        keys_differ(b),
        a.to_multiset() == b.to_multiset(),
    ensures
        lookup(a, key) == lookup(b, key),
{
    broadcast use vstd::seq_lib::group_to_multiset_ensures;

    lemma_lookup_present(a, key);
    lemma_lookup_present(b, key);
    if has_key(a, key) {
        let i = choose|i: int| 0 <= i < a.len() && #[trigger] a[i].0 == key;
        lemma_lookup_at(a, key, i);
        assert(a.contains(a[i]));
        assert(b.to_multiset().contains(a[i]));
        let j = choose|j: int| 0 <= j < b.len() && b[j] == a[i];
        lemma_lookup_at(b, key, j);
    } else if has_key(b, key) {
        let j = choose|j: int| 0 <= j < b.len() && #[trigger] b[j].0 == key;
        assert(b.contains(b[j]));
        assert(a.to_multiset().contains(b[j]));
        let i = choose|i: int| 0 <= i < a.len() && a[i] == b[j];
        assert(a[i].0 == key);
    }
}

/// A property is found exactly if an entry has its key, and then with that entry's value.
pub proof fn law_lookup_finds_entries(entries: Entries, key: Seq<char>, value: Seq<char>)
    requires
        forall|i: int, j: int|
            0 <= i < j < entries.len() ==> #[trigger] entries[i].0 != #[trigger] entries[j].0,
    ensures
        keys_differ(entries),
        lookup(entries, key) == Some(value) <==> entries.contains((key, value)),
        lookup(entries, key) is None <==> !exists|i: int|
            0 <= i < entries.len() && #[trigger] entries[i].0 == key,
        has_key(entries, key) <==> exists|i: int|
            0 <= i < entries.len() && #[trigger] entries[i].0 == key,
{
    lemma_lookup_present(entries, key);
    if entries.contains((key, value)) {
        let i = choose|i: int| 0 <= i < entries.len() && entries[i] == (key, value);
        lemma_lookup_at(entries, key, i);
    }
    if lookup(entries, key) == Some(value) {
        let i = lemma_first_position(entries, key);
        assert(has_key(entries, key));
        lemma_lookup_at(entries, key, i);
        assert(entries[i] == (key, value));
    }
}

/// Where keys differ, no two positions have the same key.
pub proof fn law_keys_that_differ(entries: Entries, i: int, j: int)
    requires
        keys_differ(entries),
        0 <= i < entries.len(),
        0 <= j < entries.len(),
        entries[i].0 == entries[j].0,
    ensures
        i == j,
{
    if i < j {
        assert(entries[i].0 != entries[j].0);
    }
    if j < i {
        assert(entries[j].0 != entries[i].0);
    }
}

/// Each of several properties that are put in is found until a later one has the same key; none is
/// left out, and no other property changes.
pub proof fn law_one_more_property(
    entries: Entries,
    more: Entries,
    key: Seq<char>,
    value: Seq<char>,
    other: Seq<char>,
)
    ensures
        put_all(entries, Entries::empty()) == entries,
        lookup(put_all(entries, more.push((key, value))), key) == Some(value),
        other != key ==> lookup(put_all(entries, more.push((key, value))), other) == lookup(
            put_all(entries, more),
            other,
        ),
{
    assert(more.push((key, value)).drop_last() =~= more);
    law_lookup_after_put(put_all(entries, more), key, value, key);
    law_lookup_after_put(put_all(entries, more), key, value, other);
}

/// Putting a property in adds one entry at most.
pub proof fn law_put_adds_one_entry_at_most(entries: Entries, key: Seq<char>, value: Seq<char>)
    ensures
        put(entries, key, value).len() == entries.len() + if exists|i: int|
            0 <= i < entries.len() && #[trigger] entries[i].0 == key {
            0int
        } else {
            1int
        },
{
    let i = lemma_first_position(entries, key);
    lemma_put_at(entries, key, value, i);
    if i < entries.len() {
        assert(entries[i].0 == key);
    }
}

/// The entries of pairs of strings are their texts, one for one.
pub proof fn law_entries_are_itemwise(pairs: Seq<(String, String)>, i: int)
    ensures
        entries_of(pairs).len() == pairs.len(),
        0 <= i < pairs.len() ==> entries_of(pairs)[i] == (pairs[i].0@, pairs[i].1@),
{
}

} // verus!
