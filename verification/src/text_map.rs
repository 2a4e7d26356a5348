//! Values by text keys, each key once, in the order in which the keys came.

use vstd::prelude::*;

verus! {

/// Values by text keys.
#[derive(Debug, PartialEq, Eq)]
#[verifier::reject_recursive_types(V)]
pub struct TextMap<V> {
    entries: Vec<(String, V)>,
}

/// The key and the value of an entry.
pub open spec fn entry_model<V>(entry: (String, V)) -> (Seq<char>, V) {
    (entry.0@, entry.1)
}

/// Whether no key occurs twice.
pub open spec fn keys_differ<V>(entries: Seq<(Seq<char>, V)>) -> bool {
    forall|i: int, j: int|
        0 <= i < j < entries.len() ==> (#[trigger] entries[i]).0 != (#[trigger] entries[j]).0
}

/// Where a key stands; the number of entries where it does not.
pub open spec fn key_index<V>(entries: Seq<(Seq<char>, V)>, key: Seq<char>) -> int
    decreases entries.len(),
{
    if entries.len() == 0 || entries[0].0 == key {
        0
    } else {
        1 + key_index(entries.skip(1), key)
    }
}

/// Whether a key is there.
pub open spec fn has_key<V>(entries: Seq<(Seq<char>, V)>, key: Seq<char>) -> bool {
    exists|i: int| 0 <= i < entries.len() && (#[trigger] entries[i]).0 == key
}

/// The value of a key.
pub open spec fn value_of<V>(entries: Seq<(Seq<char>, V)>, key: Seq<char>) -> Option<V> {
    if has_key(entries, key) {
        Some(entries[key_index(entries, key)].1)
    } else {
        None
    }
}

/// The entries with a value for a key: in the place of the key, or at the end.
pub open spec fn with_value<V>(entries: Seq<(Seq<char>, V)>, key: Seq<char>, value: V) -> Seq<
    (Seq<char>, V),
> {
    if has_key(entries, key) {
        entries.update(key_index(entries, key), (key, value))
    } else {
        entries.push((key, value))
    }
}

/// The entries without a key.
pub open spec fn without_key<V>(entries: Seq<(Seq<char>, V)>, key: Seq<char>) -> Seq<
    (Seq<char>, V),
> {
    if has_key(entries, key) {
        entries.remove(key_index(entries, key))
    } else {
        entries
    }
}

/// A key that is there stands where its index says, and nowhere before.
pub proof fn lemma_key_index<V>(entries: Seq<(Seq<char>, V)>, key: Seq<char>)
    requires
        has_key(entries, key),
    ensures
        0 <= key_index(entries, key) < entries.len(),
        entries[key_index(entries, key)].0 == key,
        forall|i: int| 0 <= i < key_index(entries, key) ==> (#[trigger] entries[i]).0 != key,
    decreases entries.len(),
{
    if entries[0].0 != key {
        let rest = entries.skip(1);
        let i = choose|i: int| 0 <= i < entries.len() && (#[trigger] entries[i]).0 == key;
        assert(rest[i - 1] == entries[i]);
        lemma_key_index(rest, key);
        assert forall|i: int| 0 <= i < key_index(entries, key) implies (#[trigger] entries[i]).0
            != key by {
            if i > 0 {
                assert(rest[i - 1] == entries[i]);
            }
        }
    }
}

/// A place that holds a key and has none before is the index of the key.
proof fn lemma_index_is<V>(entries: Seq<(Seq<char>, V)>, key: Seq<char>, at: int)
    requires
        0 <= at < entries.len(),
        entries[at].0 == key,
        forall|i: int| 0 <= i < at ==> (#[trigger] entries[i]).0 != key,
    ensures
        has_key(entries, key),
        key_index(entries, key) == at,
{
    lemma_key_index(entries, key);
    let found = key_index(entries, key);
    if found < at {
        assert(entries[found].0 != key);
    }
    if found > at {
        assert(entries[at].0 != key);
    }
}

/// The entries with what a function makes of their values.
pub open spec fn mapped<V, W>(entries: Seq<(Seq<char>, V)>, f: spec_fn(V) -> W) -> Seq<
    (Seq<char>, W),
> {
    entries.map_values(|e: (Seq<char>, V)| (e.0, f(e.1)))
}

/// A function on the values leaves the keys where they are.
pub proof fn lemma_mapped<V, W>(entries: Seq<(Seq<char>, V)>, f: spec_fn(V) -> W, key: Seq<char>)
    ensures
        has_key(mapped(entries, f), key) == has_key(entries, key),
        key_index(mapped(entries, f), key) == key_index(entries, key),
        value_of(mapped(entries, f), key) == match value_of(entries, key) {
            Some(value) => Some(f(value)),
            None => None,
        },
        mapped(without_key(entries, key), f) == without_key(mapped(entries, f), key),
{
    let images = mapped(entries, f);
    lemma_mapped_index(entries, f, key);
    if has_key(entries, key) {
        let i = choose|i: int| 0 <= i < entries.len() && (#[trigger] entries[i]).0 == key;
        assert(images[i].0 == key);
        lemma_key_index(entries, key);
    }
    if has_key(images, key) {
        let i = choose|i: int| 0 <= i < images.len() && (#[trigger] images[i]).0 == key;
        assert(entries[i].0 == key);
    }
    assert(mapped(without_key(entries, key), f) =~= without_key(images, key));
}

/// A function on the values may be applied before or after a key is given a value.
pub proof fn lemma_mapped_with<V, W>(
    entries: Seq<(Seq<char>, V)>,
    f: spec_fn(V) -> W,
    key: Seq<char>,
    value: V,
)
    ensures
        mapped(with_value(entries, key, value), f) == with_value(
            mapped(entries, f),
            key,
            f(value),
        ),
{
    lemma_mapped(entries, f, key);
    if has_key(entries, key) {
        lemma_key_index(entries, key);
    }
    assert(mapped(with_value(entries, key, value), f) =~= with_value(
        mapped(entries, f),
        key,
        f(value),
    ));
}

proof fn lemma_mapped_index<V, W>(
    entries: Seq<(Seq<char>, V)>,
    f: spec_fn(V) -> W,
    key: Seq<char>,
)
    ensures
        key_index(mapped(entries, f), key) == key_index(entries, key),
    decreases entries.len(),
{
    if entries.len() > 0 {
        assert(mapped(entries.skip(1), f) =~= mapped(entries, f).skip(1));
        lemma_mapped_index(entries.skip(1), f, key);
        assert(mapped(entries, f)[0].0 == entries[0].0);
    }
}

impl<V> View for TextMap<V> {
    type V = Seq<(Seq<char>, V)>;

    closed spec fn view(&self) -> Seq<(Seq<char>, V)> {
        self.entries@.map_values(|e: (String, V)| entry_model(e))
    }
}

impl<V> TextMap<V> {
    /// Nothing.
    pub fn new() -> (map: Self)
        ensures
            map@ == Seq::<(Seq<char>, V)>::empty(),
    {
        let map = TextMap { entries: Vec::new() };
        assert(map@ =~= Seq::<(Seq<char>, V)>::empty());
        map
    }

    /// How many keys there are.
    pub fn len(&self) -> (count: usize)
        ensures
            count == self@.len(),
    {
        self.entries.len()
    }

    /// The value at a place.
    pub fn value_at(&self, at: usize) -> (value: &V)
        requires
            at < self@.len(),
        ensures
            *value == self@[at as int].1,
    {
        &self.entries[at].1
    }

    /// Where a key stands.
    pub fn find(&self, key: &String) -> (found: Option<usize>)
        ensures
            match found {
                Some(at) => has_key(self@, key@) && at == key_index(self@, key@) && at
                    < self@.len(),
                None => !has_key(self@, key@),
            },
    {
        for i in 0..self.entries.len()
            invariant
                forall|j: int| 0 <= j < i ==> (#[trigger] self@[j]).0 != key@,
        {
            assert(self@[i as int] == entry_model(self.entries@[i as int]));
            if self.entries[i].0 == *key {
                proof {
                    lemma_index_is(self@, key@, i as int);
                }
                return Some(i);
            }
        }
        None
    }

    /// The value of a key.
    pub fn get(&self, key: &String) -> (value: Option<&V>)
        ensures
            match value {
                Some(value) => value_of(self@, key@) == Some(*value),
                None => value_of(self@, key@) is None,
            },
    {
        match self.find(key) {
            Some(at) => {
                assert(self@[at as int] == entry_model(self.entries@[at as int]));
                Some(&self.entries[at].1)
            },
            None => None,
        }
    }

    /// Gives a key a value.
    pub fn insert(&mut self, key: String, value: V)
        ensures
            final(self)@ == with_value(old(self)@, key@, value),
            keys_differ(old(self)@) ==> keys_differ(final(self)@),
    {
        let ghost before = self@;
        match self.find(&key) {
            Some(at) => {
                self.entries.set(at, (key, value));
                assert(self@ =~= before.update(at as int, (key@, value)));
                proof {
                    lemma_key_index(before, key@);
                    if keys_differ(before) {
                        assert forall|i: int, j: int| 0 <= i < j < self@.len() implies (
                        #[trigger] self@[i]).0 != (#[trigger] self@[j]).0 by {
                            assert(before[i].0 != before[j].0);
                        }
                    }
                }
            },
            None => {
                self.entries.push((key, value));
                assert(self@ =~= before.push((key@, value)));
                proof {
                    if keys_differ(before) {
                        assert forall|i: int, j: int| 0 <= i < j < self@.len() implies (
                        #[trigger] self@[i]).0 != (#[trigger] self@[j]).0 by {
                            assert(self@[i] == before[i]);
                            if j < before.len() {
                                assert(self@[j] == before[j]);
                            }
                        }
                    }
                }
            },
        }
    }

    /// Takes out what stands at a place.
    pub fn remove_at(&mut self, at: usize)
        requires
            at < old(self)@.len(),
        ensures
            final(self)@ == old(self)@.remove(at as int),
    {
        let ghost before = self@;
        let _ = self.entries.remove(at);
        assert(self@ =~= before.remove(at as int));
    }

    /// Takes a key out, and gives its value.
    pub fn remove(&mut self, key: &String) -> (value: Option<V>)
        ensures
            value == value_of(old(self)@, key@),
            final(self)@ == without_key(old(self)@, key@),
            keys_differ(old(self)@) ==> keys_differ(final(self)@),
    {
        let ghost before = self@;
        match self.find(key) {
            Some(at) => {
                assert(self@[at as int] == entry_model(self.entries@[at as int]));
                let entry = self.entries.remove(at);
                assert(self@ =~= before.remove(at as int));
                proof {
                    if keys_differ(before) {
                        assert forall|i: int, j: int| 0 <= i < j < self@.len() implies (
                        #[trigger] self@[i]).0 != (#[trigger] self@[j]).0 by {
                            let a = if i < at {
                                i
                            } else {
                                i + 1
                            };
                            let b = if j < at {
                                j
                            } else {
                                j + 1
                            };
                            assert(self@[i] == before[a]);
                            assert(self@[j] == before[b]);
                        }
                    }
                }
                Some(entry.1)
            },
            None => None,
        }
    }
}

/// Where the keys differ, the entry of a key holds its value.
pub proof fn lemma_entry_holds_value<V>(entries: Seq<(Seq<char>, V)>, at: int)
    requires
        keys_differ(entries),
        0 <= at < entries.len(),
    ensures
        value_of(entries, entries[at].0) == Some(entries[at].1),
{
    assert forall|i: int| 0 <= i < at implies (#[trigger] entries[i]).0 != entries[at].0 by {}
    lemma_index_is(entries, entries[at].0, at);
}

/// Giving a key a value, or taking one out, leaves the keys different.
pub proof fn lemma_keys_stay_different<V>(
    entries: Seq<(Seq<char>, V)>,
    key: Seq<char>,
    value: V,
)
    requires
        keys_differ(entries),
    ensures
        keys_differ(with_value(entries, key, value)),
        keys_differ(without_key(entries, key)),
{
    let more = with_value(entries, key, value);
    let less = without_key(entries, key);
    if has_key(entries, key) {
        lemma_key_index(entries, key);
    }
    let at = key_index(entries, key);
    assert forall|i: int, j: int| 0 <= i < j < more.len() implies (#[trigger] more[i]).0 != (
    #[trigger] more[j]).0 by {
        if has_key(entries, key) {
            assert(entries[i].0 != entries[j].0);
        } else {
            assert(more[i] == entries[i]);
            if j < entries.len() {
                assert(more[j] == entries[j]);
            }
        }
    }
    assert forall|i: int, j: int| 0 <= i < j < less.len() implies (#[trigger] less[i]).0 != (
    #[trigger] less[j]).0 by {
        if has_key(entries, key) {
            let a = if i < at {
                i
            } else {
                i + 1
            };
            let b = if j < at {
                j
            } else {
                j + 1
            };
            assert(less[i] == entries[a]);
            assert(less[j] == entries[b]);
        }
    }
}

/// The entries whose values pass a test.
pub open spec fn kept<V>(entries: Seq<(Seq<char>, V)>, keep: spec_fn(V) -> bool) -> Seq<
    (Seq<char>, V),
> {
    entries.filter(|e: (Seq<char>, V)| keep(e.1))
}

proof fn lemma_kept_entries<V>(entries: Seq<(Seq<char>, V)>, keep: spec_fn(V) -> bool)
    requires
        keys_differ(entries),
    ensures
        keys_differ(kept(entries, keep)),
        forall|e: (Seq<char>, V)| #[trigger]
            kept(entries, keep).contains(e) == (entries.contains(e) && keep(e.1)),
    decreases entries.len(),
{
    reveal(Seq::filter);
    if entries.len() > 0 {
        let init = entries.drop_last();
        let last = entries.last();
        let part = kept(init, keep);
        let all = kept(entries, keep);
        lemma_kept_entries(init, keep);
        assert(entries =~= init.push(last));
        assert forall|e: (Seq<char>, V)| #[trigger]
            all.contains(e) == (entries.contains(e) && keep(e.1)) by {
            assert(part.contains(e) == (init.contains(e) && keep(e.1)));
            lemma_pushed_contains(init, last, e);
            lemma_pushed_contains(part, last, e);
        }
        assert forall|i: int, j: int| 0 <= i < j < all.len() implies (#[trigger] all[i]).0 != (
        #[trigger] all[j]).0 by {
            assert(all[i] == part[i]);
            if j < part.len() {
                assert(all[j] == part[j]);
            } else {
                assert(part.contains(part[i]));
                assert(init.contains(part[i]));
                let k = choose|k: int| 0 <= k < init.len() && init[k] == part[i];
                assert(entries[k].0 != entries[entries.len() - 1].0);
            }
        }
    }
}

proof fn lemma_pushed_contains<A>(list: Seq<A>, last: A, a: A)
    ensures
        list.push(last).contains(a) == (list.contains(a) || a == last),
{
    let longer = list.push(last);
    if longer.contains(a) {
        let i = choose|i: int| 0 <= i < longer.len() && longer[i] == a;
        if i < list.len() {
            assert(list[i] == a);
        }
    }
    if list.contains(a) {
        let i = choose|i: int| 0 <= i < list.len() && list[i] == a;
        assert(longer[i] == a);
    }
    assert(longer[list.len() as int] == last);
}

/// A key keeps its value where the value passes the test, and is gone where it does not.
pub proof fn lemma_kept<V>(
    entries: Seq<(Seq<char>, V)>,
    keep: spec_fn(V) -> bool,
    key: Seq<char>,
)
    requires
        keys_differ(entries),
    ensures
        keys_differ(kept(entries, keep)),
        value_of(kept(entries, keep), key) == match value_of(entries, key) {
            Some(value) => if keep(value) {
                Some(value)
            } else {
                None
            },
            None => None,
        },
{
    let some = kept(entries, keep);
    lemma_kept_entries(entries, keep);
    if has_key(some, key) {
        lemma_key_index(some, key);
        let at = key_index(some, key);
        assert(some.contains(some[at]));
        assert(entries.contains(some[at]));
        let k = choose|k: int| 0 <= k < entries.len() && entries[k] == some[at];
        lemma_entry_holds_value(entries, k);
    } else if has_key(entries, key) {
        lemma_key_index(entries, key);
        let entry = entries[key_index(entries, key)];
        assert(entries.contains(entry));
        if keep(entry.1) {
            assert(some.contains(entry));
            let k = choose|k: int| 0 <= k < some.len() && some[k] == entry;
            assert(some[k].0 == key);
        }
    }
}

/// A value that was put in is found again, and no other key changes.
pub proof fn law_inserted_value_is_found<V>(
    entries: Seq<(Seq<char>, V)>,
    key: Seq<char>,
    value: V,
    other: Seq<char>,
)
    ensures
        value_of(with_value(entries, key, value), key) == Some(value),
        other != key ==> value_of(with_value(entries, key, value), other) == value_of(
            entries,
            other,
        ),
{
    let next = with_value(entries, key, value);
    if has_key(entries, key) {
        lemma_key_index(entries, key);
        let at = key_index(entries, key);
        lemma_index_is(next, key, at);
        if other != key {
            if has_key(entries, other) {
                lemma_key_index(entries, other);
                lemma_index_is(next, other, key_index(entries, other));
            } else if has_key(next, other) {
                lemma_key_index(next, other);
                let i = key_index(next, other);
                assert(entries[i].0 == other);
            }
        }
    } else {
        lemma_index_is(next, key, entries.len() as int);
        if other != key {
            if has_key(entries, other) {
                lemma_key_index(entries, other);
                assert forall|i: int| 0 <= i < key_index(entries, other) implies (
                #[trigger] next[i]).0 != other by {
                    assert(next[i] == entries[i]);
                }
                lemma_index_is(next, other, key_index(entries, other));
            } else if has_key(next, other) {
                lemma_key_index(next, other);
                let i = key_index(next, other);
                if i < entries.len() {
                    assert(entries[i].0 == other);
                }
            }
        }
    }
}

/// A key that was taken out is gone.
pub proof fn law_removed_key_is_gone<V>(entries: Seq<(Seq<char>, V)>, key: Seq<char>)
    requires
        keys_differ(entries),
    ensures
        !has_key(without_key(entries, key), key),
{
    if has_key(entries, key) {
        lemma_key_index(entries, key);
        let at = key_index(entries, key);
        let next = without_key(entries, key);
        assert forall|i: int| 0 <= i < next.len() implies (#[trigger] next[i]).0 != key by {
            if i >= at {
                assert(next[i] == entries[i + 1]);
                assert(entries[at].0 != entries[i + 1].0);
            } else {
                assert(next[i] == entries[i]);
            }
        }
    }
}

} // verus!
