//! The header mapping of a request or a response: names to values, one value
//! per name, kept in the order in which the names first arrived.

use vstd::prelude::*;

verus! {

/// What a header mapping holds, as a sequence of (name, value) pairs.
pub type Entries = Seq<(Seq<char>, Seq<char>)>;

/// The first index at or after `from` whose entry is named `key`; the number
/// of entries if there is none.
pub open spec fn find_key(entries: Entries, key: Seq<char>, from: int) -> int
    decreases entries.len() - from,
{
    if 0 <= from < entries.len() && entries[from].0 != key {
        find_key(entries, key, from + 1)
    } else {
        from
    }
}

/// Whether some entry is named `key`.
pub open spec fn has_key(entries: Entries, key: Seq<char>) -> bool {
    find_key(entries, key, 0) < entries.len()
}

/// No name occurs in two entries.
pub open spec fn distinct_keys(entries: Entries) -> bool {
    forall|i: int, j: int|
        0 <= i < j < entries.len() ==> (#[trigger] entries[i]).0 != (#[trigger] entries[j]).0
}

/// The entries after `key` has been given `value`: an entry of that name
/// keeps its place and takes the new value, a new name goes to the end.
pub open spec fn insert_entry(entries: Entries, key: Seq<char>, value: Seq<char>) -> Entries {
    let at = find_key(entries, key, 0);
    if at < entries.len() {
        entries.update(at, (key, value))
    } else {
        entries.push((key, value))
    }
}

/// The mapping that the entries stand for.
pub open spec fn as_map(entries: Entries) -> Map<Seq<char>, Seq<char>> {
    Map::new(
        |key: Seq<char>| has_key(entries, key),
        |key: Seq<char>| entries[find_key(entries, key, 0)].1,
    )
}

/// `find_key` stays within the entries, passes over no entry of the name it
/// looks for, and stops at one if it stops before the end.
pub proof fn lemma_find_key(entries: Entries, key: Seq<char>, from: int)
    requires
        0 <= from <= entries.len(),
    ensures
        from <= find_key(entries, key, from) <= entries.len(),
        forall|i: int| from <= i < find_key(entries, key, from) ==> (#[trigger] entries[i]).0 != key,
        find_key(entries, key, from) < entries.len() ==> entries[find_key(entries, key, from)].0
            == key,
    decreases entries.len() - from,
{
    if from < entries.len() && entries[from].0 != key {
        lemma_find_key(entries, key, from + 1);
    }
}

/// An index whose entry is named `key`, with no such entry before it, is the
/// one that `find_key` finds; if no entry has the name, it finds the end.
pub proof fn lemma_find_key_is(entries: Entries, key: Seq<char>, from: int, at: int)
    requires
        0 <= from <= at <= entries.len(),
        forall|i: int| from <= i < at ==> (#[trigger] entries[i]).0 != key,
        at < entries.len() ==> entries[at].0 == key,
    ensures
        find_key(entries, key, from) == at,
    decreases at - from,
{
    if from < at {
        lemma_find_key_is(entries, key, from + 1, at);
    }
}

/// Giving a name a value keeps names distinct.
pub proof fn lemma_insert_keeps_distinct(entries: Entries, key: Seq<char>, value: Seq<char>)
    requires
        distinct_keys(entries),
    ensures
        distinct_keys(insert_entry(entries, key, value)),
{
    lemma_find_key(entries, key, 0);
    let at = find_key(entries, key, 0);
    let after = insert_entry(entries, key, value);
    assert forall|i: int, j: int| 0 <= i < j < after.len() implies (#[trigger] after[i]).0 != (
    #[trigger] after[j]).0 by {
        if at < entries.len() {
            assert(entries[i].0 != entries[j].0);
        } else if j < entries.len() {
            assert(entries[i].0 != entries[j].0);
        } else {
            assert(entries[i].0 != key);
        }
    }
}

/// Last write wins: after `key` has been given `value`, the mapping is the
/// one before with `key` mapped to `value`, whatever it held for `key`.
pub proof fn lemma_insert_is_map_insert(entries: Entries, key: Seq<char>, value: Seq<char>)
    ensures
        as_map(insert_entry(entries, key, value)) == as_map(entries).insert(key, value),
{
    let at = find_key(entries, key, 0);
    let after = insert_entry(entries, key, value);
    lemma_find_key(entries, key, 0);
    assert forall|k: Seq<char>|
        #![trigger find_key(after, k, 0)]
        find_key(after, k, 0) == (if k == key {
            at
        } else if has_key(entries, k) {
            find_key(entries, k, 0)
        } else {
            after.len() as int
        }) by {
        lemma_find_key(entries, k, 0);
        let found = if k == key {
            at
        } else if has_key(entries, k) {
            find_key(entries, k, 0)
        } else {
            after.len() as int
        };
        assert forall|i: int| 0 <= i < found implies (#[trigger] after[i]).0 != k by {
            if i < entries.len() {
                assert(entries[i].0 != k || i == at);
            }
        }
        lemma_find_key_is(after, k, 0, found);
    }
    assert forall|k: Seq<char>| #[trigger]
        has_key(after, k) implies has_key(after, k) == (k == key || has_key(entries, k))
        && as_map(after)[k] == as_map(entries).insert(key, value)[k] by {
        lemma_find_key(entries, k, 0);
    }
    assert forall|k: Seq<char>| k == key || #[trigger] has_key(entries, k) implies has_key(
        after,
        k,
    ) by {
        lemma_find_key(entries, k, 0);
    }
    assert(as_map(after) =~= as_map(entries).insert(key, value));
}

/// A mapping from header names to header values.
///
/// A name has at most one value. The entries keep the order in which their
/// names were first inserted, and that is the order in which they are
/// written out.
#[derive(Debug)]
pub struct HeaderMap {
    entries: Vec<(String, String)>,
}

impl View for HeaderMap {
    type V = Map<Seq<char>, Seq<char>>;

    open spec fn view(&self) -> Map<Seq<char>, Seq<char>> {
        as_map(self.entries())
    }
}

impl HeaderMap {
    /// The entries, in order.
    pub closed spec fn entries(&self) -> Entries {
        Seq::new(self.entries@.len(), |i: int| (self.entries@[i].0@, self.entries@[i].1@))
    }

    #[verifier::type_invariant]
    spec fn distinct(&self) -> bool {
        distinct_keys(self.entries())
    }

    /// A mapping without entries.
    pub fn new() -> (headers: HeaderMap)
        ensures
            headers.entries() == Entries::empty(),
    {
        let headers = HeaderMap { entries: Vec::new() };
        assert(headers.entries() =~= Entries::empty());
        headers
    }

    /// The number of entries.
    pub fn len(&self) -> (n: usize)
        ensures
            n == self.entries().len(),
            distinct_keys(self.entries()),
    {
        proof {
            use_type_invariant(self);
        }
        self.entries.len()
    }

    /// The name of the entry at `index`.
    pub fn key_at(&self, index: usize) -> (key: &String)
        requires
            index < self.entries().len(),
        ensures
            key@ == self.entries()[index as int].0,
    {
        &self.entries[index].0
    }

    /// The value of the entry at `index`.
    pub fn value_at(&self, index: usize) -> (value: &String)
        requires
            index < self.entries().len(),
        ensures
            value@ == self.entries()[index as int].1,
    {
        &self.entries[index].1
    }

    /// Where the entry named `key` stands; the number of entries if there is
    /// none.
    fn position(&self, key: &String) -> (at: usize)
        ensures
            at == find_key(self.entries(), key@, 0),
            at <= self.entries().len(),
    {
        let mut at: usize = 0;
        while at < self.entries.len()
            invariant
                at <= self.entries@.len(),
                forall|i: int| 0 <= i < at ==> (#[trigger] self.entries()[i]).0 != key@,
            decreases self.entries@.len() - at,
        {
            if self.entries[at].0 == *key {
                proof {
                    lemma_find_key_is(self.entries(), key@, 0, at as int);
                }
                return at;
            }
            assert(self.entries()[at as int].0 != key@);
            at = at + 1;
        }
        proof {
            lemma_find_key_is(self.entries(), key@, 0, at as int);
        }
        at
    }

    /// The value held for `key`, if any.
    pub fn get(&self, key: &String) -> (value: Option<&String>)
        ensures
            match value {
                Some(v) => self@.contains_key(key@) && v@ == self@[key@],
                None => !self@.contains_key(key@),
            },
    {
        let at = self.position(key);
        if at < self.entries.len() {
            Some(&self.entries[at].1)
        } else {
            None
        }
    }

    /// Gives `key` the value `value`. A value held for `key` before is
    /// replaced, and the entry keeps its place; a new name goes to the end.
    pub fn insert(&mut self, key: String, value: String)
        ensures
            final(self).entries() == insert_entry(old(self).entries(), key@, value@),
            final(self)@ == old(self)@.insert(key@, value@),
            distinct_keys(final(self).entries()),
    {
        proof {
            use_type_invariant(&*self);
            lemma_insert_keeps_distinct(self.entries(), key@, value@);
            lemma_insert_is_map_insert(self.entries(), key@, value@);
        }
        let at = self.position(&key);
        let mut entries: Vec<(String, String)> = Vec::new();
        core::mem::swap(&mut self.entries, &mut entries);
        if at < entries.len() {
            entries.set(at, (key, value));
        } else {
            entries.push((key, value));
        }
        assert(Seq::new(entries@.len(), |i: int| (entries@[i].0@, entries@[i].1@)) =~= insert_entry(
            old(self).entries(),
            key@,
            value@,
        ));
        self.entries = entries;
    }
}

} // verus!
