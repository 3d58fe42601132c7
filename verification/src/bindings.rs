//! A small table from names to values, both strings, that keeps the order
//! in which the names were first bound. A table built by binding holds every
//! name once.

use vstd::prelude::*;

verus! {

/// One binding: a name and its value.
pub type Entry = (Seq<char>, Seq<char>);

/// The position of the first binding of `key`, or the length of `entries`
/// where there is none.
pub open spec fn position_of(entries: Seq<Entry>, key: Seq<char>) -> int
    decreases entries.len(),
{
    if entries.len() == 0 {
        0
    } else if entries[0].0 == key {
        0
    } else {
        1 + position_of(entries.drop_first(), key)
    }
}

/// The value bound to `key`, if any.
pub open spec fn lookup(entries: Seq<Entry>, key: Seq<char>) -> Option<Seq<char>> {
    let at = position_of(entries, key);
    if at < entries.len() {
        Some(entries[at].1)
    } else {
        None
    }
}

/// The table after binding `key` to `value`: a name that is bound already
/// keeps its place and gets the new value, a new name goes to the end.
pub open spec fn bind(entries: Seq<Entry>, key: Seq<char>, value: Seq<char>) -> Seq<Entry> {
    let at = position_of(entries, key);
    if at < entries.len() {
        entries.update(at, (key, value))
    } else {
        entries.push((key, value))
    }
}

/// The table after binding every entry of `more`, first to last.
pub open spec fn bind_all(entries: Seq<Entry>, more: Seq<Entry>) -> Seq<Entry>
    decreases more.len(),
{
    if more.len() == 0 {
        entries
    } else {
        bind(bind_all(entries, more.drop_last()), more.last().0, more.last().1)
    }
}

/// `position_of` is a valid position or the length, and no earlier entry
/// has the key.
pub proof fn lemma_position_of(entries: Seq<Entry>, key: Seq<char>)
    ensures
        0 <= position_of(entries, key) <= entries.len(),
        position_of(entries, key) < entries.len() ==> entries[position_of(entries, key)].0 == key,
        forall|i: int| 0 <= i < position_of(entries, key) ==> (#[trigger] entries[i]).0 != key,
    decreases entries.len(),
{
    if entries.len() > 0 && entries[0].0 != key {
        let rest = entries.drop_first();
        lemma_position_of(rest, key);
        assert forall|i: int| 0 <= i < position_of(entries, key) implies (#[trigger] entries[i]).0
            != key by {
            if i > 0 {
                assert(rest[i - 1] == entries[i]);
            }
        }
    }
}

/// A position whose entry has the key, with no such entry before it, is
/// `position_of`.
pub proof fn lemma_position_found(entries: Seq<Entry>, key: Seq<char>, at: int)
    requires
        0 <= at <= entries.len(),
        at < entries.len() ==> entries[at].0 == key,
        forall|i: int| 0 <= i < at ==> (#[trigger] entries[i]).0 != key,
    ensures
        position_of(entries, key) == at,
    decreases entries.len(),
{
    if entries.len() > 0 && at > 0 {
        let rest = entries.drop_first();
        assert(entries[0].0 != key);
        assert forall|i: int| 0 <= i < at - 1 implies (#[trigger] rest[i]).0 != key by {
            assert(rest[i] == entries[i + 1]);
        }
        lemma_position_found(rest, key, at - 1);
    }
}

/// After `bind`, the key has the new value and every other key has what
/// it had.
pub proof fn lemma_bind_lookup(entries: Seq<Entry>, key: Seq<char>, value: Seq<char>)
    ensures
        lookup(bind(entries, key, value), key) == Some(value),
        forall|other: Seq<char>|
            other != key ==> lookup(bind(entries, key, value), other) == lookup(entries, other),
{
    let after = bind(entries, key, value);
    let at = position_of(entries, key);
    lemma_position_of(entries, key);
    lemma_position_found(after, key, at);
    assert forall|other: Seq<char>| other != key implies lookup(after, other) == lookup(
        entries,
        other,
    ) by {
        let p = position_of(entries, other);
        lemma_position_of(entries, other);
        if p < entries.len() {
            assert(p != at);
            lemma_position_found(after, other, p);
        } else {
            assert forall|i: int| 0 <= i < after.len() implies (#[trigger] after[i]).0
                != other by {
                if i < entries.len() && i != at {
                    assert(after[i] == entries[i]);
                }
            }
            lemma_position_found(after, other, after.len() as int);
        }
    }
}

/// Whether no name is bound twice.
pub open spec fn distinct_keys(entries: Seq<Entry>) -> bool {
    forall|i: int, j: int|
        0 <= i < entries.len() && 0 <= j < entries.len() && i != j ==> (#[trigger] entries[i]).0
            != (#[trigger] entries[j]).0
}

/// Binding keeps every name bound once.
pub proof fn lemma_bind_distinct(entries: Seq<Entry>, key: Seq<char>, value: Seq<char>)
    requires
        distinct_keys(entries),
    ensures
        distinct_keys(bind(entries, key, value)),
{
    let after = bind(entries, key, value);
    let at = position_of(entries, key);
    lemma_position_of(entries, key);
    assert forall|i: int, j: int|
        0 <= i < after.len() && 0 <= j < after.len() && i != j implies (#[trigger] after[i]).0
        != (#[trigger] after[j]).0 by {
        if at < entries.len() {
            assert(after[i].0 == entries[i].0);
            assert(after[j].0 == entries[j].0);
        } else {
            if i < entries.len() && j < entries.len() {
                assert(after[i] == entries[i]);
                assert(after[j] == entries[j]);
            } else if i < entries.len() {
                assert(after[i] == entries[i]);
            } else {
                assert(after[j] == entries[j]);
            }
        }
    }
}

/// Binding a series of entries keeps every name bound once.
pub proof fn lemma_bind_all_distinct(entries: Seq<Entry>, more: Seq<Entry>)
    requires
        distinct_keys(entries),
    ensures
        distinct_keys(bind_all(entries, more)),
    decreases more.len(),
{
    if more.len() > 0 {
        lemma_bind_all_distinct(entries, more.drop_last());
        lemma_bind_distinct(bind_all(entries, more.drop_last()), more.last().0, more.last().1);
    }
}

/// Where every name is bound once, every binding is found under its name.
pub proof fn lemma_distinct_lookup(entries: Seq<Entry>, i: int)
    requires
        distinct_keys(entries),
        0 <= i < entries.len(),
    ensures
        lookup(entries, entries[i].0) == Some(entries[i].1),
{
    assert forall|k: int| 0 <= k < i implies (#[trigger] entries[k]).0 != entries[i].0 by {}
    lemma_position_found(entries, entries[i].0, i);
}

/// A table from names to values. Its model, `self@`, is the sequence of
/// its bindings.
#[derive(Debug)]
pub struct Bindings {
    entries: Vec<(String, String)>,
}

impl View for Bindings {
    type V = Seq<Entry>;

    closed spec fn view(&self) -> Seq<Entry> {
        Seq::new(self.entries@.len(), |i: int| (self.entries@[i].0@, self.entries@[i].1@))
    }
}

impl Clone for Bindings {
    fn clone(&self) -> (r: Bindings)
        ensures
            r@ == self@,
    {
        let mut entries: Vec<(String, String)> = Vec::new();
        let mut i: usize = 0;
        while i < self.entries.len()
            invariant
                i <= self.entries.len(),
                entries@.len() == i,
                forall|k: int|
                    0 <= k < i ==> (#[trigger] entries@[k]).0@ == self.entries@[k].0@
                        && entries@[k].1@ == self.entries@[k].1@,
            decreases self.entries.len() - i,
        {
            entries.push((self.entries[i].0.clone(), self.entries[i].1.clone()));
            i += 1;
        }
        let r = Bindings { entries };
        proof {
            assert(r@ =~= self@);
        }
        r
    }
}

impl Bindings {
    /// The empty table.
    pub fn new() -> (r: Bindings)
        ensures
            r@ == Seq::<Entry>::empty(),
            distinct_keys(r@),
    {
        let r = Bindings { entries: Vec::new() };
        proof {
            assert(r@ =~= Seq::<Entry>::empty());
        }
        r
    }

    /// The number of bindings.
    pub fn len(&self) -> (n: usize)
        ensures
            n == self@.len(),
    {
        self.entries.len()
    }

    /// Whether the table has no binding.
    pub fn is_empty(&self) -> (r: bool)
        ensures
            r == (self@.len() == 0),
    {
        self.entries.len() == 0
    }

    /// The name of the binding at position `i`.
    pub fn key_at(&self, i: usize) -> (r: &String)
        requires
            i < self@.len(),
        ensures
            r@ == self@[i as int].0,
    {
        &self.entries[i].0
    }

    /// The value of the binding at position `i`.
    pub fn value_at(&self, i: usize) -> (r: &String)
        requires
            i < self@.len(),
        ensures
            r@ == self@[i as int].1,
    {
        &self.entries[i].1
    }

    /// The position of the first binding of `key`, or `len()`.
    fn find(&self, key: &String) -> (at: usize)
        ensures
            at == position_of(self@, key@),
            at <= self@.len(),
    {
        let mut i: usize = 0;
        while i < self.entries.len()
            invariant
                i <= self.entries.len(),
                forall|k: int| 0 <= k < i ==> (#[trigger] self@[k]).0 != key@,
            decreases self.entries.len() - i,
        {
            if self.entries[i].0 == *key {
                proof {
                    lemma_position_found(self@, key@, i as int);
                }
                return i;
            }
            i += 1;
        }
        proof {
            lemma_position_found(self@, key@, i as int);
        }
        i
    }

    /// The value bound to `key`, if any.
    pub fn get(&self, key: &str) -> (r: Option<&String>)
        ensures
            match r {
                Some(v) => lookup(self@, key@) == Some(v@),
                None => lookup(self@, key@) is None,
            },
    {
        let owned = key.to_owned();
        let at = self.find(&owned);
        if at < self.entries.len() {
            Some(&self.entries[at].1)
        } else {
            None
        }
    }

    /// Whether `key` is bound.
    pub fn contains_key(&self, key: &str) -> (r: bool)
        ensures
            r == lookup(self@, key@).is_some(),
    {
        let owned = key.to_owned();
        let at = self.find(&owned);
        at < self.entries.len()
    }

    /// Binds `key` to `value`.
    pub fn insert(&mut self, key: String, value: String)
        ensures
            final(self)@ == bind(old(self)@, key@, value@),
            distinct_keys(old(self)@) ==> distinct_keys(final(self)@),
    {
        proof {
            if distinct_keys(old(self)@) {
                lemma_bind_distinct(old(self)@, key@, value@);
            }
        }
        let at = self.find(&key);
        if at < self.entries.len() {
            self.entries.set(at, (key, value));
        } else {
            self.entries.push((key, value));
        }
        proof {
            assert(self@ =~= bind(old(self)@, key@, value@));
        }
    }
}

} // verus!
