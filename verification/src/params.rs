//! The parameters of a request: a mapping from names to values in which no
//! name occurs twice.

use vstd::prelude::*;
use crate::text::str_same;

verus! {

/// The mapping that a sequence of entries stands for. Of two entries with the
/// same name, the later one counts.
pub open spec fn entries_map(entries: Seq<(String, String)>) -> Map<Seq<char>, Seq<char>>
    decreases entries.len(),
{
    if entries.len() == 0 {
        Map::empty()
    } else {
        entries_map(entries.drop_last()).insert(entries.last().0@, entries.last().1@)
    }
}

/// Whether no two entries have the same name.
pub open spec fn distinct_names(entries: Seq<(String, String)>) -> bool {
    forall|i: int, j: int|
        0 <= i < j < entries.len() ==> (#[trigger] entries[i]).0@ != (#[trigger] entries[j]).0@
}

/// Entries with distinct names, but for the last, still have distinct names.
pub proof fn lemma_distinct_front(entries: Seq<(String, String)>)
    requires
        distinct_names(entries),
        entries.len() > 0,
    ensures
        distinct_names(entries.drop_last()),
{
    let front = entries.drop_last();
    assert forall|i: int, j: int| 0 <= i < j < front.len() implies (#[trigger] front[i]).0@ != (
    #[trigger] front[j]).0@ by {
        assert(front[i] == entries[i] && front[j] == entries[j]);
    }
}

/// A name that no entry has is not bound.
pub proof fn lemma_unbound(entries: Seq<(String, String)>, name: Seq<char>)
    requires
        forall|i: int| 0 <= i < entries.len() ==> (#[trigger] entries[i]).0@ != name,
    ensures
        !entries_map(entries).dom().contains(name),
    decreases entries.len(),
{
    if entries.len() > 0 {
        let front = entries.drop_last();
        assert forall|i: int| 0 <= i < front.len() implies (#[trigger] front[i]).0@ != name by {
            assert(front[i] == entries[i]);
        }
        lemma_unbound(front, name);
        assert(entries[entries.len() - 1].0@ != name);
    }
}

/// Where the names are distinct, each entry's name is bound to its value.
pub proof fn lemma_bound(entries: Seq<(String, String)>, i: int)
    requires
        distinct_names(entries),
        0 <= i < entries.len(),
    ensures
        entries_map(entries).dom().contains(entries[i].0@),
        entries_map(entries)[entries[i].0@] == entries[i].1@,
    decreases entries.len(),
{
    if i < entries.len() - 1 {
        let front = entries.drop_last();
        lemma_distinct_front(entries);
        lemma_bound(front, i);
        assert(front[i] == entries[i]);
        assert(entries[i].0@ != entries[entries.len() - 1].0@);
    }
}

/// The parameters of a request.
pub struct Params {
    entries: Vec<(String, String)>,
}

impl View for Params {
    type V = Map<Seq<char>, Seq<char>>;

    closed spec fn view(&self) -> Map<Seq<char>, Seq<char>> {
        entries_map(self.entries@)
    }
}

impl Params {
    #[verifier::type_invariant]
    spec fn distinct(&self) -> bool {
        distinct_names(self.entries@)
    }

    /// Parameters with no entry.
    pub fn new() -> (params: Params)
        ensures
            params@ == Map::<Seq<char>, Seq<char>>::empty(),
    {
        Params { entries: Vec::new() }
    }

    /// Binds `name` to `value`, in place of what `name` was bound to, and
    /// gives the value that it was bound to.
    pub fn insert(&mut self, name: &str, value: String) -> (previous: Option<String>)
        ensures
            final(self)@ == old(self)@.insert(name@, value@),
            match previous {
                Some(was) => old(self)@.dom().contains(name@) && was@ == old(self)@[name@],
                None => !old(self)@.dom().contains(name@),
            },
    {
        proof {
            use_type_invariant(&*self);
        }
        let ghost before = self.entries@;
        let mut taken = Params { entries: Vec::new() };
        core::mem::swap(self, &mut taken);
        let mut entries = taken.entries;
        let mut i: usize = 0;
        while i < entries.len()
            invariant
                i <= entries.len(),
                entries@ == before,
                old(self)@ == entries_map(before),
                distinct_names(before),
                forall|k: int| 0 <= k < i ==> (#[trigger] before[k]).0@ != name@,
            decreases entries.len() - i,
        {
            if str_same(entries[i].0.as_str(), name) {
                let was = entries[i].1.clone();
                let entry = (name.to_owned(), value);
                proof {
                    lemma_bound(before, i as int);
                    lemma_update_entry(before, i as int, entry);
                }
                entries.set(i, entry);
                *self = Params { entries };
                return Some(was);
            }
            i = i + 1;
        }
        entries.push((name.to_owned(), value));
        proof {
            lemma_unbound(before, name@);
            assert(entries@.drop_last() =~= before);
            assert(distinct_names(entries@)) by {
                assert forall|a: int, b: int| 0 <= a < b < entries@.len() implies (
                #[trigger] entries@[a]).0@ != (#[trigger] entries@[b]).0@ by {
                    if b < before.len() {
                        assert(before[a] == entries@[a] && before[b] == entries@[b]);
                    } else {
                        assert(before[a] == entries@[a]);
                    }
                }
            }
        }
        *self = Params { entries };
        None
    }

    /// The value that `name` is bound to.
    pub fn get(&self, name: &str) -> (value: Option<&String>)
        ensures
            match value {
                Some(found) => self@.dom().contains(name@) && found@ == self@[name@],
                None => !self@.dom().contains(name@),
            },
    {
        proof {
            use_type_invariant(self);
        }
        let mut i: usize = 0;
        while i < self.entries.len()
            invariant
                i <= self.entries.len(),
                distinct_names(self.entries@),
                forall|k: int| 0 <= k < i ==> (#[trigger] self.entries@[k]).0@ != name@,
            decreases self.entries.len() - i,
        {
            if str_same(self.entries[i].0.as_str(), name) {
                proof {
                    lemma_bound(self.entries@, i as int);
                }
                return Some(&self.entries[i].1);
            }
            i = i + 1;
        }
        proof {
            lemma_unbound(self.entries@, name@);
        }
        None
    }

    /// How many names are bound.
    pub fn len(&self) -> (n: usize)
        ensures
            n == self@.dom().len(),
    {
        proof {
            use_type_invariant(self);
            lemma_entries_count(self.entries@);
        }
        self.entries.len()
    }

    /// Whether no name is bound.
    pub fn is_empty(&self) -> (empty: bool)
        ensures
            empty == (self@ == Map::<Seq<char>, Seq<char>>::empty()),
    {
        proof {
            use_type_invariant(self);
            lemma_entries_count(self.entries@);
            lemma_entries_finite(self.entries@);
            if self.entries@.len() == 0 {
            } else {
                assert(self@.dom().len() > 0);
                assert(self@ != Map::<Seq<char>, Seq<char>>::empty());
            }
        }
        self.entries.len() == 0
    }

    /// The entries, each name once: what a sender walks through to send
    /// them.
    pub fn entries(&self) -> (entries: &Vec<(String, String)>)
        ensures
            self@ == entries_map(entries@),
            distinct_names(entries@),
    {
        proof {
            use_type_invariant(self);
        }
        &self.entries
    }
}

/// The names of finitely many entries are finitely many.
pub proof fn lemma_entries_finite(entries: Seq<(String, String)>)
    ensures
        entries_map(entries).dom().finite(),
    decreases entries.len(),
{
    if entries.len() > 0 {
        lemma_entries_finite(entries.drop_last());
    }
}

/// Entries with distinct names bind as many names as there are entries.
pub proof fn lemma_entries_count(entries: Seq<(String, String)>)
    requires
        distinct_names(entries),
    ensures
        entries_map(entries).dom().len() == entries.len(),
    decreases entries.len(),
{
    if entries.len() > 0 {
        let front = entries.drop_last();
        lemma_distinct_front(entries);
        lemma_entries_count(front);
        lemma_entries_finite(front);
        assert forall|i: int| 0 <= i < front.len() implies (#[trigger] front[i]).0@
            != entries.last().0@ by {
            assert(front[i] == entries[i]);
            assert(entries[i].0@ != entries[entries.len() - 1].0@);
        }
        lemma_unbound(front, entries.last().0@);
    }
}

/// Putting another value under a name that an entry has already binds the
/// name to that value and keeps the names distinct.
proof fn lemma_update_entry(entries: Seq<(String, String)>, i: int, put: (String, String))
    requires
        distinct_names(entries),
        0 <= i < entries.len(),
        entries[i].0@ == put.0@,
    ensures
        distinct_names(entries.update(i, put)),
        entries_map(entries.update(i, put)) == entries_map(entries).insert(put.0@, put.1@),
    decreases entries.len(),
{
    let updated = entries.update(i, put);
    assert forall|a: int, b: int| 0 <= a < b < updated.len() implies (#[trigger] updated[a]).0@ != (
    #[trigger] updated[b]).0@ by {
        assert(entries[a].0@ != entries[b].0@);
    }
    let front = entries.drop_last();
    lemma_distinct_front(entries);
    if i == entries.len() - 1 {
        assert(updated.drop_last() =~= front);
        assert(entries_map(updated) =~= entries_map(entries).insert(put.0@, put.1@));
    } else {
        lemma_update_entry(front, i, put);
        assert(updated.drop_last() =~= front.update(i, put));
        assert(entries[i].0@ != entries[entries.len() - 1].0@);
        assert(entries_map(updated) =~= entries_map(entries).insert(put.0@, put.1@));
    }
}

} // verus!
