//! Tables: values under names, kept in the order of the names.

use vstd::prelude::*;

use crate::order::{
    before_or_at, lemma_antisymmetric, lemma_total, lemma_transitive, not_after,
};
use crate::text::{same, Text};

verus! {

/// A table with at most one value under each name.
#[derive(Debug)]
pub struct Table<V> {
    entries: Vec<(String, V)>,
}

/// Whether `a` stands before `b`.
pub open spec fn before(a: Text, b: Text) -> bool {
    not_after(a, b) && a != b
}

/// Whether entries stand in the order of their names, no name twice.
pub open spec fn strictly_ordered<V>(entries: Seq<(Text, V)>) -> bool {
    forall|i: int, j: int|
        0 <= i < j < entries.len() ==> before((#[trigger] entries[i]).0, (#[trigger] entries[j]).0)
}

/// The value under a name.
pub open spec fn lookup<V>(entries: Seq<(Text, V)>, name: Text) -> Option<V>
    decreases entries.len(),
{
    if entries.len() == 0 {
        None
    } else if entries[0].0 == name {
        Some(entries[0].1)
    } else {
        lookup(entries.skip(1), name)
    }
}

/// The number of entries whose names stand before a name.
pub open spec fn place<V>(entries: Seq<(Text, V)>, name: Text) -> nat
    decreases entries.len(),
{
    if entries.len() > 0 && before(entries[0].0, name) {
        1 + place(entries.skip(1), name)
    } else {
        0
    }
}

/// The entries after a value has been put under a name: the value that was there is replaced.
pub open spec fn put<V>(entries: Seq<(Text, V)>, name: Text, value: V) -> Seq<(Text, V)> {
    let at = place(entries, name) as int;
    if at < entries.len() && entries[at].0 == name {
        entries.update(at, (name, value))
    } else {
        entries.insert(at, (name, value))
    }
}

impl<V> Table<V> {
    /// The entries, in the order of their names.
    pub closed spec fn view(&self) -> Seq<(Text, V)> {
        self.entries@.map_values(|entry: (String, V)| (entry.0@, entry.1))
    }

    #[verifier::type_invariant]
    spec fn well_formed(self) -> bool {
        strictly_ordered(self.view())
    }

    /// An empty table.
    pub fn new() -> (r: Self)
        ensures
            r@ == Seq::<(Text, V)>::empty(),
    {
        let r = Table { entries: Vec::new() };
        assert(r@ =~= Seq::<(Text, V)>::empty());
        r
    }

    /// The number of entries. They stand in the order of their names, no name twice.
    pub fn len(&self) -> (r: usize)
        ensures
            r == self@.len(),
            strictly_ordered(self@),
    {
        proof {
            use_type_invariant(self);
        }
        self.entries.len()
    }

    /// The name of an entry.
    pub fn name(&self, at: usize) -> (r: &String)
        requires
            at < self@.len(),
        ensures
            r@ == self@[at as int].0,
    {
        &self.entries[at].0
    }

    /// The value of an entry.
    pub fn value(&self, at: usize) -> (r: &V)
        requires
            at < self@.len(),
        ensures
            *r == self@[at as int].1,
    {
        &self.entries[at].1
    }

    /// The value under a name.
    pub fn get(&self, name: &str) -> (r: Option<&V>)
        ensures
            match r {
                Some(value) => lookup(self@, name@) == Some(*value),
                None => lookup(self@, name@) is None,
            },
    {
        let mut i: usize = 0;
        assert(self@.skip(0) =~= self@);
        while i < self.entries.len()
            invariant
                i <= self@.len(),
                lookup(self@, name@) == lookup(self@.skip(i as int), name@),
            decreases self@.len() - i,
        {
            if same(self.entries[i].0.as_str(), name) {
                return Some(&self.entries[i].1);
            }
            assert(self@.skip(i as int).skip(1) =~= self@.skip(i + 1));
            i = i + 1;
        }
        None
    }

    /// Puts a value under a name.
    pub fn insert(&mut self, name: String, value: V)
        ensures
            final(self)@ == put(old(self)@, name@, value),
    {
        proof {
            use_type_invariant(&*self);
        }
        let ghost all = self@;
        let ghost key = name@;
        let mut entries: Vec<(String, V)> = Vec::new();
        assert(entries@.map_values(|entry: (String, V)| (entry.0@, entry.1)) =~= Seq::empty());
        std::mem::swap(&mut entries, &mut self.entries);
        let mut at: usize = 0;
        assert(all.skip(0) =~= all);
        while at < entries.len() && before_or_at(entries[at].0.as_str(), name.as_str()) && !same(
            entries[at].0.as_str(),
            name.as_str(),
        )
            invariant
                all == entries@.map_values(|entry: (String, V)| (entry.0@, entry.1)),
                key == name@,
                at <= all.len(),
                place(all, key) == at + place(all.skip(at as int), key),
                forall|i: int| 0 <= i < at ==> before((#[trigger] all[i]).0, key),
            decreases all.len() - at,
        {
            assert(all.skip(at as int)[0] == all[at as int]);
            assert(all.skip(at as int).skip(1) =~= all.skip(at + 1));
            at = at + 1;
        }
        assert(place(all.skip(at as int), key) == 0) by {
            if at < all.len() {
                assert(all.skip(at as int)[0] == all[at as int]);
            }
        }
        proof {
            lemma_put_ordered(all, key, value);
        }
        if at < entries.len() && same(entries[at].0.as_str(), name.as_str()) {
            entries.set(at, (name, value));
        } else {
            entries.insert(at, (name, value));
        }
        assert(entries@.map_values(|entry: (String, V)| (entry.0@, entry.1)) =~= put(
            all,
            key,
            value,
        ));
        self.entries = entries;
    }
}

proof fn lemma_place<V>(entries: Seq<(Text, V)>, name: Text)
    ensures
        place(entries, name) <= entries.len(),
        forall|i: int| 0 <= i < place(entries, name) ==> before((#[trigger] entries[i]).0, name),
        place(entries, name) < entries.len() ==> !before(
            entries[place(entries, name) as int].0,
            name,
        ),
    decreases entries.len(),
{
    if entries.len() > 0 && before(entries[0].0, name) {
        let rest = entries.skip(1);
        lemma_place(rest, name);
        assert forall|i: int| 0 <= i < place(entries, name) implies before(
            (#[trigger] entries[i]).0,
            name,
        ) by {
            if i > 0 {
                assert(rest[i - 1] == entries[i]);
            }
        }
    }
}

pub proof fn lemma_put_ordered<V>(entries: Seq<(Text, V)>, name: Text, value: V)
    requires
        strictly_ordered(entries),
    ensures
        strictly_ordered(put(entries, name, value)),
{
    lemma_place(entries, name);
    let at = place(entries, name) as int;
    let after = put(entries, name, value);
    assert forall|i: int| at <= i < entries.len() && entries[i].0 != name implies before(
        name,
        (#[trigger] entries[i]).0,
    ) by {
        lemma_total(entries[at].0, name);
        if i > at {
            if entries[at].0 != name {
                lemma_transitive(name, entries[at].0, entries[i].0);
            }
        }
    }
    if at < entries.len() && entries[at].0 == name {
        assert forall|i: int, j: int| 0 <= i < j < after.len() implies before(
            (#[trigger] after[i]).0,
            (#[trigger] after[j]).0,
        ) by {
            assert(after[i].0 == entries[i].0);
            assert(after[j].0 == entries[j].0);
        }
    } else {
        assert forall|i: int| at <= i < entries.len() implies (#[trigger] entries[i]).0 != name by {
            if i > at && entries[i].0 == name {
                lemma_total(entries[at].0, name);
                lemma_antisymmetric(entries[at].0, name);
            }
        }
        assert forall|i: int, j: int| 0 <= i < j < after.len() implies before(
            (#[trigger] after[i]).0,
            (#[trigger] after[j]).0,
        ) by {
            if i < at {
                assert(after[i] == entries[i]);
            } else if i > at {
                assert(after[i] == entries[i - 1]);
            }
            if j < at {
                assert(after[j] == entries[j]);
            } else if j > at {
                assert(after[j] == entries[j - 1]);
            }
        }
    }
}

proof fn lemma_lookup<V>(entries: Seq<(Text, V)>, name: Text)
    ensures
        match lookup(entries, name) {
            Some(value) => exists|i: int|
                0 <= i < entries.len() && #[trigger] entries[i] == (name, value) && forall|j: int|
                    0 <= j < i ==> (#[trigger] entries[j]).0 != name,
            None => forall|i: int| 0 <= i < entries.len() ==> (#[trigger] entries[i]).0 != name,
        },
    decreases entries.len(),
{
    if entries.len() > 0 {
        if entries[0].0 == name {
            assert(entries[0] == (name, entries[0].1));
        } else {
            let rest = entries.skip(1);
            lemma_lookup(rest, name);
            match lookup(rest, name) {
                Some(value) => {
                    let i = choose|i: int|
                        0 <= i < rest.len() && #[trigger] rest[i] == (name, value) && forall|j: int|
                            0 <= j < i ==> (#[trigger] rest[j]).0 != name;
                    assert(entries[i + 1] == (name, value));
                    assert forall|j: int| 0 <= j < i + 1 implies (#[trigger] entries[j]).0
                        != name by {
                        if j > 0 {
                            assert(rest[j - 1] == entries[j]);
                        }
                    }
                },
                None => {
                    assert forall|i: int| 0 <= i < entries.len() implies (#[trigger] entries[i]).0
                        != name by {
                        if i > 0 {
                            assert(rest[i - 1] == entries[i]);
                        }
                    }
                },
            }
        }
    }
}

/// What has been put under a name is what stands there, and what stands under another name is
/// what stood there.
pub proof fn law_put_then_lookup<V>(entries: Seq<(Text, V)>, name: Text, value: V, other: Text)
    requires
        strictly_ordered(entries),
    ensures
        lookup(put(entries, name, value), name) == Some(value),
        other != name ==> lookup(put(entries, name, value), other) == lookup(entries, other),
{
    lemma_place(entries, name);
    lemma_put_ordered(entries, name, value);
    let at = place(entries, name) as int;
    let after = put(entries, name, value);
    lemma_lookup(after, name);
    lemma_lookup(after, other);
    lemma_lookup(entries, other);
    assert(after[at] == (name, value));
    assert forall|i: int, j: int|
        0 <= i < after.len() && 0 <= j < after.len() && (#[trigger] after[i]).0 == (
        #[trigger] after[j]).0 implies i == j by {
        if i < j {
            assert(before(after[i].0, after[j].0));
        } else if j < i {
            assert(before(after[j].0, after[i].0));
        }
    }
    if other != name {
        let replaced = at < entries.len() && entries[at].0 == name;
        match lookup(entries, other) {
            Some(found) => {
                let i = choose|i: int|
                    0 <= i < entries.len() && #[trigger] entries[i] == (other, found) && forall|
                        j: int,
                    |
                        0 <= j < i ==> (#[trigger] entries[j]).0 != other;
                let k = if replaced || i < at {
                    i
                } else {
                    i + 1
                };
                assert(after[k] == (other, found));
            },
            None => {
                assert forall|i: int| 0 <= i < after.len() implies (#[trigger] after[i]).0
                    != other by {
                    if i != at {
                        let k = if replaced || i < at {
                            i
                        } else {
                            i - 1
                        };
                        assert(after[i] == entries[k]);
                    }
                }
            },
        }
    }
}

/// What stands first under a name is what is found there, and nothing is found under a name that no
/// entry has.
pub proof fn law_the_first_entry_is_found<V>(entries: Seq<(Text, V)>, i: int, name: Text)
    ensures
        0 <= i < entries.len() && (forall|j: int|
            0 <= j < i ==> (#[trigger] entries[j]).0 != entries[i].0) ==> lookup(
            entries,
            entries[i].0,
        ) == Some(entries[i].1),
        (forall|j: int| 0 <= j < entries.len() ==> (#[trigger] entries[j]).0 != name) ==> lookup(
            entries,
            name,
        ) is None,
{
    lemma_lookup(entries, name);
    if 0 <= i < entries.len() && (forall|j: int|
        0 <= j < i ==> (#[trigger] entries[j]).0 != entries[i].0) {
        let own = entries[i].0;
        lemma_lookup(entries, own);
        match lookup(entries, own) {
            Some(value) => {
                let k = choose|k: int|
                    0 <= k < entries.len() && #[trigger] entries[k] == (own, value) && forall|j: int|
                        0 <= j < k ==> (#[trigger] entries[j]).0 != own;
                if k < i {
                    assert(entries[k].0 != own);
                } else if i < k {
                    assert(entries[i].0 != own);
                }
            },
            None => {
                assert(entries[i].0 != own);
            },
        }
    }
}

} // verus!
