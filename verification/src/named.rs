// SPDX-License-Identifier: GPL-2.0-or-later
//! A small table keyed by name. A name stands in it at most once.

use vstd::prelude::*;

use crate::text::same_text;

verus! {

/// One more element of `s` at the end of a prefix.
pub proof fn prefix_grows<A>(s: Seq<A>, i: int)
    requires
        0 <= i < s.len(),
    ensures
        s.take(i + 1) == s.take(i).push(s[i]),
        forall|a: A| #[trigger] s.take(i + 1).contains(a) <==> s.take(i).contains(a) || a == s[i],
        s.take(i + 1).to_set() == s.take(i).to_set().insert(s[i]),
{
    let long = s.take(i + 1);
    let short = s.take(i);
    assert(long == short.push(s[i]));
    assert forall|a: A| #[trigger] long.contains(a) <==> short.contains(a) || a == s[i] by {
        if long.contains(a) {
            let k = choose|k: int| 0 <= k < long.len() && long[k] == a;
            if k < i {
                assert(short[k] == a);
            }
        }
        if short.contains(a) {
            let k = choose|k: int| 0 <= k < short.len() && short[k] == a;
            assert(long[k] == a);
        }
        assert(long[i] == s[i]);
    }
    assert(long.to_set() =~= short.to_set().insert(s[i]));
}

/// Values by name.
pub struct NameMap<V> {
    entries: Vec<(String, V)>,
}

impl<V> View for NameMap<V> {
    type V = Map<Seq<char>, V>;

    closed spec fn view(&self) -> Map<Seq<char>, V> {
        Map::new(
            |name: Seq<char>| self.order().contains(name),
            |name: Seq<char>| self.entries@[self.order().index_of(name)].1,
        )
    }
}

impl<V> NameMap<V> {
    /// The names in the order in which they are walked.
    pub closed spec fn order(&self) -> Seq<Seq<char>> {
        self.entries@.map_values(|entry: (String, V)| entry.0@)
    }

    /// No name stands in the table twice.
    pub open spec fn well_formed(&self) -> bool {
        self.order().no_duplicates()
    }

    proof fn at(&self, i: int)
        requires
            self.well_formed(),
            0 <= i < self.entries@.len(),
        ensures
            self.order()[i] == self.entries@[i].0@,
            self@.contains_key(self.entries@[i].0@),
            self@[self.entries@[i].0@] == self.entries@[i].1,
    {
        let name = self.entries@[i].0@;
        assert(self.order()[i] == name);
        let j = self.order().index_of(name);
        assert(self.order()[j] == name);
        assert(i == j);
    }

    /// The walk meets each name of the table, and no other.
    pub proof fn order_is_the_domain(&self)
        ensures
            forall|name: Seq<char>| #[trigger] self.order().contains(name) <==> self@.contains_key(name),
            self.order().len() == 0 ==> self@ == Map::<Seq<char>, V>::empty(),
    {
        if self.order().len() == 0 {
            assert(self@ =~= Map::<Seq<char>, V>::empty());
        }
    }

    pub fn new() -> (map: Self)
        ensures
            map.well_formed(),
            map@ == Map::<Seq<char>, V>::empty(),
    {
        let map = NameMap { entries: Vec::new() };
        assert(map@ =~= Map::<Seq<char>, V>::empty());
        map
    }

    fn find(&self, name: &str) -> (at: Option<usize>)
        requires
            self.well_formed(),
        ensures
            match at {
                Some(i) => i < self.entries@.len() && self.entries@[i as int].0@ == name@
                    && self@.contains_key(name@) && self@[name@] == self.entries@[i as int].1,
                None => !self@.contains_key(name@),
            },
    {
        let mut i: usize = 0;
        while i < self.entries.len()
            invariant
                self.well_formed(),
                i <= self.entries@.len(),
                forall|j: int| 0 <= j < i ==> self.entries@[j].0@ != name@,
            decreases self.entries@.len() - i,
        {
            if same_text(self.entries[i].0.as_str(), name) {
                proof {
                    self.at(i as int);
                }
                return Some(i);
            }
            i = i + 1;
        }
        proof {
            if self.order().contains(name@) {
                let j = self.order().index_of(name@);
                assert(self.order()[j] == self.entries@[j].0@);
            }
        }
        None
    }

    /// Whether `name` stands in the table.
    pub fn contains(&self, name: &str) -> (found: bool)
        requires
            self.well_formed(),
        ensures
            found == self@.contains_key(name@),
    {
        self.find(name).is_some()
    }

    /// The value under `name`.
    pub fn get(&self, name: &str) -> (value: Option<&V>)
        requires
            self.well_formed(),
        ensures
            match value {
                Some(v) => self@.contains_key(name@) && *v == self@[name@],
                None => !self@.contains_key(name@),
            },
    {
        match self.find(name) {
            Some(i) => Some(&self.entries[i].1),
            None => None,
        }
    }

    /// Puts `value` under `name`, in place of any earlier value.
    pub fn set(&mut self, name: &str, value: V)
        requires
            old(self).well_formed(),
        ensures
            final(self).well_formed(),
            final(self)@ == old(self)@.insert(name@, value),
            final(self).order() == (if old(self)@.contains_key(name@) {
                old(self).order()
            } else {
                old(self).order().push(name@)
            }),
    {
        let ghost before = *self;
        match self.find(name) {
            Some(i) => {
                self.entries.set(i, (name.to_owned(), value));
                proof {
                    assert(self.order() =~= before.order());
                    assert(before.order()[i as int] == name@);
                    assert forall|n: Seq<char>| self.order().contains(n) implies self@[n] == before@.insert(
                        name@,
                        value,
                    )[n] by {
                        let j = self.order().index_of(n);
                        assert(self.order()[j] == n);
                        self.at(j);
                        before.at(j);
                    }
                    assert(self@ =~= before@.insert(name@, value));
                }
            },
            None => {
                self.entries.push((name.to_owned(), value));
                proof {
                    let last = before.entries@.len() as int;
                    assert(self.order() =~= before.order().push(name@));
                    assert(!before.order().contains(name@));
                    assert(self.order()[last] == name@);
                    self.at(last);
                    assert forall|n: Seq<char>| #[trigger] before.order().contains(n) implies {
                        &&& self.order().contains(n)
                        &&& self@[n] == before@[n]
                    } by {
                        let j = before.order().index_of(n);
                        assert(before.order()[j] == n);
                        assert(self.order()[j] == n);
                        self.at(j);
                        before.at(j);
                    }
                    assert forall|n: Seq<char>| #[trigger] self.order().contains(n) implies n == name@
                        || before.order().contains(n) by {
                        let j = self.order().index_of(n);
                        assert(self.order()[j] == n);
                        if j < last {
                            assert(before.order()[j] == n);
                        }
                    }
                    assert(self@ =~= before@.insert(name@, value));
                }
            },
        }
    }

    /// Takes the value under `name` out of the table.
    pub fn take(&mut self, name: &str) -> (value: Option<V>)
        requires
            old(self).well_formed(),
        ensures
            final(self).well_formed(),
            final(self)@ == old(self)@.remove(name@),
            match value {
                Some(v) => old(self)@.contains_key(name@) && v == old(self)@[name@],
                None => !old(self)@.contains_key(name@),
            },
    {
        let ghost before = *self;
        match self.find(name) {
            Some(i) => {
                let entry = self.entries.remove(i);
                proof {
                    let at = i as int;
                    assert(self.order() =~= before.order().remove(at));
                    assert(before.order()[at] == name@);
                    assert forall|a: int, b: int|
                        0 <= a < self.order().len() && 0 <= b < self.order().len() && a != b implies self.order()[a]
                        != self.order()[b] by {
                        let a0 = if a < at {
                            a
                        } else {
                            a + 1
                        };
                        let b0 = if b < at {
                            b
                        } else {
                            b + 1
                        };
                        assert(self.order()[a] == before.order()[a0]);
                        assert(self.order()[b] == before.order()[b0]);
                    }
                    assert forall|n: Seq<char>| #[trigger] self.order().contains(n) implies {
                        &&& before.order().contains(n)
                        &&& n != name@
                        &&& self@[n] == before@[n]
                    } by {
                        let a = self.order().index_of(n);
                        assert(self.order()[a] == n);
                        let a0 = if a < at {
                            a
                        } else {
                            a + 1
                        };
                        assert(before.order()[a0] == n);
                        self.at(a);
                        before.at(a0);
                    }
                    assert forall|n: Seq<char>| #[trigger] before.order().contains(n) && n != name@ implies self.order().contains(
                    n) by {
                        let a0 = before.order().index_of(n);
                        assert(before.order()[a0] == n);
                        let a = if a0 < at {
                            a0
                        } else {
                            a0 - 1
                        };
                        assert(self.order()[a] == n);
                    }
                    assert(self@ =~= before@.remove(name@));
                }
                Some(entry.1)
            },
            None => {
                assert(self@ =~= before@.remove(name@));
                None
            },
        }
    }

    /// How many names the table holds.
    pub fn len(&self) -> (n: usize)
        ensures
            n == self.order().len(),
    {
        self.entries.len()
    }

    /// The `i`-th name of the walk.
    pub fn name_at(&self, i: usize) -> (name: &String)
        requires
            i < self.order().len(),
        ensures
            name@ == self.order()[i as int],
    {
        &self.entries[i].0
    }

    /// The value under the `i`-th name of the walk.
    pub fn value_at(&self, i: usize) -> (value: &V)
        requires
            self.well_formed(),
            i < self.order().len(),
        ensures
            *value == self@[self.order()[i as int]],
    {
        proof {
            self.at(i as int);
        }
        &self.entries[i].1
    }

    /// Takes everything out of the table, in the order of the walk.
    pub fn drain(&mut self) -> (taken: Vec<(String, V)>)
        requires
            old(self).well_formed(),
        ensures
            final(self).well_formed(),
            final(self)@ == Map::<Seq<char>, V>::empty(),
            taken@.len() == old(self).order().len(),
            forall|i: int|
                0 <= i < taken@.len() ==> (#[trigger] taken@[i]).0@ == old(self).order()[i] && taken@[i].1
                    == old(self)@[old(self).order()[i]],
    {
        let ghost before = *self;
        let mut taken: Vec<(String, V)> = Vec::new();
        std::mem::swap(&mut taken, &mut self.entries);
        proof {
            assert(self@ =~= Map::<Seq<char>, V>::empty());
            assert forall|i: int| 0 <= i < taken@.len() implies (#[trigger] taken@[i]).0@ == before.order()[i]
                && taken@[i].1 == before@[before.order()[i]] by {
                before.at(i);
            }
        }
        taken
    }
}

} // verus!
