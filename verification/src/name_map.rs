//! A map keyed by names, visited in the order of the names.

use crate::text::{text_lt, text_order, TextOrder};
use vstd::prelude::*;

verus! {

/// Every text of `s` comes before each text behind it: nothing occurs twice.
pub open spec fn ascending(s: Seq<Seq<char>>) -> bool {
    forall|i: int, j: int| 0 <= i < j < s.len() ==> text_lt(#[trigger] s[i], #[trigger] s[j])
}

/// The map that holds `entries`, a later entry taking the place of an earlier
/// one of the same name.
pub open spec fn map_of<V>(entries: Seq<(String, V)>) -> Map<Seq<char>, V>
    decreases entries.len(),
{
    if entries.len() == 0 {
        Map::empty()
    } else {
        map_of(entries.drop_last()).insert(entries.last().0@, entries.last().1)
    }
}

/// Values by name, in ascending order of the names.
#[derive(Debug)]
pub struct NameMap<V> {
    entries: Vec<(String, V)>,
}

impl<V> View for NameMap<V> {
    type V = Map<Seq<char>, V>;

    closed spec fn view(&self) -> Map<Seq<char>, V> {
        Map::new(
            |name: Seq<char>| self.names().contains(name),
            |name: Seq<char>| self.entries@[self.names().index_of(name)].1,
        )
    }
}

impl<V> NameMap<V> {
    /// The names, in the order in which they are visited.
    pub closed spec fn names(&self) -> Seq<Seq<char>> {
        self.entries@.map_values(|entry: (String, V)| entry.0@)
    }

    /// The names are listed in ascending order, and they are the keys of the map.
    pub open spec fn listed(&self) -> bool {
        &&& ascending(self.names())
        &&& forall|name: Seq<char>|
            #![trigger self@.contains_key(name)]
            #![trigger self.names().contains(name)]
            self@.contains_key(name) <==> self.names().contains(name)
    }

    #[verifier::type_invariant]
    spec fn in_order(&self) -> bool {
        ascending(self.names())
    }

    proof fn lookup(&self, i: int)
        requires
            ascending(self.names()),
            0 <= i < self.entries.len(),
        ensures
            self.names()[i] == self.entries@[i].0@,
            self@.contains_key(self.names()[i]),
            self@[self.names()[i]] == self.entries@[i].1,
    {
        let name = self.names()[i];
        let j = self.names().index_of(name);
        assert(self.names().contains(name));
        if i < j {
            crate::text::text_lt_irreflexive(name);
        } else if j < i {
            crate::text::text_lt_irreflexive(name);
        }
    }

    /// The map without entries.
    pub fn new() -> (r: Self)
        ensures
            r@ == Map::<Seq<char>, V>::empty(),
    {
        let r = NameMap { entries: Vec::new() };
        proof {
            assert(r@ =~= Map::<Seq<char>, V>::empty());
        }
        r
    }

    /// How many names there are.
    pub fn len(&self) -> (n: usize)
        ensures
            n == self.names().len(),
            self.listed(),
    {
        proof {
            use_type_invariant(self);
        }
        self.entries.len()
    }

    /// The name at a place in the order.
    pub fn name_at(&self, i: usize) -> (r: &String)
        requires
            i < self.names().len(),
        ensures
            r@ == self.names()[i as int],
    {
        &self.entries[i].0
    }

    /// The value whose name stands at a place in the order.
    pub fn value_at(&self, i: usize) -> (r: &V)
        requires
            i < self.names().len(),
        ensures
            self@.contains_key(self.names()[i as int]),
            *r == self@[self.names()[i as int]],
    {
        proof {
            use_type_invariant(self);
            self.lookup(i as int);
        }
        &self.entries[i].1
    }

    /// Where `name` stands or would have to stand.
    fn place_of(&self, name: &str) -> (r: (usize, bool))
        ensures
            r.0 <= self.entries.len(),
            r.1 ==> r.0 < self.entries.len() && self.names()[r.0 as int] == name@,
            !r.1 ==> !self.names().contains(name@),
            forall|j: int| 0 <= j < r.0 ==> text_lt(#[trigger] self.names()[j], name@),
            !r.1 ==> forall|j: int|
                r.0 <= j < self.entries.len() ==> text_lt(name@, #[trigger] self.names()[j]),
    {
        proof {
            use_type_invariant(self);
        }
        let mut i: usize = 0;
        while i < self.entries.len()
            invariant
                ascending(self.names()),
                i <= self.entries.len(),
                self.names().len() == self.entries.len(),
                forall|j: int| 0 <= j < i ==> text_lt(#[trigger] self.names()[j], name@),
            decreases self.entries.len() - i,
        {
            match text_order(self.entries[i].0.as_str(), name) {
                TextOrder::Before => {
                    i = i + 1;
                },
                TextOrder::Same => {
                    return (i, true);
                },
                TextOrder::After => {
                    proof {
                        assert forall|j: int| i <= j < self.entries.len() implies text_lt(
                            name@,
                            #[trigger] self.names()[j],
                        ) by {
                            if i < j {
                                crate::text::text_lt_transitive(
                                    name@,
                                    self.names()[i as int],
                                    self.names()[j],
                                );
                            }
                        }
                        crate::text::text_lt_irreflexive(name@);
                    }
                    return (i, false);
                },
            }
        }
        proof {
            crate::text::text_lt_irreflexive(name@);
        }
        (i, false)
    }

    /// The value of a name.
    pub fn get(&self, name: &str) -> (r: Option<&V>)
        ensures
            r is Some <==> self@.contains_key(name@),
            r matches Some(v) ==> *v == self@[name@],
    {
        proof {
            use_type_invariant(self);
        }
        let (i, found) = self.place_of(name);
        if found {
            proof {
                self.lookup(i as int);
            }
            Some(&self.entries[i].1)
        } else {
            None
        }
    }

    /// Is there an entry of that name?
    pub fn contains_key(&self, name: &str) -> (r: bool)
        ensures
            r == self@.contains_key(name@),
    {
        self.get(name).is_some()
    }

    /// Gives a name a value, in place of the one it had.
    pub fn insert(&mut self, name: String, value: V)
        ensures
            final(self)@ == old(self)@.insert(name@, value),
    {
        proof {
            use_type_invariant(&*self);
        }
        let (i, found) = self.place_of(name.as_str());
        let ghost before = *self;
        let ghost old_names = self.names();
        let ghost old_entries = self.entries@;
        let mut entries: Vec<(String, V)> = Vec::new();
        std::mem::swap(&mut self.entries, &mut entries);
        if found {
            entries.set(i, (name, value));
        } else {
            entries.insert(i, (name, value));
        }
        let ghost new_names = entries@.map_values(|entry: (String, V)| entry.0@);
        proof {
            if found {
                assert(new_names =~= old_names);
            } else {
                assert(new_names =~= old_names.insert(i as int, name@));
            }
            assert(ascending(new_names));
        }
        self.entries = entries;
        proof {
            assert(self.names() == new_names);
            assert forall|k: Seq<char>| #[trigger]
                self@.contains_key(k) <==> before@.insert(name@, value).contains_key(k) by {
                if old_names.contains(k) {
                    let p = old_names.index_of(k);
                    if found || p < i {
                        assert(new_names[p] == k);
                    } else {
                        assert(new_names[p + 1] == k);
                    }
                }
                assert(new_names[i as int] == name@);
                if new_names.contains(k) && k != name@ {
                    let p = new_names.index_of(k);
                    if found || p < i {
                        assert(old_names[p] == k);
                    } else {
                        assert(old_names[p - 1] == k);
                    }
                }
            }
            assert forall|k: Seq<char>| #[trigger] self@.contains_key(k) implies self@[k]
                == before@.insert(name@, value)[k] by {
                let p = new_names.index_of(k);
                assert(new_names.contains(k));
                self.lookup(p);
                if p == i {
                    assert(k == name@);
                } else {
                    let q = if found || p < i { p } else { p - 1 };
                    assert(old_names[q] == k);
                    before.lookup(q);
                    if k == name@ {
                        assert(new_names[i as int] == name@);
                        crate::text::text_lt_irreflexive(k);
                    }
                }
            }
            assert(self@ =~= before@.insert(name@, value));
        }
    }

    /// Takes out the entry of a name.
    pub fn remove(&mut self, name: &str) -> (r: Option<V>)
        ensures
            r is Some <==> old(self)@.contains_key(name@),
            r matches Some(v) ==> v == old(self)@[name@],
            final(self)@ == old(self)@.remove(name@),
    {
        proof {
            use_type_invariant(&*self);
        }
        let (i, found) = self.place_of(name);
        if !found {
            proof {
                assert(self@.remove(name@) =~= self@);
            }
            return None;
        }
        let ghost before = *self;
        let ghost old_names = self.names();
        let mut entries: Vec<(String, V)> = Vec::new();
        std::mem::swap(&mut self.entries, &mut entries);
        let taken = entries.remove(i);
        let ghost new_names = entries@.map_values(|entry: (String, V)| entry.0@);
        proof {
            assert(new_names =~= old_names.remove(i as int));
            assert(ascending(new_names));
            before.lookup(i as int);
        }
        self.entries = entries;
        proof {
            assert(self.names() == new_names);
            assert forall|k: Seq<char>| #[trigger]
                self@.contains_key(k) <==> before@.remove(name@).contains_key(k) by {
                if old_names.contains(k) && k != name@ {
                    let p = old_names.index_of(k);
                    if p < i {
                        assert(new_names[p] == k);
                    } else {
                        assert(new_names[p - 1] == k);
                    }
                }
                if new_names.contains(k) {
                    let p = new_names.index_of(k);
                    let q = if p < i { p } else { p + 1 };
                    assert(old_names[q] == k);
                    if k == name@ {
                        crate::text::text_lt_irreflexive(k);
                    }
                }
            }
            assert forall|k: Seq<char>| #[trigger] self@.contains_key(k) implies self@[k]
                == before@.remove(name@)[k] by {
                let p = new_names.index_of(k);
                assert(new_names.contains(k));
                self.lookup(p);
                let q = if p < i { p } else { p + 1 };
                assert(old_names[q] == k);
                before.lookup(q);
            }
            assert(self@ =~= before@.remove(name@));
        }
        Some(taken.1)
    }

    /// The map that holds the given entries, the last one of each name.
    pub fn from_entries(entries: Vec<(String, V)>) -> (r: Self)
        ensures
            r@ == map_of(entries@),
    {
        let mut r = NameMap::new();
        proof {
            assert(entries@.take(0) =~= Seq::<(String, V)>::empty());
        }
        for entry in it: entries
            invariant
                it.seq() == entries@,
                r@ == map_of(entries@.take(it.index())),
        {
            proof {
                let n = it.index();
                assert(entries@.take(n + 1).drop_last() =~= entries@.take(n));
                assert(entries@.take(n + 1).last() == entries@[n]);
            }
            r.insert(entry.0, entry.1);
        }
        proof {
            assert(entries@.take(entries@.len() as int) =~= entries@);
        }
        r
    }
}

impl<V: Clone> Clone for NameMap<V> {
    fn clone(&self) -> (r: Self)
        ensures
            r@.dom() == self@.dom(),
            forall|name: Seq<char>| #[trigger]
                r@.contains_key(name) ==> cloned::<V>(self@[name], r@[name]),
    {
        proof {
            use_type_invariant(self);
        }
        let mut entries: Vec<(String, V)> = Vec::new();
        let mut i: usize = 0;
        while i < self.entries.len()
            invariant
                i <= self.entries.len(),
                entries.len() == i,
                forall|j: int| 0 <= j < i ==> #[trigger] entries@[j].0@ == self.entries@[j].0@,
                forall|j: int|
                    0 <= j < i ==> cloned::<V>(self.entries@[j].1, #[trigger] entries@[j].1),
            decreases self.entries.len() - i,
        {
            entries.push((self.entries[i].0.clone(), self.entries[i].1.clone()));
            i = i + 1;
        }
        proof {
            assert(entries@.map_values(|entry: (String, V)| entry.0@) =~= self.names());
        }
        let r = NameMap { entries };
        proof {
            assert(r@.dom() =~= self@.dom());
            assert forall|name: Seq<char>| #[trigger] r@.contains_key(name) implies cloned::<V>(
                self@[name],
                r@[name],
            ) by {
                let p = r.names().index_of(name);
                assert(r.names().contains(name));
                r.lookup(p);
                self.lookup(p);
            }
        }
        r
    }
}

} // verus!
