//! Maps keyed by a peer's name.
//!
//! The map is a list that is searched by name. The standard hash map is
//! specified for the verifier only where its keys are integers; of a map
//! with strings for keys nothing could be proved.

use vstd::prelude::*;

verus! {

/// A name with what is kept under it.
struct Named<V> {
    name: String,
    value: V,
}

/// Whether some entry of `entries` is under `name`.
spec fn listed<V>(entries: Seq<Named<V>>, name: Seq<char>) -> bool {
    exists|i: int| 0 <= i < entries.len() && (#[trigger] entries[i]).name@ == name
}

/// The place of an entry under `name` in `entries`, where there is one.
spec fn place<V>(entries: Seq<Named<V>>, name: Seq<char>) -> int {
    choose|i: int| 0 <= i < entries.len() && (#[trigger] entries[i]).name@ == name
}

/// No two entries of `entries` are under the same name.
spec fn distinct<V>(entries: Seq<Named<V>>) -> bool {
    forall|i: int, j: int|
        0 <= i < entries.len() && 0 <= j < entries.len() && (#[trigger] entries[i]).name@ == (
        #[trigger] entries[j]).name@ ==> i == j
}

/// The values of `entries` by name.
spec fn by_name<V>(entries: Seq<Named<V>>) -> Map<Seq<char>, V> {
    Map::new(|n: Seq<char>| listed(entries, n), |n: Seq<char>| entries[place(entries, n)].value)
}

/// Among distinct entries, the entry at `i` is the one found under its
/// name.
proof fn lemma_place<V>(entries: Seq<Named<V>>, i: int)
    requires
        distinct(entries),
        0 <= i < entries.len(),
    ensures
        listed(entries, entries[i].name@),
        place(entries, entries[i].name@) == i,
        by_name(entries).contains_key(entries[i].name@),
        by_name(entries)[entries[i].name@] == entries[i].value,
{
    let p = place(entries, entries[i].name@);
    assert(entries[p].name@ == entries[i].name@);
}

/// Replacing the entry at `i` by one under the same name changes the value
/// under that name and no other.
proof fn lemma_update<V>(entries: Seq<Named<V>>, i: int, entry: Named<V>)
    requires
        distinct(entries),
        0 <= i < entries.len(),
        entries[i].name@ == entry.name@,
    ensures
        distinct(entries.update(i, entry)),
        by_name(entries.update(i, entry)) == by_name(entries).insert(entry.name@, entry.value),
{
    let next = entries.update(i, entry);
    assert(distinct(next)) by {
        assert forall|a: int, b: int|
            0 <= a < next.len() && 0 <= b < next.len() && (#[trigger] next[a]).name@ == (
            #[trigger] next[b]).name@ implies a == b by {
            assert(entries[a].name@ == next[a].name@);
            assert(entries[b].name@ == next[b].name@);
        }
    }
    assert forall|n: Seq<char>| listed(next, n) == listed(entries, n) by {
        if listed(next, n) {
            let k = place(next, n);
            assert(entries[k].name@ == n);
        }
        if listed(entries, n) {
            let k = place(entries, n);
            assert(next[k].name@ == n);
        }
    }
    assert forall|n: Seq<char>| listed(next, n) implies #[trigger] by_name(next)[n] == by_name(
        entries,
    ).insert(entry.name@, entry.value)[n] by {
        let k = place(next, n);
        lemma_place(next, k);
        if k != i {
            assert(entries[k] == next[k]);
            lemma_place(entries, k);
        }
    }
    lemma_place(entries, i);
    assert(by_name(next) =~= by_name(entries).insert(entry.name@, entry.value));
}

/// Appending an entry under a name not yet listed adds that value and
/// changes no other.
proof fn lemma_push<V>(entries: Seq<Named<V>>, entry: Named<V>)
    requires
        distinct(entries),
        !listed(entries, entry.name@),
    ensures
        distinct(entries.push(entry)),
        by_name(entries.push(entry)) == by_name(entries).insert(entry.name@, entry.value),
{
    let next = entries.push(entry);
    let last = entries.len() as int;
    assert(distinct(next)) by {
        assert forall|a: int, b: int|
            0 <= a < next.len() && 0 <= b < next.len() && (#[trigger] next[a]).name@ == (
            #[trigger] next[b]).name@ implies a == b by {
            if a < last {
                assert(entries[a] == next[a]);
            }
            if b < last {
                assert(entries[b] == next[b]);
            }
        }
    }
    assert(next[last] == entry);
    assert forall|n: Seq<char>| listed(next, n) == (listed(entries, n) || n == entry.name@) by {
        if listed(next, n) {
            let k = place(next, n);
            if k < last {
                assert(entries[k].name@ == n);
            }
        }
        if listed(entries, n) {
            let k = place(entries, n);
            assert(next[k].name@ == n);
        }
    }
    assert forall|n: Seq<char>| listed(next, n) implies #[trigger] by_name(next)[n] == by_name(
        entries,
    ).insert(entry.name@, entry.value)[n] by {
        let k = place(next, n);
        lemma_place(next, k);
        if k < last {
            assert(entries[k] == next[k]);
            lemma_place(entries, k);
        }
    }
    assert(by_name(next) =~= by_name(entries).insert(entry.name@, entry.value));
}

/// A map from names to values that keeps its entries in the order in
/// which their names first came.
pub struct NameMap<V> {
    entries: Vec<Named<V>>,
}

impl<V> View for NameMap<V> {
    type V = Map<Seq<char>, V>;

    closed spec fn view(&self) -> Map<Seq<char>, V> {
        by_name(self.entries@)
    }
}

impl<V> NameMap<V> {
    #[verifier::type_invariant]
    spec fn one_entry_per_name(&self) -> bool {
        distinct(self.entries@)
    }

    /// The names in the order of the entries.
    pub closed spec fn names(&self) -> Seq<Seq<char>> {
        Seq::new(self.entries@.len(), |i: int| self.entries@[i].name@)
    }

    /// The values in the order of the entries.
    pub closed spec fn values(&self) -> Seq<V> {
        Seq::new(self.entries@.len(), |i: int| self.entries@[i].value)
    }

    /// How the entries go with the map: every name is listed once, with
    /// the value that the map has under it, and the map has nothing else.
    pub open spec fn in_order(&self) -> bool {
        &&& self.names().len() == self.values().len()
        &&& self.names().no_duplicates()
        &&& forall|i: int|
            0 <= i < self.names().len() ==> self@.contains_key(#[trigger] self.names()[i])
                && self@[self.names()[i]] == self.values()[i]
        &&& forall|name: Seq<char>| #[trigger]
            self@.contains_key(name) ==> self.names().contains(name)
    }

    /// The map without entries.
    pub fn new() -> (map: NameMap<V>)
        ensures
            map@ == Map::<Seq<char>, V>::empty(),
            map.names().len() == 0,
            map.values().len() == 0,
    {
        let map = NameMap { entries: Vec::new() };
        assert(map@ =~= Map::<Seq<char>, V>::empty());
        map
    }

    /// How many entries the map has: one for each name.
    pub fn len(&self) -> (n: usize)
        ensures
            n == self.names().len(),
            n == self.values().len(),
            self.in_order(),
    {
        proof {
            use_type_invariant(self);
            let entries = self.entries@;
            let names = self.names();
            assert forall|i: int, j: int|
                0 <= i < names.len() && 0 <= j < names.len() && i != j implies names[i]
                != names[j] by {
                assert(entries[i].name@ == names[i]);
                assert(entries[j].name@ == names[j]);
            }
            assert forall|i: int| 0 <= i < names.len() implies self@.contains_key(
                #[trigger] names[i],
            ) && self@[names[i]] == self.values()[i] by {
                lemma_place(entries, i);
            }
            assert forall|name: Seq<char>| #[trigger]
                self@.contains_key(name) implies names.contains(name) by {
                let k = place(entries, name);
                assert(names[k] == name);
            }
        }
        self.entries.len()
    }

    /// The name of the entry at `i`.
    pub fn name_at(&self, i: usize) -> (name: &String)
        requires
            i < self.names().len(),
        ensures
            name@ == self.names()[i as int],
            self@.contains_key(name@),
            self@[name@] == self.values()[i as int],
    {
        proof {
            use_type_invariant(self);
            lemma_place(self.entries@, i as int);
        }
        &self.entries[i].name
    }

    /// The value of the entry at `i`.
    pub fn value_at(&self, i: usize) -> (value: &V)
        requires
            i < self.values().len(),
        ensures
            *value == self.values()[i as int],
            self@.contains_key(self.names()[i as int]),
            self@[self.names()[i as int]] == *value,
    {
        proof {
            use_type_invariant(self);
            lemma_place(self.entries@, i as int);
        }
        &self.entries[i].value
    }

    /// Where the entry under `name` stands, if the map has one.
    fn position(&self, name: &String) -> (at: Option<usize>)
        ensures
            at is Some <==> listed(self.entries@, name@),
            at matches Some(i) ==> i < self.entries.len() && self.entries[i as int].name@ == name@
                && place(self.entries@, name@) == i,
    {
        proof {
            use_type_invariant(self);
        }
        let mut i: usize = 0;
        while i < self.entries.len()
            invariant
                i <= self.entries.len(),
                distinct(self.entries@),
                forall|k: int| 0 <= k < i ==> (#[trigger] self.entries[k]).name@ != name@,
            decreases self.entries.len() - i,
        {
            if self.entries[i].name == *name {
                return Some(i);
            }
            i += 1;
        }
        None
    }

    /// The value under `name`, if the map has one.
    pub fn get(&self, name: &String) -> (value: Option<&V>)
        ensures
            value is Some <==> self@.contains_key(name@),
            value matches Some(v) ==> *v == self@[name@],
    {
        match self.position(name) {
            Some(i) => Some(&self.entries[i].value),
            None => None,
        }
    }

    /// Whether the map has a value under `name`.
    pub fn contains_key(&self, name: &String) -> (found: bool)
        ensures
            found == self@.contains_key(name@),
    {
        self.position(name).is_some()
    }

    /// Puts `value` under `name`, in place of what was there. A new name
    /// goes behind the others.
    pub fn insert(&mut self, name: String, value: V)
        ensures
            final(self)@ == old(self)@.insert(name@, value),
            old(self)@.contains_key(name@) ==> final(self).names() == old(self).names(),
            !old(self)@.contains_key(name@) ==> final(self).names() == old(self).names().push(
                name@,
            ),
    {
        proof {
            use_type_invariant(&*self);
        }
        let at = self.position(&name);
        let mut entries: Vec<Named<V>> = Vec::new();
        core::mem::swap(&mut self.entries, &mut entries);
        let entry = Named { name, value };
        match at {
            Some(i) => {
                proof {
                    lemma_update(entries@, i as int, entry);
                }
                entries.set(i, entry);
            },
            None => {
                proof {
                    lemma_push(entries@, entry);
                }
                entries.push(entry);
            },
        }
        core::mem::swap(&mut self.entries, &mut entries);
        assert(old(self)@.contains_key(name@) ==> self.names() =~= old(self).names());
        assert(!old(self)@.contains_key(name@) ==> self.names() =~= old(self).names().push(name@));
    }
}

} // verus!
