//! Register values by register name (e.g. `"40001"`).

use vstd::prelude::*;

verus! {

/// The map that a list of `(name, value)` entries denotes.
pub open spec fn map_of(entries: Seq<(Seq<char>, u16)>) -> Map<Seq<char>, u16>
    decreases entries.len(),
{
    if entries.len() == 0 {
        Map::empty()
    } else {
        map_of(entries.drop_last()).insert(entries.last().0, entries.last().1)
    }
}

/// No name occurs twice.
pub open spec fn distinct_names(entries: Seq<(Seq<char>, u16)>) -> bool {
    forall|i: int, j: int|
        0 <= i < j < entries.len() ==> #[trigger] entries[i].0 != #[trigger] entries[j].0
}

/// With distinct names, the map of a list of entries holds exactly their
/// names, each with its value, and has one key per entry.
pub proof fn lemma_map_of_lookup(entries: Seq<(Seq<char>, u16)>)
    requires
        distinct_names(entries),
    ensures
        forall|k: Seq<char>|
            #[trigger] map_of(entries).contains_key(k) <==> exists|i: int|
                0 <= i < entries.len() && entries[i].0 == k,
        forall|i: int| 0 <= i < entries.len() ==> #[trigger] map_of(entries)[entries[i].0] == entries[i].1,
        map_of(entries).dom().finite(),
        map_of(entries).dom().len() == entries.len(),
    decreases entries.len(),
{
    if entries.len() > 0 {
        let prev = entries.drop_last();
        assert(distinct_names(prev));
        lemma_map_of_lookup(prev);
        let last = entries.last();
        assert(!map_of(prev).contains_key(last.0)) by {
            if map_of(prev).contains_key(last.0) {
                let i = choose|i: int| 0 <= i < prev.len() && prev[i].0 == last.0;
                assert(entries[i].0 == entries[entries.len() - 1].0);
            }
        }
        assert forall|k: Seq<char>|
            #[trigger] map_of(entries).contains_key(k) <==> exists|i: int|
                0 <= i < entries.len() && entries[i].0 == k by {
            if map_of(prev).contains_key(k) {
                let i = choose|i: int| 0 <= i < prev.len() && prev[i].0 == k;
                assert(entries[i].0 == k);
            }
            if exists|i: int| 0 <= i < entries.len() && entries[i].0 == k {
                let i = choose|i: int| 0 <= i < entries.len() && entries[i].0 == k;
                if i < entries.len() - 1 {
                    assert(prev[i].0 == k);
                }
            }
        }
        assert forall|i: int| 0 <= i < entries.len() implies #[trigger] map_of(entries)[entries[i].0]
            == entries[i].1 by {
            if i < entries.len() - 1 {
                assert(prev[i] == entries[i]);
                assert(entries[i].0 != last.0);
            }
        }
    }
}

/// Register values by name.
#[derive(Debug)]
pub struct RegisterMap {
    entries: Vec<(String, u16)>,
}

impl RegisterMap {
    /// The entries as `(name, value)` pairs, in insertion order.
    pub closed spec fn entries_view(&self) -> Seq<(Seq<char>, u16)> {
        self.entries@.map_values(|e: (String, u16)| (e.0@, e.1))
    }

    /// The register values by name.
    pub open spec fn view(&self) -> Map<Seq<char>, u16> {
        map_of(self.entries_view())
    }

    #[verifier::type_invariant]
    spec fn unique_names(&self) -> bool {
        distinct_names(self.entries_view())
    }

    /// An empty map.
    pub fn new() -> (r: Self)
        ensures
            r.view() == Map::<Seq<char>, u16>::empty(),
            r.entries_view() == Seq::<(Seq<char>, u16)>::empty(),
    {
        let r = RegisterMap { entries: Vec::new() };
        assert(r.entries_view() =~= Seq::<(Seq<char>, u16)>::empty());
        r
    }

    /// The entries in insertion order have distinct names and make up the map.
    proof fn lemma_entries(&self)
        requires
            distinct_names(self.entries_view()),
        ensures
            distinct_names(self.entries_view()),
            forall|k: Seq<char>|
                #[trigger] self.view().contains_key(k) <==> exists|i: int|
                    0 <= i < self.entries_view().len() && self.entries_view()[i].0 == k,
            forall|i: int|
                0 <= i < self.entries_view().len() ==> #[trigger] self.view()[self.entries_view()[i].0]
                    == self.entries_view()[i].1,
            self.view().dom().finite(),
            self.view().dom().len() == self.entries_view().len(),
    {
        lemma_map_of_lookup(self.entries_view());
    }

    fn position(&self, name: &String) -> (r: Option<usize>)
        ensures
            r matches Some(i) ==> i < self.entries_view().len() && self.entries_view()[i as int].0
                == name@,
            r is None ==> !self.view().contains_key(name@),
    {
        proof {
            use_type_invariant(&*self);
            self.lemma_entries();
        }
        let mut i: usize = 0;
        while i < self.entries.len()
            invariant
                i <= self.entries_view().len(),
                self.entries_view().len() == self.entries@.len(),
                forall|j: int| 0 <= j < i ==> self.entries_view()[j].0 != name@,
            decreases self.entries@.len() - i,
        {
            if self.entries[i].0 == *name {
                return Some(i);
            }
            i = i + 1;
        }
        proof {
            if self.view().contains_key(name@) {
                let j = choose|j: int|
                    0 <= j < self.entries_view().len() && self.entries_view()[j].0 == name@;
                assert(self.entries_view()[j].0 != name@);
            }
        }
        None
    }

    /// The value of register `name`, if present.
    pub fn get(&self, name: &String) -> (r: Option<u16>)
        ensures
            r == (if self.view().contains_key(name@) {
                Some(self.view()[name@])
            } else {
                None
            }),
    {
        proof {
            use_type_invariant(&*self);
            self.lemma_entries();
        }
        match self.position(name) {
            Some(i) => Some(self.entries[i].1),
            None => None,
        }
    }

    /// Whether register `name` is present.
    pub fn contains_key(&self, name: &String) -> (r: bool)
        ensures
            r == self.view().contains_key(name@),
    {
        proof {
            use_type_invariant(&*self);
            self.lemma_entries();
        }
        self.position(name).is_some()
    }

    /// Set register `name` to `value`.
    pub fn insert(&mut self, name: String, value: u16)
        ensures
            final(self).view() == old(self).view().insert(name@, value),
    {
        proof {
            use_type_invariant(&*self);
            self.lemma_entries();
        }
        let ghost before = self.entries_view();
        let ghost key = name@;
        match self.position(&name) {
            Some(i) => {
                let mut entries: Vec<(String, u16)> = Vec::new();
                std::mem::swap(&mut entries, &mut self.entries);
                entries.set(i, (name, value));
                proof {
                    let updated = entries@.map_values(|e: (String, u16)| (e.0@, e.1));
                    assert(updated =~= before.update(i as int, (key, value)));
                    assert(distinct_names(updated));
                }
                self.entries = entries;
                proof {
                    assert(self.entries_view() =~= before.update(i as int, (key, value)));
                    self.lemma_entries();
                    assert(self.view() =~= map_of(before).insert(key, value)) by {
                        assert forall|k: Seq<char>| #[trigger] self.view().contains_key(k)
                            <==> map_of(before).insert(key, value).contains_key(k) by {
                            if exists|j: int| 0 <= j < before.len() && before[j].0 == k {
                                let j = choose|j: int| 0 <= j < before.len() && before[j].0 == k;
                                assert(self.entries_view()[j].0 == k);
                            }
                            if exists|j: int| 0 <= j < before.len() && self.entries_view()[j].0 == k {
                                let j = choose|j: int| 0 <= j < before.len() && self.entries_view()[j].0 == k;
                                assert(before[j].0 == k);
                            }
                        }
                        assert forall|k: Seq<char>| #[trigger] self.view().contains_key(k)
                            implies self.view()[k] == map_of(before).insert(key, value)[k] by {
                            let j = choose|j: int| 0 <= j < before.len() && self.entries_view()[j].0 == k;
                            assert(self.view()[self.entries_view()[j].0] == self.entries_view()[j].1);
                            if j != i {
                                assert(map_of(before)[before[j].0] == before[j].1);
                            }
                        }
                    }
                }
            },
            None => {
                let mut entries: Vec<(String, u16)> = Vec::new();
                std::mem::swap(&mut entries, &mut self.entries);
                entries.push((name, value));
                proof {
                    let grown = entries@.map_values(|e: (String, u16)| (e.0@, e.1));
                    assert(grown =~= before.push((key, value)));
                    assert forall|a: int, b: int| 0 <= a < b < grown.len() implies #[trigger] grown[a].0
                        != #[trigger] grown[b].0 by {
                        if b == grown.len() - 1 {
                            assert(before[a].0 != key);
                        }
                    }
                }
                self.entries = entries;
                proof {
                    assert(self.entries_view() =~= before.push((key, value)));
                    assert(self.entries_view().drop_last() =~= before);
                }
            },
        }
    }

    /// Number of registers.
    pub fn len(&self) -> (r: usize)
        ensures
            r == self.view().dom().len(),
            r == self.entries_view().len(),
    {
        proof {
            use_type_invariant(&*self);
            self.lemma_entries();
        }
        self.entries.len()
    }

    /// The map built from the first `k` entries is the union of their pairs.
    pub proof fn lemma_view_prefix(&self, k: int)
        requires
            0 <= k <= self.entries_view().len(),
        ensures
            k == 0 ==> map_of(self.entries_view().take(k)) == Map::<Seq<char>, u16>::empty(),
    {
        if k == 0 {
            assert(self.entries_view().take(0) =~= Seq::<(Seq<char>, u16)>::empty());
        }
    }

    /// The `i`-th entry in insertion order.
    pub fn entry(&self, i: usize) -> (r: (&String, u16))
        requires
            i < self.entries_view().len(),
        ensures
            r.0@ == self.entries_view()[i as int].0,
            r.1 == self.entries_view()[i as int].1,
    {
        let e = &self.entries[i];
        (&e.0, e.1)
    }
}

impl Clone for RegisterMap {
    fn clone(&self) -> (r: Self)
        ensures
            r.entries_view() == self.entries_view(),
            r.view() == self.view(),
    {
        proof {
            use_type_invariant(&*self);
        }
        let mut entries: Vec<(String, u16)> = Vec::new();
        let mut i: usize = 0;
        while i < self.entries.len()
            invariant
                i <= self.entries@.len(),
                distinct_names(self.entries_view()),
                entries@.map_values(|e: (String, u16)| (e.0@, e.1)) == self.entries_view().take(
                    i as int,
                ),
            decreases self.entries@.len() - i,
        {
            let name = self.entries[i].0.clone();
            let ghost prev = entries@;
            entries.push((name, self.entries[i].1));
            proof {
                assert(entries@ == prev.push((name, self.entries@[i as int].1)));
                assert(name@ == self.entries@[i as int].0@);
                assert(self.entries_view()[i as int] == (self.entries@[i as int].0@, self.entries@[i as int].1));
                assert(prev.map_values(|e: (String, u16)| (e.0@, e.1)).len() == i);
            }
            i = i + 1;
            assert(entries@.map_values(|e: (String, u16)| (e.0@, e.1)) =~= self.entries_view().take(
                i as int,
            ));
        }
        assert(self.entries_view().take(self.entries@.len() as int) =~= self.entries_view());
        RegisterMap { entries }
    }
}

} // verus!
