//! Collections keyed by a name: a set of names and a map from names.
//!
//! Names are compared as text. Both collections keep each name once; their
//! views are the mathematical set and map over `Seq<char>`.

use vstd::prelude::*;

verus! {

/// The texts of a list of strings, in order.
pub open spec fn texts(list: Seq<String>) -> Seq<Seq<char>> {
    list.map_values(|s: String| s@)
}

/// Whether `list` names each member of `s` exactly once, and nothing else.
pub open spec fn enumerates(list: Seq<String>, s: Set<Seq<char>>) -> bool {
    &&& forall|i: int, j: int| 0 <= i < j < list.len() ==> list[i]@ != list[j]@
    &&& forall|a: Seq<char>| s.contains(a) <==> exists|i: int| 0 <= i < list.len() && list[i]@ == a
}

/// Whether `name` is the text of one of the strings of `list`.
pub open spec fn listed(list: Seq<String>, name: Seq<char>) -> bool {
    exists|i: int| 0 <= i < list.len() && list[i]@ == name
}

/// Whether `name` is the text of one of the strings of `list`.
pub fn has_name(list: &Vec<String>, name: &str) -> (r: bool)
    ensures
        r == listed(list@, name@),
{
    let needle = String::from_str(name);
    find_name(list, &needle).is_some()
}

/// The index of the first string of `list` whose text is `a`, if there is one.
fn find_name(list: &Vec<String>, name: &String) -> (r: Option<usize>)
    ensures
        match r {
            Some(i) => i < list.len() && list@[i as int]@ == name@,
            None => forall|k: int| 0 <= k < list.len() ==> list@[k]@ != name@,
        },
{
    let mut i: usize = 0;
    while i < list.len()
        invariant
            i <= list.len(),
            forall|k: int| 0 <= k < i ==> list@[k]@ != name@,
        decreases list.len() - i,
    {
        if list[i] == *name {
            return Some(i);
        }
        i += 1;
    }
    None
}

/// A finite set of names.
#[derive(Debug)]
pub struct NameSet {
    names: Vec<String>,
}

impl View for NameSet {
    type V = Set<Seq<char>>;

    closed spec fn view(&self) -> Set<Seq<char>> {
        Set::new(
            |a: Seq<char>| exists|i: int| 0 <= i < self.names@.len() && self.names@[i]@ == a,
        )
    }
}

impl NameSet {
    #[verifier::type_invariant]
    spec fn inv(&self) -> bool {
        forall|i: int, j: int| 0 <= i < j < self.names@.len() ==> self.names@[i]@ != self.names@[j]@
    }

    /// The empty set.
    pub fn new() -> (r: Self)
        ensures
            r@ == Set::<Seq<char>>::empty(),
    {
        let r = NameSet { names: Vec::new() };
        assert(r@ =~= Set::<Seq<char>>::empty());
        r
    }

    /// Whether `name` is in the set.
    pub fn contains(&self, name: &str) -> (r: bool)
        ensures
            r == self@.contains(name@),
    {
        let needle = String::from_str(name);
        find_name(&self.names, &needle).is_some()
    }

    /// Adds `name` to the set. Tells whether the set grew.
    pub fn insert(&mut self, name: String) -> (added: bool)
        ensures
            final(self)@ == old(self)@.insert(name@),
            added == !old(self)@.contains(name@),
    {
        proof {
            use_type_invariant(&*self);
        }
        match find_name(&self.names, &name) {
            Some(_) => {
                assert(self@ =~= old(self)@.insert(name@));
                false
            },
            None => {
                let mut grown: Vec<String> = Vec::new();
                core::mem::swap(&mut self.names, &mut grown);
                let ghost before = grown@;
                grown.push(name);
                self.names = grown;
                proof {
                    let after = self.names@;
                    assert forall|a: Seq<char>| self@.contains(a) <==> old(self)@.insert(
                        name@,
                    ).contains(a) by {
                        if self@.contains(a) {
                            let k = choose|k: int| 0 <= k < after.len() && after[k]@ == a;
                            if k < before.len() {
                                assert(before[k]@ == a);
                            }
                        }
                        if old(self)@.contains(a) {
                            let k = choose|k: int| 0 <= k < before.len() && before[k]@ == a;
                            assert(after[k]@ == a);
                        }
                        if a == name@ {
                            assert(after[before.len() as int]@ == a);
                        }
                    }
                    assert(self@ =~= old(self)@.insert(name@));
                }
                true
            },
        }
    }

    /// The names of the set, each once.
    pub fn names(&self) -> (r: &Vec<String>)
        ensures
            enumerates(r@, self@),
    {
        proof {
            use_type_invariant(self);
        }
        &self.names
    }

    /// The number of names in the set.
    pub fn len(&self) -> (n: usize)
        ensures
            n == self@.len(),
            self@.finite(),
    {
        proof {
            use_type_invariant(self);
            let t = texts(self.names@);
            assert(t.no_duplicates());
            t.unique_seq_to_set();
            vstd::seq_lib::seq_to_set_is_finite(t);
            assert(t.to_set() =~= self@) by {
                assert forall|a: Seq<char>| t.to_set().contains(a) <==> self@.contains(a) by {
                    if t.contains(a) {
                        let k = choose|k: int| 0 <= k < t.len() && t[k] == a;
                        assert(self.names@[k]@ == a);
                    }
                    if self@.contains(a) {
                        let k = choose|k: int|
                            0 <= k < self.names@.len() && self.names@[k]@ == a;
                        assert(t[k] == a);
                    }
                }
            }
        }
        self.names.len()
    }
}

impl Default for NameSet {
    fn default() -> (r: Self)
        ensures
            r@ == Set::<Seq<char>>::empty(),
    {
        NameSet::new()
    }
}

/// The index of the first entry of `entries` whose name is `name`, if any.
fn find_entry<V>(entries: &Vec<(String, V)>, name: &String) -> (r: Option<usize>)
    ensures
        match r {
            Some(i) => i < entries.len() && entries@[i as int].0@ == name@,
            None => forall|k: int| 0 <= k < entries.len() ==> entries@[k].0@ != name@,
        },
{
    let mut i: usize = 0;
    while i < entries.len()
        invariant
            i <= entries.len(),
            forall|k: int| 0 <= k < i ==> entries@[k].0@ != name@,
        decreases entries.len() - i,
    {
        if entries[i].0 == *name {
            return Some(i);
        }
        i += 1;
    }
    None
}

/// Whether entry `i` of `entries` is the one named `a`.
spec fn names_entry<V>(entries: Seq<(String, V)>, i: int, a: Seq<char>) -> bool {
    0 <= i < entries.len() && entries[i].0@ == a
}

/// The map that a list of entries stands for.
spec fn map_of<V>(entries: Seq<(String, V)>) -> Map<Seq<char>, V> {
    Map::new(
        |a: Seq<char>| exists|i: int| names_entry(entries, i, a),
        |a: Seq<char>| entries[choose|i: int| names_entry(entries, i, a)].1,
    )
}

/// Whether no two entries share a name.
spec fn distinct_names<V>(entries: Seq<(String, V)>) -> bool {
    forall|i: int, j: int| 0 <= i < j < entries.len() ==> entries[i].0@ != entries[j].0@
}

/// In a list with distinct names, the map sends each entry's name to its value.
proof fn lemma_map_of_entry<V>(entries: Seq<(String, V)>, i: int)
    requires
        distinct_names(entries),
        0 <= i < entries.len(),
    ensures
        map_of(entries).dom().contains(entries[i].0@),
        map_of(entries)[entries[i].0@] == entries[i].1,
{
    let a = entries[i].0@;
    assert(names_entry(entries, i, a));
    let k = choose|k: int| names_entry(entries, k, a);
    if k < i {
        assert(entries[k].0@ != entries[i].0@);
    } else if i < k {
        assert(entries[i].0@ != entries[k].0@);
    }
}

/// A finite map from names to values.
#[derive(Debug)]
pub struct NameMap<V> {
    entries: Vec<(String, V)>,
}

impl<V> View for NameMap<V> {
    type V = Map<Seq<char>, V>;

    closed spec fn view(&self) -> Map<Seq<char>, V> {
        map_of(self.entries@)
    }
}

impl<V> NameMap<V> {
    #[verifier::type_invariant]
    spec fn inv(&self) -> bool {
        distinct_names(self.entries@)
    }

    /// The empty map.
    pub fn new() -> (r: Self)
        ensures
            r@ == Map::<Seq<char>, V>::empty(),
    {
        let r = NameMap { entries: Vec::new() };
        assert(r@ =~= Map::<Seq<char>, V>::empty()) by {
            assert forall|a: Seq<char>| !r@.dom().contains(a) by {
                if r@.dom().contains(a) {
                    let i = choose|i: int| names_entry(r.entries@, i, a);
                    assert(names_entry(r.entries@, i, a));
                }
            }
        }
        r
    }

    /// The value kept under `name`, if there is one.
    pub fn get(&self, name: &str) -> (r: Option<&V>)
        ensures
            match r {
                Some(v) => self@.dom().contains(name@) && *v == self@[name@],
                None => !self@.dom().contains(name@),
            },
    {
        proof {
            use_type_invariant(self);
        }
        let needle = String::from_str(name);
        match find_entry(&self.entries, &needle) {
            Some(i) => {
                proof {
                    lemma_map_of_entry(self.entries@, i as int);
                }
                Some(&self.entries[i].1)
            },
            None => {
                proof {
                    if self@.dom().contains(name@) {
                        let k = choose|k: int| names_entry(self.entries@, k, name@);
                        assert(names_entry(self.entries@, k, name@));
                    }
                }
                None
            },
        }
    }

    /// Takes out the value kept under `name`, if there is one.
    pub fn remove(&mut self, name: &str) -> (r: Option<V>)
        ensures
            final(self)@ == old(self)@.remove(name@),
            match r {
                Some(v) => old(self)@.dom().contains(name@) && v == old(self)@[name@],
                None => !old(self)@.dom().contains(name@),
            },
    {
        proof {
            use_type_invariant(&*self);
        }
        let needle = String::from_str(name);
        match find_entry(&self.entries, &needle) {
            Some(i) => {
                let mut entries: Vec<(String, V)> = Vec::new();
                core::mem::swap(&mut self.entries, &mut entries);
                let ghost before = entries@;
                let taken = entries.remove(i);
                self.entries = entries;
                proof {
                    let after = self.entries@;
                    lemma_map_of_entry(before, i as int);
                    assert(distinct_names(after)) by {
                        assert forall|x: int, y: int| 0 <= x < y < after.len() implies after[x].0@
                            != after[y].0@ by {
                            let bx = if x < i { x } else { x + 1 };
                            let by_ = if y < i { y } else { y + 1 };
                            assert(after[x] == before[bx]);
                            assert(after[y] == before[by_]);
                        }
                    }
                    assert forall|a: Seq<char>|
                        map_of(after).dom().contains(a) <==> map_of(before).remove(
                            name@,
                        ).dom().contains(a) by {
                        if map_of(after).dom().contains(a) {
                            let k = choose|k: int| names_entry(after, k, a);
                            let bk = if k < i { k } else { k + 1 };
                            assert(after[k] == before[bk]);
                            assert(names_entry(before, bk, a));
                            if a == name@ {
                                if bk < i {
                                    assert(before[bk].0@ != before[i as int].0@);
                                } else {
                                    assert(before[i as int].0@ != before[bk].0@);
                                }
                            }
                        }
                        if map_of(before).dom().contains(a) && a != name@ {
                            let k = choose|k: int| names_entry(before, k, a);
                            let ak = if k < i { k } else { k - 1 };
                            assert(after[ak] == before[k]);
                            assert(names_entry(after, ak, a));
                        }
                    }
                    assert forall|a: Seq<char>| map_of(after).dom().contains(a) implies map_of(
                        after,
                    )[a] == map_of(before)[a] by {
                        let k = choose|k: int| names_entry(after, k, a);
                        let bk = if k < i { k } else { k + 1 };
                        assert(after[k] == before[bk]);
                        lemma_map_of_entry(after, k);
                        lemma_map_of_entry(before, bk);
                    }
                    assert(self@ =~= old(self)@.remove(name@));
                }
                Some(taken.1)
            },
            None => {
                proof {
                    if self@.dom().contains(name@) {
                        let k = choose|k: int| names_entry(self.entries@, k, name@);
                        assert(names_entry(self.entries@, k, name@));
                    }
                    assert(self@ =~= old(self)@.remove(name@));
                }
                None
            },
        }
    }

    /// Keeps `value` under `name`, in place of what was kept there.
    pub fn insert(&mut self, name: String, value: V)
        ensures
            final(self)@ == old(self)@.insert(name@, value),
    {
        let ghost key = name@;
        let _ = self.remove(name.as_str());
        proof {
            use_type_invariant(&*self);
        }
        let ghost mid = self@;
        let mut entries: Vec<(String, V)> = Vec::new();
        core::mem::swap(&mut self.entries, &mut entries);
        let ghost before = entries@;
        assert(mid == map_of(before));
        entries.push((name, value));
        proof {
            let after = entries@;
            assert(distinct_names(after)) by {
                assert forall|x: int, y: int| 0 <= x < y < after.len() implies after[x].0@
                    != after[y].0@ by {
                    if y == before.len() {
                        assert(after[x] == before[x]);
                        if before[x].0@ == key {
                            assert(names_entry(before, x, key));
                            assert(mid.dom().contains(key));
                        }
                    } else {
                        assert(after[x] == before[x]);
                        assert(after[y] == before[y]);
                    }
                }
            }
        }
        self.entries = entries;
        proof {
            let after = self.entries@;
            let n = before.len() as int;
            assert forall|a: Seq<char>|
                map_of(after).dom().contains(a) <==> old(self)@.insert(key, value).dom().contains(
                    a,
                ) by {
                if map_of(after).dom().contains(a) {
                    let k = choose|k: int| names_entry(after, k, a);
                    if k < n {
                        assert(after[k] == before[k]);
                        assert(names_entry(before, k, a));
                        assert(mid.dom().contains(a));
                    } else {
                        assert(after[n].0@ == key);
                    }
                }
                if a == key {
                    assert(names_entry(after, n, a));
                } else if old(self)@.dom().contains(a) {
                    assert(mid.dom().contains(a));
                    let k = choose|k: int| names_entry(before, k, a);
                    assert(after[k] == before[k]);
                    assert(names_entry(after, k, a));
                }
            }
            assert forall|a: Seq<char>| map_of(after).dom().contains(a) implies map_of(after)[a]
                == old(self)@.insert(key, value)[a] by {
                let k = choose|k: int| names_entry(after, k, a);
                lemma_map_of_entry(after, k);
                if k < n {
                    assert(after[k] == before[k]);
                    lemma_map_of_entry(before, k);
                    assert(names_entry(before, k, a));
                    assert(mid.dom().contains(a));
                }
            }
            assert(self@ =~= old(self)@.insert(key, value));
        }
    }

    /// The names under which values are kept, each once.
    pub fn keys(&self) -> (r: Vec<String>)
        ensures
            enumerates(r@, self@.dom()),
    {
        proof {
            use_type_invariant(self);
        }
        let mut r: Vec<String> = Vec::new();
        let mut i: usize = 0;
        while i < self.entries.len()
            invariant
                i <= self.entries.len(),
                r@.len() == i,
                forall|k: int| 0 <= k < i ==> r@[k]@ == self.entries@[k].0@,
            decreases self.entries.len() - i,
        {
            r.push(self.entries[i].0.clone());
            i += 1;
        }
        proof {
            assert forall|a: Seq<char>| self@.dom().contains(a) <==> exists|k: int|
                0 <= k < r@.len() && r@[k]@ == a by {
                if self@.dom().contains(a) {
                    let k = choose|k: int| names_entry(self.entries@, k, a);
                    assert(r@[k]@ == a);
                }
                if exists|k: int| 0 <= k < r@.len() && r@[k]@ == a {
                    let k = choose|k: int| 0 <= k < r@.len() && r@[k]@ == a;
                    assert(names_entry(self.entries@, k, a));
                }
            }
        }
        r
    }

    /// The number of names under which values are kept.
    pub fn len(&self) -> (n: usize)
        ensures
            n == self@.dom().len(),
            self@.dom().finite(),
    {
        proof {
            use_type_invariant(self);
            let t = self.entries@.map_values(|e: (String, V)| e.0@);
            assert(t.no_duplicates());
            t.unique_seq_to_set();
            vstd::seq_lib::seq_to_set_is_finite(t);
            assert(t.to_set() =~= self@.dom()) by {
                assert forall|a: Seq<char>| t.to_set().contains(a) <==> self@.dom().contains(
                    a,
                ) by {
                    if t.contains(a) {
                        let k = choose|k: int| 0 <= k < t.len() && t[k] == a;
                        assert(names_entry(self.entries@, k, a));
                    }
                    if self@.dom().contains(a) {
                        let k = choose|k: int| names_entry(self.entries@, k, a);
                        assert(t[k] == a);
                    }
                }
            }
        }
        self.entries.len()
    }
}

impl<V> Default for NameMap<V> {
    fn default() -> (r: Self)
        ensures
            r@ == Map::<Seq<char>, V>::empty(),
    {
        NameMap::new()
    }
}

} // verus!
