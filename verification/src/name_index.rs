//! A map from names to small values, kept as a list of distinct names.
use vstd::prelude::*;

verus! {

broadcast use vstd::string::group_string_axioms;

/// Values looked up by name; storing under a name that is already present
/// replaces its value, as a map does.
pub struct NameIndex<V> {
    entries: Vec<(String, V)>,
}

impl<V: Copy> View for NameIndex<V> {
    type V = Map<Seq<char>, V>;

    closed spec fn view(&self) -> Map<Seq<char>, V> {
        Map::new(
            |name: Seq<char>| exists|i: int| 0 <= i < self.entries@.len() && #[trigger] self.entries@[i].0@ == name,
            |name: Seq<char>|
                self.entries@[choose|i: int| 0 <= i < self.entries@.len() && #[trigger] self.entries@[i].0@ == name].1,
        )
    }
}

impl<V: Copy> NameIndex<V> {
    /// The values in the order their names were first stored.
    pub closed spec fn values(&self) -> Seq<V> {
        self.entries@.map_values(|e: (String, V)| e.1)
    }

    pub closed spec fn wf(&self) -> bool {
        forall|i: int, j: int|
            0 <= i < self.entries@.len() && 0 <= j < self.entries@.len() && i != j
                ==> #[trigger] self.entries@[i].0@ != #[trigger] self.entries@[j].0@
    }

    /// The names in the order they were first stored.
    pub closed spec fn names(&self) -> Seq<Seq<char>> {
        self.entries@.map_values(|e: (String, V)| e.0@)
    }

    /// The `i`-th stored value is the value of the `i`-th stored name.
    pub proof fn lemma_value_named(&self, i: int)
        requires
            self.wf(),
            0 <= i < self.values().len(),
        ensures
            self.names().len() == self.values().len(),
            self@.contains_key(self.names()[i]),
            self@[self.names()[i]] == self.values()[i],
    {
        let name = self.entries@[i].0@;
        assert(self@.contains_key(name));
        let j = choose|j: int| 0 <= j < self.entries@.len() && #[trigger] self.entries@[j].0@ == name;
        assert(j == i);
    }

    /// An index without values holds no names.
    pub proof fn lemma_empty(&self)
        requires
            self.values().len() == 0,
        ensures
            self@ == Map::<Seq<char>, V>::empty(),
    {
        assert(self@ =~= Map::<Seq<char>, V>::empty());
    }

    pub fn new() -> (r: Self)
        ensures
            r.wf(),
            r@ == Map::<Seq<char>, V>::empty(),
            r.values() == Seq::<V>::empty(),
    {
        let r = Self { entries: Vec::new() };
        assert(r@ =~= Map::<Seq<char>, V>::empty());
        assert(r.values() =~= Seq::<V>::empty());
        r
    }

    /// Stores `value` under `name`.
    pub fn insert(&mut self, name: String, value: V)
        requires
            old(self).wf(),
        ensures
            final(self).wf(),
            final(self)@ == old(self)@.insert(name@, value),
            old(self)@.contains_key(name@) ==> final(self).values().len() == old(self).values().len(),
            !old(self)@.contains_key(name@) ==> final(self).values() == old(self).values().push(value),
    {
        let ghost key = name@;
        let mut i: usize = 0;
        while i < self.entries.len()
            invariant
                i <= self.entries@.len(),
                self.entries@ == old(self).entries@,
                old(self).wf(),
                key == name@,
                forall|j: int| 0 <= j < i ==> #[trigger] self.entries@[j].0@ != key,
            decreases self.entries@.len() - i,
        {
            if self.entries[i].0 == name {
                let ghost before = self.entries@;
                self.entries.set(i, (name, value));
                proof {
                    assert forall|j: int| 0 <= j < self.entries@.len() implies #[trigger] self.entries@[j].0@
                        == before[j].0@ by {}
                    assert(old(self)@.contains_key(key));
                    assert forall|n: Seq<char>| #[trigger] self@.contains_key(n) == old(self)@.insert(key, value).contains_key(n) by {
                        if old(self)@.contains_key(n) {
                            let k = choose|k: int| 0 <= k < before.len() && #[trigger] before[k].0@ == n;
                            assert(self.entries@[k].0@ == n);
                        }
                        if self@.contains_key(n) {
                            let k = choose|k: int| 0 <= k < before.len() && #[trigger] self.entries@[k].0@ == n;
                            assert(before[k].0@ == n);
                        }
                    }
                    assert forall|n: Seq<char>| #[trigger] self@.contains_key(n) implies self@[n] == old(self)@.insert(key, value)[n] by {
                        if n == key {
                            assert(self.entries@[i as int].0@ == n);
                        } else {
                            let k = choose|k: int| 0 <= k < before.len() && #[trigger] before[k].0@ == n;
                            assert(self.entries@[k].0@ == n);
                        }
                    }
                    assert(self@ =~= old(self)@.insert(key, value));
                }
                return;
            }
            i = i + 1;
        }
        let ghost before = self.entries@;
        self.entries.push((name, value));
        proof {
            let last = before.len() as int;
            assert(!old(self)@.contains_key(key));
            assert forall|n: Seq<char>| #[trigger] self@.contains_key(n) == old(self)@.insert(key, value).contains_key(n) by {
                if n == key {
                    assert(self.entries@[last].0@ == n);
                } else {
                    if old(self)@.contains_key(n) {
                        let k = choose|k: int| 0 <= k < before.len() && #[trigger] before[k].0@ == n;
                        assert(self.entries@[k].0@ == n);
                    }
                }
            }
            assert forall|n: Seq<char>| #[trigger] self@.contains_key(n) implies self@[n] == old(self)@.insert(key, value)[n] by {
                if n == key {
                    assert(self.entries@[last].0@ == n);
                } else {
                    let k = choose|k: int| 0 <= k < before.len() && #[trigger] before[k].0@ == n;
                    assert(self.entries@[k].0@ == n);
                }
            }
            assert(self@ =~= old(self)@.insert(key, value));
            assert(self.values() =~= old(self).values().push(value));
        }
    }

    /// The value stored under `name`.
    pub fn get(&self, name: &str) -> (r: Option<V>)
        requires
            self.wf(),
        ensures
            r == if self@.contains_key(name@) {
                Some(self@[name@])
            } else {
                None
            },
    {
        let key: String = name.to_owned();
        let mut i: usize = 0;
        while i < self.entries.len()
            invariant
                i <= self.entries@.len(),
                self.wf(),
                key@ == name@,
                forall|j: int| 0 <= j < i ==> #[trigger] self.entries@[j].0@ != name@,
            decreases self.entries@.len() - i,
        {
            if self.entries[i].0 == key {
                proof {
                    assert(self@.contains_key(name@));
                    let k = choose|k: int| 0 <= k < self.entries@.len() && #[trigger] self.entries@[k].0@ == name@;
                    assert(k == i);
                }
                return Some(self.entries[i].1);
            }
            i = i + 1;
        }
        None
    }

    /// The number of names.
    pub fn len(&self) -> (r: usize)
        ensures
            r == self.values().len(),
    {
        self.entries.len()
    }

    /// The value of the `i`-th name stored.
    pub fn value_at(&self, i: usize) -> (r: V)
        requires
            i < self.values().len(),
        ensures
            r == self.values()[i as int],
    {
        self.entries[i].1
    }
}

} // verus!
