//! A small table from names to values, kept as a list in order of arrival.
//! Its model is a `Map` from the name's characters to the value. A hash map
//! keyed by `String` would rest on a hasher and on an equality of keys that
//! the verifier is told nothing of; a list that is searched name by name is
//! slower, and every fact about it is proved. Contexts hold a handful of
//! names.

use vstd::prelude::*;

verus! {

#[derive(Debug)]
pub struct Table<V> {
    names: Vec<String>,
    values: Vec<V>,
}

impl<V> Table<V> {
    /// No name occurs twice, and every name has its value.
    pub closed spec fn wf(&self) -> bool {
        &&& self.names@.len() == self.values@.len()
        &&& forall|i: int, j: int|
            0 <= i < j < self.names@.len() ==> self.names@[i]@ != self.names@[j]@
    }

    pub closed spec fn holds(&self, i: int, name: Seq<char>) -> bool {
        0 <= i < self.names@.len() && self.names@[i]@ == name
    }

    pub closed spec fn view(&self) -> Map<Seq<char>, V> {
        Map::new(
            |name: Seq<char>| exists|i: int| self.holds(i, name),
            |name: Seq<char>| self.values@[choose|i: int| self.holds(i, name)],
        )
    }

    /// The number of names.
    pub closed spec fn spec_len(&self) -> nat {
        self.names@.len()
    }

    /// The name at a position of the list.
    pub closed spec fn spec_name(&self, i: int) -> Seq<char> {
        self.names@[i]@
    }

    /// Every position holds a name of the table with its value, and every
    /// name of the table stands at some position.
    pub proof fn lemma_positions(&self)
        requires
            self.wf(),
        ensures
            forall|i: int|
                0 <= i < self.spec_len() ==> self@.contains_key(#[trigger] self.spec_name(i)),
            forall|name: Seq<char>|
                self@.contains_key(name) ==> exists|i: int|
                    0 <= i < self.spec_len() && #[trigger] self.spec_name(i) == name,
            forall|i: int, j: int|
                0 <= i < j < self.spec_len() ==> self.spec_name(i) != self.spec_name(j),
    {
        assert forall|i: int| 0 <= i < self.spec_len() implies self@.contains_key(
            #[trigger] self.spec_name(i),
        ) by {
            assert(self.holds(i, self.spec_name(i)));
        }
        assert forall|name: Seq<char>| self@.contains_key(name) implies exists|i: int|
            0 <= i < self.spec_len() && #[trigger] self.spec_name(i) == name by {
            let i = choose|i: int| self.holds(i, name);
            assert(self.spec_name(i) == name);
        }
    }

    proof fn lemma_value_at(&self, i: int)
        requires
            self.wf(),
            0 <= i < self.names@.len(),
        ensures
            self@.contains_key(self.names@[i]@),
            self@[self.names@[i]@] == self.values@[i],
    {
        let name = self.names@[i]@;
        assert(self.holds(i, name));
        let j = choose|j: int| self.holds(j, name);
        assert(i == j);
    }

    pub fn new() -> (r: Self)
        ensures
            r.wf(),
            r@ == Map::<Seq<char>, V>::empty(),
    {
        let r = Table { names: Vec::new(), values: Vec::new() };
        assert(r@ =~= Map::<Seq<char>, V>::empty());
        r
    }

    pub fn len(&self) -> (n: usize)
        requires
            self.wf(),
        ensures
            n == self.spec_len(),
    {
        self.names.len()
    }

    /// The name at position `i`.
    pub fn name_at(&self, i: usize) -> (name: &String)
        requires
            self.wf(),
            i < self.spec_len(),
        ensures
            name@ == self.spec_name(i as int),
            self@.contains_key(name@),
    {
        proof {
            self.lemma_value_at(i as int);
        }
        &self.names[i]
    }

    /// The value at position `i`.
    pub fn value_at(&self, i: usize) -> (value: &V)
        requires
            self.wf(),
            i < self.spec_len(),
        ensures
            self@.contains_key(self.spec_name(i as int)),
            *value == self@[self.spec_name(i as int)],
    {
        proof {
            self.lemma_value_at(i as int);
        }
        &self.values[i]
    }

    /// The position of a name, if the table has it.
    fn find(&self, name: &str) -> (r: Option<usize>)
        requires
            self.wf(),
        ensures
            match r {
                Some(i) => self.holds(i as int, name@),
                None => !self@.contains_key(name@),
            },
    {
        let wanted = name.to_owned();
        let mut i: usize = 0;
        while i < self.names.len()
            invariant
                i <= self.names@.len(),
                wanted@ == name@,
                forall|j: int| 0 <= j < i ==> !self.holds(j, name@),
            decreases self.names@.len() - i,
        {
            if self.names[i] == wanted {
                return Some(i);
            }
            i += 1;
        }
        None
    }

    pub fn get(&self, name: &str) -> (r: Option<&V>)
        requires
            self.wf(),
        ensures
            match r {
                Some(v) => self@.contains_key(name@) && *v == self@[name@],
                None => !self@.contains_key(name@),
            },
    {
        match self.find(name) {
            Some(i) => {
                proof {
                    self.lemma_value_at(i as int);
                }
                Some(&self.values[i])
            },
            None => None,
        }
    }

    /// Binds `name` to `value`, in place of what it was bound to.
    pub fn insert(&mut self, name: &str, value: V)
        requires
            old(self).wf(),
        ensures
            final(self).wf(),
            final(self)@ == old(self)@.insert(name@, value),
    {
        let ghost before = *self;
        match self.find(name) {
            Some(i) => {
                self.values.set(i, value);
                proof {
                    let after = *self;
                    assert forall|k: Seq<char>|
                        after@.contains_key(k) == before@.insert(name@, value).contains_key(
                            k,
                        ) by {
                        if after@.contains_key(k) {
                            let j = choose|j: int| after.holds(j, k);
                            assert(before.holds(j, k));
                        }
                        if before@.contains_key(k) {
                            let j = choose|j: int| before.holds(j, k);
                            assert(after.holds(j, k));
                        }
                        if k == name@ {
                            assert(after.holds(i as int, k));
                        }
                    }
                    assert forall|k: Seq<char>| after@.contains_key(k) implies after@[k]
                        == before@.insert(name@, value)[k] by {
                        let j = choose|j: int| after.holds(j, k);
                        after.lemma_value_at(j);
                        if k != name@ {
                            assert(before.holds(j, k));
                            before.lemma_value_at(j);
                        } else {
                            assert(j == i);
                        }
                    }
                    assert(after@ =~= before@.insert(name@, value));
                }
            },
            None => {
                self.names.push(name.to_owned());
                self.values.push(value);
                proof {
                    let after = *self;
                    let n = before.names@.len() as int;
                    assert forall|j: int| 0 <= j < n implies after.names@[j]@ != name@ by {
                        if after.names@[j]@ == name@ {
                            assert(before.holds(j, name@));
                        }
                    }
                    assert(after.wf());
                    assert forall|k: Seq<char>|
                        after@.contains_key(k) == before@.insert(name@, value).contains_key(
                            k,
                        ) by {
                        if after@.contains_key(k) {
                            let j = choose|j: int| after.holds(j, k);
                            if j < n {
                                assert(before.holds(j, k));
                            }
                        }
                        if before@.contains_key(k) {
                            let j = choose|j: int| before.holds(j, k);
                            assert(after.holds(j, k));
                        }
                        if k == name@ {
                            assert(after.holds(n, k));
                        }
                    }
                    assert forall|k: Seq<char>| after@.contains_key(k) implies after@[k]
                        == before@.insert(name@, value)[k] by {
                        let j = choose|j: int| after.holds(j, k);
                        after.lemma_value_at(j);
                        if j < n {
                            assert(before.holds(j, k));
                            before.lemma_value_at(j);
                        }
                    }
                    assert(after@ =~= before@.insert(name@, value));
                }
            },
        }
    }

    /// Takes `name` and its value out of the table.
    pub fn remove(&mut self, name: &str) -> (r: Option<V>)
        requires
            old(self).wf(),
        ensures
            final(self).wf(),
            final(self)@ == old(self)@.remove(name@),
            match r {
                Some(v) => old(self)@.contains_key(name@) && v == old(self)@[name@],
                None => !old(self)@.contains_key(name@),
            },
    {
        let ghost before = *self;
        match self.find(name) {
            Some(i) => {
                proof {
                    before.lemma_value_at(i as int);
                }
                let _ = self.names.remove(i);
                let value = self.values.remove(i);
                proof {
                    let after = *self;
                    assert(after.names@ == before.names@.remove(i as int));
                    assert(after.values@ == before.values@.remove(i as int));
                    assert forall|a: int, b: int|
                        0 <= a < b < after.names@.len() implies after.names@[a]@
                        != after.names@[b]@ by {
                        let a0 = if a < i { a } else { a + 1 };
                        let b0 = if b < i { b } else { b + 1 };
                        assert(after.names@[a] == before.names@[a0]);
                        assert(after.names@[b] == before.names@[b0]);
                    }
                    assert forall|k: Seq<char>|
                        after@.contains_key(k) == before@.remove(name@).contains_key(k) by {
                        if after@.contains_key(k) {
                            let j = choose|j: int| after.holds(j, k);
                            let j0 = if j < i { j } else { j + 1 };
                            assert(before.holds(j0, k));
                            assert(j0 != i);
                        }
                        if before@.contains_key(k) && k != name@ {
                            let j = choose|j: int| before.holds(j, k);
                            let j1 = if j < i { j } else { j - 1 };
                            assert(after.holds(j1, k));
                        }
                    }
                    assert forall|k: Seq<char>| after@.contains_key(k) implies after@[k]
                        == before@.remove(name@)[k] by {
                        let j = choose|j: int| after.holds(j, k);
                        let j0 = if j < i { j } else { j + 1 };
                        after.lemma_value_at(j);
                        assert(before.holds(j0, k));
                        before.lemma_value_at(j0);
                    }
                    assert(after@ =~= before@.remove(name@));
                }
                Some(value)
            },
            None => {
                assert(self@ =~= before@.remove(name@));
                None
            },
        }
    }
}

} // verus!
