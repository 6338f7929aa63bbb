//! A flat table from names to values, kept as two parallel vectors in which
//! no name occurs twice.

use vstd::prelude::*;

verus! {

/// A flat mapping from names to values.
pub struct NameMap<V> {
    pub keys: Vec<String>,
    pub vals: Vec<V>,
}

impl<V> NameMap<V> {
    /// The name stored at position `i`.
    pub open spec fn key_at(&self, i: int) -> Seq<char> {
        self.keys[i]@
    }

    /// The two vectors run in parallel and no name occurs twice.
    pub open spec fn wf(&self) -> bool {
        &&& self.keys.len() == self.vals.len()
        &&& forall|i: int, j: int|
            0 <= i < j < self.keys.len() ==> #[trigger] self.key_at(i) != #[trigger] self.key_at(j)
    }

    /// Whether the name `k` is bound.
    pub open spec fn has(&self, k: Seq<char>) -> bool {
        exists|i: int| 0 <= i < self.keys.len() && #[trigger] self.key_at(i) == k
    }

    /// A position at which `k` is stored, where it is bound.
    pub open spec fn index_of(&self, k: Seq<char>) -> int {
        choose|i: int| 0 <= i < self.keys.len() && #[trigger] self.key_at(i) == k
    }

    /// The mapping this table stands for.
    pub open spec fn view(&self) -> Map<Seq<char>, V> {
        Map::new(|k: Seq<char>| self.has(k), |k: Seq<char>| self.vals[self.index_of(k)])
    }

    /// In a well-formed table, position `i` holds the binding of its name.
    pub proof fn lemma_at(&self, i: int)
        requires
            self.wf(),
            0 <= i < self.keys.len(),
        ensures
            self@.contains_key(self.key_at(i)),
            self@[self.key_at(i)] == self.vals[i],
            self.index_of(self.key_at(i)) == i,
    {
        let k = self.key_at(i);
        assert(self.has(k));
        let j = self.index_of(k);
        assert(0 <= j < self.keys.len() && self.key_at(j) == k);
        if j < i {
            assert(self.key_at(j) != self.key_at(i));
        }
        if i < j {
            assert(self.key_at(i) != self.key_at(j));
        }
    }

    /// A table with the same names at the same positions binds the same
    /// names, each at the position where this one binds it.
    pub proof fn lemma_same_names<W>(&self, other: &NameMap<W>)
        requires
            self.wf(),
            other.keys.len() == self.keys.len(),
            other.vals.len() == self.keys.len(),
            forall|i: int| 0 <= i < self.keys.len() ==> #[trigger] other.key_at(i) == self.key_at(i),
        ensures
            other.wf(),
            forall|k: Seq<char>| #[trigger] self.has(k) == other.has(k),
            forall|k: Seq<char>| #[trigger]
                self.has(k) ==> self.index_of(k) == other.index_of(k) && 0 <= self.index_of(k)
                    < self.keys.len(),
    {
        assert forall|i: int, j: int| 0 <= i < j < other.keys.len() implies other.key_at(i)
            != other.key_at(j) by {
            assert(self.key_at(i) != self.key_at(j));
        }
        assert forall|k: Seq<char>| #[trigger] self.has(k) == other.has(k) by {
            if self.has(k) {
                let j = self.index_of(k);
                assert(other.key_at(j) == k);
            }
            if other.has(k) {
                let j = other.index_of(k);
                assert(self.key_at(j) == k);
            }
        }
        assert forall|k: Seq<char>| #[trigger] self.has(k) implies self.index_of(k)
            == other.index_of(k) && 0 <= self.index_of(k) < self.keys.len() by {
            let j = self.index_of(k);
            assert(other.key_at(j) == k);
            self.lemma_at(j);
            other.lemma_at(j);
        }
    }

    /// Copies of the names, in their order.
    pub fn copy_keys(&self) -> (r: Vec<String>)
        ensures
            r.len() == self.keys.len(),
            forall|i: int| 0 <= i < r.len() ==> #[trigger] r[i]@ == self.key_at(i),
    {
        let mut out: Vec<String> = Vec::new();
        let mut i: usize = 0;
        while i < self.keys.len()
            invariant
                i <= self.keys.len(),
                out.len() == i,
                forall|j: int| 0 <= j < i ==> #[trigger] out[j]@ == self.key_at(j),
            decreases self.keys.len() - i,
        {
            out.push(self.keys[i].clone());
            i += 1;
        }
        out
    }

    /// An empty table.
    pub fn new() -> (m: Self)
        ensures
            m.wf(),
            m@ == Map::<Seq<char>, V>::empty(),
    {
        let m = NameMap { keys: Vec::new(), vals: Vec::new() };
        assert(m@ =~= Map::<Seq<char>, V>::empty());
        m
    }

    /// The position of `name`, if it is bound.
    pub fn find(&self, name: &String) -> (r: Option<usize>)
        requires
            self.wf(),
        ensures
            match r {
                Some(i) => i < self.keys.len() && self.key_at(i as int) == name@,
                None => !self.has(name@),
            },
    {
        let mut i: usize = 0;
        while i < self.keys.len()
            invariant
                i <= self.keys.len(),
                forall|j: int| 0 <= j < i ==> #[trigger] self.key_at(j) != name@,
            decreases self.keys.len() - i,
        {
            if self.keys[i] == *name {
                return Some(i);
            }
            i += 1;
        }
        None
    }

    /// The value bound to `name`, if any.
    pub fn get(&self, name: &String) -> (r: Option<&V>)
        requires
            self.wf(),
        ensures
            match r {
                Some(v) => self@.contains_key(name@) && *v == self@[name@],
                None => !self@.contains_key(name@),
            },
    {
        match self.find(name) {
            Some(i) => {
                proof {
                    self.lemma_at(i as int);
                }
                Some(&self.vals[i])
            },
            None => None,
        }
    }

    /// Whether `name` is bound.
    pub fn contains(&self, name: &String) -> (r: bool)
        requires
            self.wf(),
        ensures
            r == self@.contains_key(name@),
    {
        match self.find(name) {
            Some(i) => {
                proof {
                    self.lemma_at(i as int);
                }
                true
            },
            None => false,
        }
    }

    /// Binds `name` to `value`, replacing an earlier binding of the same name.
    #[verifier::rlimit(60)]
    pub fn insert(&mut self, name: String, value: V)
        requires
            old(self).wf(),
        ensures
            final(self).wf(),
            final(self)@ == old(self)@.insert(name@, value),
    {
        let ghost before = *self;
        match self.find(&name) {
            Some(i) => {
                self.vals.set(i, value);
                proof {
                    let after = *self;
                    assert(after.keys == before.keys);
                    assert forall|a: int, b: int| 0 <= a < b < after.keys.len() implies after.key_at(
                        a,
                    ) != after.key_at(b) by {
                        assert(before.key_at(a) != before.key_at(b));
                    }
                    assert forall|k: Seq<char>| after.has(k) == before.has(k) by {
                        if before.has(k) {
                            let j = before.index_of(k);
                            assert(after.key_at(j) == k);
                        }
                        if after.has(k) {
                            let j = after.index_of(k);
                            assert(before.key_at(j) == k);
                        }
                    }
                    assert forall|k: Seq<char>| after.has(k) implies #[trigger] after@[k]
                        == before@.insert(name@, value)[k] by {
                        let j = after.index_of(k);
                        assert(before.key_at(j) == k);
                        before.lemma_at(j);
                        after.lemma_at(j);
                        before.lemma_at(i as int);
                    }
                    assert(before.has(name@)) by {
                        assert(before.key_at(i as int) == name@);
                    }
                    assert(after@ =~= before@.insert(name@, value));
                }
            },
            None => {
                self.keys.push(name);
                self.vals.push(value);
                proof {
                    let after = *self;
                    let n = before.keys.len() as int;
                    assert forall|a: int| 0 <= a < n implies after.key_at(a) == before.key_at(
                        a,
                    ) by {}
                    assert(after.key_at(n) == name@);
                    assert forall|a: int, b: int| 0 <= a < b < after.keys.len() implies after.key_at(
                        a,
                    ) != after.key_at(b) by {
                        if b < n {
                            assert(before.key_at(a) != before.key_at(b));
                        } else {
                            assert(before.key_at(a) == after.key_at(a));
                        }
                    }
                    assert forall|k: Seq<char>| after.has(k) == (before.has(k) || k == name@) by {
                        if before.has(k) {
                            let j = before.index_of(k);
                            assert(after.key_at(j) == k);
                        }
                        if after.has(k) {
                            let j = after.index_of(k);
                            if j < n {
                                assert(before.key_at(j) == k);
                            }
                        }
                    }
                    assert forall|k: Seq<char>| after.has(k) implies #[trigger] after@[k]
                        == before@.insert(name@, value)[k] by {
                        let j = after.index_of(k);
                        after.lemma_at(j);
                        if j < n {
                            assert(before.key_at(j) == k);
                            before.lemma_at(j);
                        }
                    }
                    assert(after@ =~= before@.insert(name@, value));
                }
            },
        }
    }
}

} // verus!
