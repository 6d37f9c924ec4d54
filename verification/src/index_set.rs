//! An ordered, duplicate-free registry of entity indices.

use vstd::prelude::*;

verus! {

/// The sequence `s` with the value `k` taken out, the order of the rest kept.
pub open spec fn without(s: Seq<u64>, k: u64) -> Seq<u64> {
    if s.contains(k) {
        s.remove(s.index_of(k))
    } else {
        s
    }
}

/// Taking a value out of a duplicate-free sequence leaves a duplicate-free
/// sequence that holds exactly the other values.
pub proof fn lemma_without(s: Seq<u64>, k: u64)
    requires
        s.no_duplicates(),
    ensures
        without(s, k).no_duplicates(),
        !without(s, k).contains(k),
        forall|j: u64| j != k ==> (#[trigger] without(s, k).contains(j) <==> s.contains(j)),
        s.contains(k) ==> without(s, k).len() == s.len() - 1,
{
    if s.contains(k) {
        let i = s.index_of(k);
        let r = s.remove(i);
        assert forall|a: int, b: int| 0 <= a < r.len() && 0 <= b < r.len() && a != b implies r[a]
            != r[b] by {
            let a0 = if a < i { a } else { a + 1 };
            let b0 = if b < i { b } else { b + 1 };
            assert(r[a] == s[a0] && r[b] == s[b0]);
        }
        assert forall|j: u64| j != k implies (#[trigger] r.contains(j) <==> s.contains(j)) by {
            if r.contains(j) {
                let a = choose|a: int| 0 <= a < r.len() && r[a] == j;
                let a0 = if a < i { a } else { a + 1 };
                assert(s[a0] == j);
            }
            if s.contains(j) {
                let a0 = choose|a0: int| 0 <= a0 < s.len() && s[a0] == j;
                let a = if a0 < i { a0 } else { a0 - 1 };
                assert(r[a] == j);
            }
        }
        if r.contains(k) {
            let a = choose|a: int| 0 <= a < r.len() && r[a] == k;
            let a0 = if a < i { a } else { a + 1 };
            assert(s[a0] == k && s[i] == k && a0 != i);
        }
    }
}

/// The live indices of one kind of entity, in the order they were inserted.
pub struct IndexSet {
    indices: Vec<u64>,
}

impl View for IndexSet {
    type V = Seq<u64>;

    closed spec fn view(&self) -> Seq<u64> {
        self.indices@
    }
}

impl IndexSet {
    /// No index occurs twice.
    pub open spec fn wf(&self) -> bool {
        self@.no_duplicates()
    }

    pub fn new() -> (s: IndexSet)
        ensures
            s.wf(),
            s@ == Seq::<u64>::empty(),
    {
        IndexSet { indices: Vec::new() }
    }

    pub fn len(&self) -> (n: usize)
        ensures
            n == self@.len(),
    {
        self.indices.len()
    }

    pub fn is_empty(&self) -> (b: bool)
        ensures
            b == (self@.len() == 0),
    {
        self.indices.len() == 0
    }

    /// Position of `index` in insertion order, if it is live.
    pub fn position(&self, index: u64) -> (p: Option<usize>)
        ensures
            match p {
                Some(i) => i < self@.len() && self@[i as int] == index && forall|j: int|
                    0 <= j < i ==> self@[j] != index,
                None => !self@.contains(index),
            },
    {
        let mut i: usize = 0;
        while i < self.indices.len()
            invariant
                i <= self.indices@.len(),
                forall|j: int| 0 <= j < i ==> self.indices@[j] != index,
            decreases self.indices@.len() - i,
        {
            if self.indices[i] == index {
                return Some(i);
            }
            i += 1;
        }
        None
    }

    pub fn contains(&self, index: u64) -> (b: bool)
        ensures
            b == self@.contains(index),
    {
        self.position(index).is_some()
    }

    /// Appends `index` unless it is already live; says whether it was appended.
    pub fn insert(&mut self, index: u64) -> (inserted: bool)
        requires
            old(self).wf(),
        ensures
            final(self).wf(),
            inserted == !old(self)@.contains(index),
            final(self)@ == if inserted {
                old(self)@.push(index)
            } else {
                old(self)@
            },
    {
        if self.contains(index) {
            false
        } else {
            self.indices.push(index);
            true
        }
    }

    /// Takes `index` out, keeping the order of the rest; says whether it was live.
    pub fn remove(&mut self, index: u64) -> (removed: bool)
        requires
            old(self).wf(),
        ensures
            final(self).wf(),
            removed == old(self)@.contains(index),
            final(self)@ == without(old(self)@, index),
    {
        proof {
            lemma_without(self@, index);
        }
        match self.position(index) {
            Some(i) => {
                assert(self@.index_of(index) == i as int);
                self.indices.remove(i);
                true
            },
            None => false,
        }
    }

    /// The index at position `i` of the insertion order.
    pub fn get(&self, i: usize) -> (index: u64)
        requires
            i < self@.len(),
        ensures
            index == self@[i as int],
    {
        self.indices[i]
    }

    /// A frozen copy of the live indices, safe to walk while entities are
    /// destroyed.
    pub fn to_vec(&self) -> (v: Vec<u64>)
        ensures
            v@ == self@,
    {
        let mut v: Vec<u64> = Vec::new();
        let mut i: usize = 0;
        while i < self.indices.len()
            invariant
                i <= self.indices@.len(),
                v@ == self.indices@.take(i as int),
            decreases self.indices@.len() - i,
        {
            v.push(self.indices[i]);
            assert(self.indices@.take(i + 1) == self.indices@.take(i as int).push(
                self.indices@[i as int],
            ));
            i += 1;
        }
        assert(self.indices@.take(i as int) == self.indices@);
        v
    }
}

} // verus!
