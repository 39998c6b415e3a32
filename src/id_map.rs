use vstd::prelude::*;

verus! {

/// A table of values keyed by 32-bit ids, oldest entry first.
pub struct IdMap<V> {
    entries: Vec<(i32, V)>,
    contents: Ghost<Map<i32, V>>,
}

impl<V> IdMap<V> {
    /// The entries as a map.
    pub closed spec fn map(&self) -> Map<i32, V> {
        self.contents@
    }

    pub closed spec fn wf(&self) -> bool {
        &&& forall|i: int, j: int|
            0 <= i < j < self.entries@.len() ==> self.entries@[i].0 != self.entries@[j].0
        &&& forall|i: int|
            0 <= i < self.entries@.len() ==> self.contents@.contains_key(#[trigger] self.entries@[i].0)
                && self.contents@[self.entries@[i].0] == self.entries@[i].1
        &&& forall|k: i32|
            self.contents@.contains_key(k) ==> exists|i: int|
                0 <= i < self.entries@.len() && #[trigger] self.entries@[i].0 == k
        &&& self.contents@.dom().finite()
        &&& self.contents@.dom().len() == self.entries@.len()
    }

    pub fn new() -> (m: IdMap<V>)
        ensures
            m.wf(),
            m.map() == Map::<i32, V>::empty(),
    {
        IdMap { entries: Vec::new(), contents: Ghost(Map::empty()) }
    }

    pub fn len(&self) -> (r: usize)
        requires
            self.wf(),
        ensures
            r == self.map().dom().len(),
    {
        self.entries.len()
    }

    pub fn is_empty(&self) -> (r: bool)
        requires
            self.wf(),
        ensures
            r == (self.map().dom().len() == 0),
    {
        self.entries.len() == 0
    }

    fn find(&self, k: i32) -> (r: Option<usize>)
        requires
            self.wf(),
        ensures
            match r {
                Some(i) => i < self.entries@.len() && self.entries@[i as int].0 == k,
                None => !self.contents@.contains_key(k),
            },
    {
        let mut i: usize = 0;
        while i < self.entries.len()
            invariant
                i <= self.entries@.len(),
                forall|j: int| 0 <= j < i ==> self.entries@[j].0 != k,
            decreases self.entries@.len() - i,
        {
            if self.entries[i].0 == k {
                return Some(i);
            }
            i += 1;
        }
        None
    }

    pub fn contains_key(&self, k: i32) -> (r: bool)
        requires
            self.wf(),
        ensures
            r == self.map().contains_key(k),
    {
        self.find(k).is_some()
    }

    /// Sets the value of `k`, replacing any earlier one.
    pub fn insert(&mut self, k: i32, v: V)
        requires
            old(self).wf(),
        ensures
            final(self).wf(),
            final(self).map() == old(self).map().insert(k, v),
    {
        let ghost old_entries = self.entries@;
        let ghost old_map = self.contents@;
        let found = self.find(k);
        let pos: usize = match found {
            Some(i) => i,
            None => self.entries.len(),
        };
        self.contents = Ghost(self.contents@.insert(k, v));
        if found.is_some() {
            self.entries.set(pos, (k, v));
        } else {
            self.entries.push((k, v));
        }
        proof {
            assert(self.entries@[pos as int].0 == k);
            assert(forall|i: int|
                0 <= i < old_entries.len() && i != pos ==> self.entries@[i] == old_entries[i]);
            assert forall|k2: i32| self.contents@.contains_key(k2) implies exists|i: int|
                0 <= i < self.entries@.len() && #[trigger] self.entries@[i].0 == k2 by {
                if k2 == k {
                    assert(self.entries@[pos as int].0 == k2);
                } else {
                    let i0 = choose|i: int| 0 <= i < old_entries.len() && #[trigger] old_entries[i].0 == k2;
                    assert(self.entries@[i0].0 == k2);
                }
            }
            if found.is_none() {
                assert(forall|i: int| 0 <= i < old_entries.len() ==> old_entries[i].0 != k);
                assert(self.contents@.dom() =~= old_map.dom().insert(k));
            } else {
                assert(self.contents@.dom() =~= old_map.dom());
            }
        }
    }

    fn remove_at(&mut self, i: usize) -> (r: (i32, V))
        requires
            old(self).wf(),
            i < old(self).entries@.len(),
        ensures
            final(self).wf(),
            r == old(self).entries@[i as int],
            old(self).map().contains_key(r.0),
            old(self).map()[r.0] == r.1,
            final(self).map() == old(self).map().remove(r.0),
    {
        let ghost old_entries = self.entries@;
        let ghost old_map = self.contents@;
        let r = self.entries.remove(i);
        self.contents = Ghost(self.contents@.remove(r.0));
        proof {
            assert(forall|j: int|
                0 <= j < self.entries@.len() ==> self.entries@[j] == old_entries[if j < i {
                    j
                } else {
                    j + 1
                }]);
            assert forall|k2: i32| self.contents@.contains_key(k2) implies exists|j: int|
                0 <= j < self.entries@.len() && #[trigger] self.entries@[j].0 == k2 by {
                let i0 = choose|j: int| 0 <= j < old_entries.len() && #[trigger] old_entries[j].0 == k2;
                if i0 < i {
                    assert(self.entries@[i0].0 == k2);
                } else {
                    assert(self.entries@[i0 - 1].0 == k2);
                }
            }
            assert(self.contents@.dom() =~= old_map.dom().remove(r.0));
        }
        r
    }

    /// Removes `k` and returns its value, if it is there.
    pub fn remove(&mut self, k: i32) -> (r: Option<V>)
        requires
            old(self).wf(),
        ensures
            final(self).wf(),
            final(self).map() == old(self).map().remove(k),
            r == if old(self).map().contains_key(k) {
                Some(old(self).map()[k])
            } else {
                None
            },
    {
        match self.find(k) {
            Some(i) => {
                let (_, v) = self.remove_at(i);
                Some(v)
            },
            None => {
                assert(self.contents@.remove(k) =~= self.contents@);
                None
            },
        }
    }

    /// Removes and returns the oldest entry, if there is one.
    pub fn take_first(&mut self) -> (r: Option<(i32, V)>)
        requires
            old(self).wf(),
        ensures
            final(self).wf(),
            old(self).map().dom().len() == 0 ==> r is None && final(self).map() == old(self).map(),
            old(self).map().dom().len() > 0 ==> (r matches Some(e) && old(self).map().contains_key(
                e.0,
            ) && old(self).map()[e.0] == e.1 && final(self).map() == old(self).map().remove(e.0)),
    {
        if self.entries.len() == 0 {
            return None;
        }
        Some(self.remove_at(0))
    }
}

} // verus!
