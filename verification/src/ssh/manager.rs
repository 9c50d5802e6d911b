//! The table of live sessions, keyed by session id.
use vstd::prelude::*;

verus! {

/// Live sessions by id; at most one session per id.
pub struct SessionRegistry<T> {
    entries: Vec<(String, T)>,
}

impl<T> SessionRegistry<T> {
    /// No id occurs twice.
    #[verifier::type_invariant]
    spec fn keys_unique(self) -> bool {
        forall|i: int, j: int|
            0 <= i < j < self.entries@.len() ==> (#[trigger] self.entries@[i]).0@ != (
            #[trigger] self.entries@[j]).0@
    }

    /// Position of the entry for `k`.
    spec fn index_of(self, k: Seq<char>) -> int {
        choose|i: int| 0 <= i < self.entries@.len() && (#[trigger] self.entries@[i]).0@ == k
    }

    /// The sessions by id.
    pub closed spec fn sessions(self) -> Map<Seq<char>, T> {
        Map::new(
            |k: Seq<char>| exists|i: int| 0 <= i < self.entries@.len() && (#[trigger] self.entries@[i]).0@ == k,
            |k: Seq<char>| self.entries@[self.index_of(k)].1,
        )
    }

    /// The entry at `i` is what the session map holds for its id.
    proof fn lemma_lookup(self, i: int)
        requires
            self.keys_unique(),
            0 <= i < self.entries@.len(),
        ensures
            self.sessions().dom().contains(self.entries@[i].0@),
            self.sessions()[self.entries@[i].0@] == self.entries@[i].1,
    {
        let k = self.entries@[i].0@;
        assert(0 <= i < self.entries@.len() && self.entries@[i].0@ == k);
        let j = self.index_of(k);
        if j != i {
            if j < i {
                assert(self.entries@[j].0@ != self.entries@[i].0@);
            } else {
                assert(self.entries@[i].0@ != self.entries@[j].0@);
            }
        }
    }

    /// An empty registry.
    pub fn new() -> (res: Self)
        ensures
            res.sessions() == Map::<Seq<char>, T>::empty(),
    {
        let res = SessionRegistry { entries: Vec::new() };
        assert(res.sessions() =~= Map::<Seq<char>, T>::empty());
        res
    }

    fn position(&self, id: &str) -> (res: Option<usize>)
        ensures
            match res {
                Some(i) => i < self.entries@.len() && self.entries@[i as int].0@ == id@,
                None => !self.sessions().dom().contains(id@),
            },
    {
        let key = crate::text::to_chars(id);
        let mut i: usize = 0;
        while i < self.entries.len()
            invariant
                i <= self.entries@.len(),
                key@ == id@,
                forall|k: int| 0 <= k < i ==> (#[trigger] self.entries@[k]).0@ != id@,
            decreases self.entries@.len() - i,
        {
            let cs = crate::text::to_chars(self.entries[i].0.as_str());
            if crate::text::chars_eq(cs.as_slice(), key.as_slice()) {
                return Some(i);
            }
            i = i + 1;
        }
        None
    }

    /// Registers `session` under `id`, replacing any session registered under it.
    pub fn register(&mut self, id: String, session: T)
        ensures
            final(self).sessions() == old(self).sessions().insert(id@, session),
    {
        proof {
            use_type_invariant(&*self);
        }
        let ghost before = *self;
        match self.position(id.as_str()) {
            Some(i) => {
                let mut entries: Vec<(String, T)> = Vec::new();
                std::mem::swap(&mut entries, &mut self.entries);
                entries.set(i, (id, session));
                self.entries = entries;
                proof {
                    assert forall|a: int, b: int|
                        0 <= a < b < self.entries@.len() implies (#[trigger] self.entries@[a]).0@ != (
                        #[trigger] self.entries@[b]).0@ by {
                        assert(before.entries@[a].0@ != before.entries@[b].0@);
                    }
                    assert(self.keys_unique());
                    assert forall|k: Seq<char>| #[trigger] self.sessions().dom().contains(k) <==> before.sessions().insert(id@, session).dom().contains(k) by {
                        if before.sessions().dom().contains(k) {
                            let j = choose|j: int| 0 <= j < before.entries@.len() && (#[trigger] before.entries@[j]).0@ == k;
                            assert(self.entries@[j].0@ == k);
                        }
                        if self.sessions().dom().contains(k) {
                            let j = choose|j: int| 0 <= j < self.entries@.len() && (#[trigger] self.entries@[j]).0@ == k;
                            if j != i {
                                assert(before.entries@[j].0@ == k);
                            }
                        }
                    }
                    assert forall|k: Seq<char>| #[trigger] self.sessions().dom().contains(k) implies self.sessions()[k] == before.sessions().insert(id@, session)[k] by {
                        let j = choose|j: int| 0 <= j < self.entries@.len() && (#[trigger] self.entries@[j]).0@ == k;
                        self.lemma_lookup(j);
                        if j != i as int {
                            before.lemma_lookup(j);
                        }
                    }
                    assert(self.sessions() =~= before.sessions().insert(id@, session));
                }
            },
            None => {
                let mut entries: Vec<(String, T)> = Vec::new();
                std::mem::swap(&mut entries, &mut self.entries);
                entries.push((id, session));
                self.entries = entries;
                proof {
                    let n = before.entries@.len() as int;
                    assert forall|a: int, b: int|
                        0 <= a < b < self.entries@.len() implies (#[trigger] self.entries@[a]).0@ != (
                        #[trigger] self.entries@[b]).0@ by {
                        if b < n {
                            assert(before.entries@[a].0@ != before.entries@[b].0@);
                        } else {
                            assert(self.entries@[a] == before.entries@[a]);
                            if before.entries@[a].0@ == id@ {
                                assert(before.sessions().dom().contains(id@));
                            }
                        }
                    }
                    assert(self.keys_unique());
                    assert forall|k: Seq<char>| #[trigger] self.sessions().dom().contains(k) <==> before.sessions().insert(id@, session).dom().contains(k) by {
                        if before.sessions().dom().contains(k) {
                            let j = choose|j: int| 0 <= j < before.entries@.len() && (#[trigger] before.entries@[j]).0@ == k;
                            assert(self.entries@[j].0@ == k);
                        }
                        if k == id@ {
                            assert(self.entries@[n].0@ == k);
                        }
                        if self.sessions().dom().contains(k) {
                            let j = choose|j: int| 0 <= j < self.entries@.len() && (#[trigger] self.entries@[j]).0@ == k;
                            if j < n {
                                assert(before.entries@[j].0@ == k);
                            }
                        }
                    }
                    assert forall|k: Seq<char>| #[trigger] self.sessions().dom().contains(k) implies self.sessions()[k] == before.sessions().insert(id@, session)[k] by {
                        let j = choose|j: int| 0 <= j < self.entries@.len() && (#[trigger] self.entries@[j]).0@ == k;
                        self.lemma_lookup(j);
                        if j < n {
                            before.lemma_lookup(j);
                        }
                    }
                    assert(self.sessions() =~= before.sessions().insert(id@, session));
                }
            },
        }
    }

    /// The session registered under `id`.
    pub fn get(&self, id: &str) -> (res: Option<&T>)
        ensures
            match res {
                Some(s) => self.sessions().dom().contains(id@) && *s == self.sessions()[id@],
                None => !self.sessions().dom().contains(id@),
            },
    {
        proof {
            use_type_invariant(&*self);
        }
        match self.position(id) {
            Some(i) => {
                proof {
                    self.lemma_lookup(i as int);
                }
                Some(&self.entries[i].1)
            },
            None => None,
        }
    }

    /// Removes and returns the session registered under `id`.
    pub fn remove(&mut self, id: &str) -> (res: Option<T>)
        ensures
            final(self).sessions() == old(self).sessions().remove(id@),
            match res {
                Some(s) => old(self).sessions().dom().contains(id@) && s == old(self).sessions()[id@],
                None => !old(self).sessions().dom().contains(id@),
            },
    {
        proof {
            use_type_invariant(&*self);
        }
        let ghost before = *self;
        match self.position(id) {
            Some(i) => {
                proof {
                    before.lemma_lookup(i as int);
                }
                let mut entries: Vec<(String, T)> = Vec::new();
                std::mem::swap(&mut entries, &mut self.entries);
                let (_, s) = entries.remove(i);
                self.entries = entries;
                proof {
                    assert forall|a: int, b: int|
                        0 <= a < b < self.entries@.len() implies (#[trigger] self.entries@[a]).0@ != (
                        #[trigger] self.entries@[b]).0@ by {
                        let a2 = if a < i { a } else { a + 1 };
                        let b2 = if b < i { b } else { b + 1 };
                        assert(self.entries@[a] == before.entries@[a2]);
                        assert(self.entries@[b] == before.entries@[b2]);
                        assert(before.entries@[a2].0@ != before.entries@[b2].0@);
                    }
                    assert(self.keys_unique());
                    assert forall|k: Seq<char>| #[trigger] self.sessions().dom().contains(k) <==> before.sessions().remove(id@).dom().contains(k) by {
                        if before.sessions().dom().contains(k) && k != id@ {
                            let j = choose|j: int| 0 <= j < before.entries@.len() && (#[trigger] before.entries@[j]).0@ == k;
                            if j < i {
                                assert(self.entries@[j].0@ == k);
                            } else {
                                assert(self.entries@[j - 1].0@ == k);
                            }
                        }
                        if self.sessions().dom().contains(k) {
                            let j = choose|j: int| 0 <= j < self.entries@.len() && (#[trigger] self.entries@[j]).0@ == k;
                            let j2 = if j < i { j } else { j + 1 };
                            assert(before.entries@[j2].0@ == k);
                            assert(j2 != i);
                            if k == id@ {
                                if j2 < i {
                                    assert(before.entries@[j2].0@ != before.entries@[i as int].0@);
                                } else {
                                    assert(before.entries@[i as int].0@ != before.entries@[j2].0@);
                                }
                            }
                        }
                    }
                    assert forall|k: Seq<char>| #[trigger] self.sessions().dom().contains(k) implies self.sessions()[k] == before.sessions().remove(id@)[k] by {
                        let j = choose|j: int| 0 <= j < self.entries@.len() && (#[trigger] self.entries@[j]).0@ == k;
                        self.lemma_lookup(j);
                        let j2 = if j < i { j } else { j + 1 };
                        assert(self.entries@[j] == before.entries@[j2]);
                        before.lemma_lookup(j2);
                    }
                    assert(self.sessions() =~= before.sessions().remove(id@));
                }
                Some(s)
            },
            None => {
                assert(self.sessions() =~= before.sessions().remove(id@));
                None
            },
        }
    }
}

/// A session registered under an id is what a lookup of that id returns, until it is replaced
/// or removed; removing it makes the id unknown.
pub proof fn lemma_registry_read_after_write<T>(m: Map<Seq<char>, T>, id: Seq<char>, s: T, other: Seq<char>)
    requires
        other != id,
    ensures
        m.insert(id, s).dom().contains(id),
        m.insert(id, s)[id] == s,
        m.insert(id, s).remove(id).dom().contains(id) == false,
        m.insert(id, s).dom().contains(other) == m.dom().contains(other),
        m.dom().contains(other) ==> m.insert(id, s)[other] == m[other],
{
}

} // verus!
