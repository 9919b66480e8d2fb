use vstd::prelude::*;

verus! {

/// Enrolled embeddings by key, in order of first enrollment.
pub struct EmbeddingStore<E> {
    records: Vec<(String, E)>,
    contents: Ghost<Map<Seq<char>, E>>,
}

impl<E> View for EmbeddingStore<E> {
    type V = Map<Seq<char>, E>;

    closed spec fn view(&self) -> Map<Seq<char>, E> {
        self.contents@
    }
}

impl<E> EmbeddingStore<E> {
    pub closed spec fn wf(&self) -> bool {
        &&& forall|i: int, j: int|
            0 <= i < self.records@.len() && 0 <= j < self.records@.len() && i != j
                ==> self.records@[i].0@ != self.records@[j].0@
        &&& forall|i: int| 0 <= i < self.records@.len() ==> #[trigger] self.contents@.contains_key(self.records@[i].0@)
            && self.contents@[self.records@[i].0@] == self.records@[i].1
        &&& forall|k: Seq<char>| #[trigger] self.contents@.contains_key(k)
            ==> exists|i: int| 0 <= i < self.records@.len() && self.records@[i].0@ == k
    }

    /// The key and embedding at position `i`, in order of first enrollment.
    pub closed spec fn record_at(&self, i: int) -> (Seq<char>, E) {
        (self.records@[i].0@, self.records@[i].1)
    }

    pub closed spec fn len_spec(&self) -> nat {
        self.records@.len()
    }

    /// An empty store.
    pub fn new() -> (r: EmbeddingStore<E>)
        ensures
            r.wf(),
            r@ == Map::<Seq<char>, E>::empty(),
            r.len_spec() == 0,
    {
        EmbeddingStore { records: Vec::new(), contents: Ghost(Map::empty()) }
    }

    /// Number of enrolled keys.
    pub fn len(&self) -> (r: usize)
        requires
            self.wf(),
        ensures
            r == self.len_spec(),
            r == self@.dom().len(),
    {
        proof { self.lemma_len_matches(); }
        self.records.len()
    }

    proof fn lemma_len_matches(&self)
        requires
            self.wf(),
        ensures
            self@.dom().len() == self.len_spec(),
    {
        let keys = Seq::new(self.records@.len(), |i: int| self.records@[i].0@);
        assert(keys.no_duplicates()) by {
            assert forall|i: int, j: int| 0 <= i < keys.len() && 0 <= j < keys.len() && i != j implies keys[i] != keys[j] by {}
        }
        assert(keys.to_set() =~= self@.dom()) by {
            assert forall|k: Seq<char>| keys.to_set().contains(k) <==> self@.dom().contains(k) by {
                if self@.dom().contains(k) {
                    let i = choose|i: int| 0 <= i < self.records@.len() && self.records@[i].0@ == k;
                    assert(keys[i] == k);
                }
            }
        }
        keys.unique_seq_to_set();
    }

    /// The key and embedding at position `i`.
    pub fn get(&self, i: usize) -> (r: (&String, &E))
        requires
            self.wf(),
            i < self.len_spec(),
        ensures
            (r.0@, *r.1) == self.record_at(i as int),
            self@.contains_key(r.0@) && self@[r.0@] == *r.1,
    {
        let rec = &self.records[i];
        (&rec.0, &rec.1)
    }

    /// Enrolls `embedding` under `key`, replacing any earlier enrollment of
    /// that key; every other key keeps its embedding.
    pub fn register(&mut self, key: String, embedding: E)
        requires
            old(self).wf(),
        ensures
            final(self).wf(),
            final(self)@ == old(self)@.insert(key@, embedding),
            old(self)@.contains_key(key@) ==> final(self).len_spec() == old(self).len_spec()
                && forall|i: int| 0 <= i < old(self).len_spec() ==> #[trigger] final(self).record_at(i)
                    == if old(self).record_at(i).0 == key@ { (key@, embedding) } else { old(self).record_at(i) },
            !old(self)@.contains_key(key@) ==> final(self).len_spec() == old(self).len_spec() + 1
                && final(self).record_at(old(self).len_spec() as int) == (key@, embedding)
                && forall|i: int| 0 <= i < old(self).len_spec() ==> #[trigger] final(self).record_at(i)
                    == old(self).record_at(i),
    {
        let ghost k = key@;
        let mut i: usize = 0;
        while i < self.records.len()
            invariant
                self.wf(),
                *self == *old(self),
                k == key@,
                i <= self.records@.len(),
                forall|j: int| 0 <= j < i ==> self.records@[j].0@ != k,
            decreases self.records@.len() - i,
        {
            let same = same_key(&self.records[i].0, &key);
            if same {
                let ghost pre = self.records@;
                self.records.set(i, (key, embedding));
                self.contents = Ghost(self.contents@.insert(k, embedding));
                proof {
                    assert forall|j: int| 0 <= j < self.records@.len() implies #[trigger] self.contents@.contains_key(self.records@[j].0@)
                        && self.contents@[self.records@[j].0@] == self.records@[j].1 by {
                        if j != i as int {
                            assert(pre[j].0@ != pre[i as int].0@);
                            assert(old(self).contents@.contains_key(pre[j].0@));
                        } else {
                            assert(self.records@[j].0@ == k);
                        }
                    }
                    assert forall|q: Seq<char>| #[trigger] self.contents@.contains_key(q)
                        implies exists|j: int| 0 <= j < self.records@.len() && self.records@[j].0@ == q by {
                        if q == k {
                            assert(self.records@[i as int].0@ == q);
                        } else {
                            assert(old(self).contents@.contains_key(q));
                            let j = choose|j: int| 0 <= j < pre.len() && pre[j].0@ == q;
                            assert(self.records@[j].0@ == q);
                        }
                    }
                    assert(old(self)@.contains_key(k));
                    assert forall|j: int| 0 <= j < old(self).len_spec() implies #[trigger] self.record_at(j)
                        == if old(self).record_at(j).0 == k { (k, embedding) } else { old(self).record_at(j) } by {
                        if j != i as int {
                            assert(pre[j].0@ != pre[i as int].0@);
                        }
                    }
                }
                return;
            }
            i = i + 1;
        }
        let ghost pre = self.records@;
        self.records.push((key, embedding));
        self.contents = Ghost(self.contents@.insert(k, embedding));
        proof {
            let n = pre.len() as int;
            assert forall|j: int| 0 <= j < self.records@.len() implies #[trigger] self.contents@.contains_key(self.records@[j].0@)
                && self.contents@[self.records@[j].0@] == self.records@[j].1 by {
                if j < n {
                    assert(pre[j].0@ != k);
                    assert(old(self).contents@.contains_key(pre[j].0@));
                } else {
                    assert(self.records@[j].0@ == k);
                }
            }
            assert forall|q: Seq<char>| #[trigger] self.contents@.contains_key(q)
                implies exists|j: int| 0 <= j < self.records@.len() && self.records@[j].0@ == q by {
                if q == k {
                    assert(self.records@[n].0@ == q);
                } else {
                    assert(old(self).contents@.contains_key(q));
                    let j = choose|j: int| 0 <= j < pre.len() && pre[j].0@ == q;
                    assert(self.records@[j].0@ == q);
                }
            }
            if old(self)@.contains_key(k) {
                let j = choose|j: int| 0 <= j < pre.len() && pre[j].0@ == k;
                assert(false);
            }
        }
    }
}

fn same_key(a: &String, b: &String) -> (r: bool)
    ensures
        r == (a@ == b@),
{
    *a == *b
}

/// Enrolling a key and then the same key again keeps only the later embedding.
pub proof fn lemma_latest_enrollment_wins<E>(m: Map<Seq<char>, E>, k: Seq<char>, e1: E, e2: E)
    ensures
        m.insert(k, e1).insert(k, e2) == m.insert(k, e2),
{
    assert(m.insert(k, e1).insert(k, e2) =~= m.insert(k, e2));
}

} // verus!
