use vstd::prelude::*;

verus! {

/// A key-value table keyed by strings, each key stored at most once.
pub struct Table<V> {
    keys: Vec<String>,
    vals: Vec<V>,
}

impl<V> View for Table<V> {
    type V = Map<Seq<char>, V>;

    closed spec fn view(&self) -> Map<Seq<char>, V> {
        Map::new(
            |k: Seq<char>| exists|i: int| 0 <= i < self.keys.len() && #[trigger] self.keys[i]@ == k,
            |k: Seq<char>|
                self.vals[choose|i: int| 0 <= i < self.keys.len() && #[trigger] self.keys[i]@ == k],
        )
    }
}

impl<V> Table<V> {
    /// Keys and values line up, and no key occurs twice.
    pub closed spec fn wf(&self) -> bool {
        &&& self.keys.len() == self.vals.len()
        &&& forall|i: int, j: int|
            #![trigger self.keys[i]@, self.keys[j]@]
            0 <= i < self.keys.len() && 0 <= j < self.keys.len() && self.keys[i]@ == self.keys[j]@
                ==> i == j
    }

    proof fn lemma_value_at(&self, i: int)
        requires
            self.wf(),
            0 <= i < self.keys.len(),
        ensures
            self@.contains_key(self.keys[i]@),
            self@[self.keys[i]@] == self.vals[i],
    {
        let k = self.keys[i]@;
        assert(self@.dom().contains(k));
        let j = choose|j: int| 0 <= j < self.keys.len() && #[trigger] self.keys[j]@ == k;
        assert(self.keys[j]@ == self.keys[i]@);
    }

    pub fn new() -> (r: Self)
        ensures
            r.wf(),
            r@ == Map::<Seq<char>, V>::empty(),
    {
        let r = Table { keys: Vec::new(), vals: Vec::new() };
        assert(r@ =~= Map::<Seq<char>, V>::empty());
        r
    }

    fn find(&self, k: &String) -> (r: Option<usize>)
        requires
            self.wf(),
        ensures
            match r {
                Some(i) => i < self.keys.len() && self.keys[i as int]@ == k@,
                None => !self@.contains_key(k@),
            },
    {
        let mut i: usize = 0;
        while i < self.keys.len()
            invariant
                self.wf(),
                i <= self.keys.len(),
                forall|j: int| 0 <= j < i ==> self.keys[j]@ != k@,
            decreases self.keys.len() - i,
        {
            if self.keys[i] == *k {
                return Some(i);
            }
            i = i + 1;
        }
        None
    }

    pub fn contains_key(&self, k: &String) -> (r: bool)
        requires
            self.wf(),
        ensures
            r == self@.contains_key(k@),
    {
        match self.find(k) {
            Some(i) => {
                proof {
                    self.lemma_value_at(i as int);
                }
                true
            },
            None => false,
        }
    }

    pub fn get(&self, k: &String) -> (r: Option<&V>)
        requires
            self.wf(),
        ensures
            match r {
                Some(v) => self@.contains_key(k@) && *v == self@[k@],
                None => !self@.contains_key(k@),
            },
    {
        match self.find(k) {
            Some(i) => {
                proof {
                    self.lemma_value_at(i as int);
                }
                Some(&self.vals[i])
            },
            None => None,
        }
    }

    pub fn insert(&mut self, k: &String, v: V)
        requires
            old(self).wf(),
        ensures
            final(self).wf(),
            final(self)@ == old(self)@.insert(k@, v),
    {
        let ghost pre = *self;
        match self.find(k) {
            Some(i) => {
                self.vals.set(i, v);
                proof {
                    assert(self.keys@ == pre.keys@);
                    assert forall|q: Seq<char>| #[trigger] self@.contains_key(q) implies
                        self@[q] == pre@.insert(k@, v)[q] by {
                        let j = choose|j: int| 0 <= j < self.keys.len() && #[trigger] self.keys[j]@ == q;
                        self.lemma_value_at(j);
                        if j != i {
                            pre.lemma_value_at(j);
                        }
                    }
                    pre.lemma_value_at(i as int);
                    assert(self@ =~= pre@.insert(k@, v));
                }
            },
            None => {
                self.keys.push(k.clone());
                self.vals.push(v);
                proof {
                    let n = pre.keys.len() as int;
                    assert forall|q: Seq<char>| #[trigger] pre@.contains_key(q) implies
                        self@.contains_key(q) && (q != k@ ==> self@[q] == pre@[q]) by {
                        let j = choose|j: int| 0 <= j < pre.keys.len() && #[trigger] pre.keys[j]@ == q;
                        assert(self.keys[j] == pre.keys[j]);
                        pre.lemma_value_at(j);
                        self.lemma_value_at(j);
                    }
                    assert forall|q: Seq<char>| #[trigger] self@.contains_key(q) implies
                        pre@.insert(k@, v).contains_key(q) by {
                        let j = choose|j: int| 0 <= j < self.keys.len() && #[trigger] self.keys[j]@ == q;
                        if j < n {
                            assert(pre.keys[j] == self.keys[j]);
                        }
                    }
                    self.lemma_value_at(n);
                    assert(self@ =~= pre@.insert(k@, v));
                }
            },
        }
    }

    pub fn remove(&mut self, k: &String)
        requires
            old(self).wf(),
        ensures
            final(self).wf(),
            final(self)@ == old(self)@.remove(k@),
    {
        let ghost pre = *self;
        match self.find(k) {
            Some(i) => {
                self.keys.remove(i);
                self.vals.remove(i);
                proof {
                    let n = pre.keys.len() as int;
                    assert forall|j: int| 0 <= j < n - 1 implies
                        #[trigger] self.keys[j] == pre.keys[if j < i { j } else { j + 1 }]
                        && self.vals[j] == pre.vals[if j < i { j } else { j + 1 }] by {}
                    assert forall|q: Seq<char>| #[trigger] self@.contains_key(q) implies
                        q != k@ && pre@.contains_key(q) && self@[q] == pre@[q] by {
                        let j = choose|j: int| 0 <= j < self.keys.len() && #[trigger] self.keys[j]@ == q;
                        let oj = if j < i { j } else { j + 1 };
                        assert(self.keys[j] == pre.keys[oj]);
                        self.lemma_value_at(j);
                        pre.lemma_value_at(oj);
                    }
                    assert forall|q: Seq<char>| #[trigger] pre@.contains_key(q) && q != k@ implies
                        self@.contains_key(q) by {
                        let oj = choose|j: int| 0 <= j < pre.keys.len() && #[trigger] pre.keys[j]@ == q;
                        assert(oj != i);
                        let j = if oj < i { oj } else { oj - 1 };
                        assert(self.keys[j] == pre.keys[oj]);
                    }
                    assert(self@ =~= pre@.remove(k@));
                }
            },
            None => {
                assert(self@ =~= pre@.remove(k@));
            },
        }
    }
}

} // verus!
