use vstd::prelude::*;

use crate::key_index::{KeyIndex, lemma_positions_of};

verus! {

/// A set of names. Each name ever added keeps its position, with a flag that
/// tells whether it is still in the set.
pub struct StringSet {
    index: KeyIndex,
    present: Vec<bool>,
}

impl View for StringSet {
    type V = Set<Seq<char>>;

    closed spec fn view(&self) -> Set<Seq<char>> {
        Set::new(
            |k: Seq<char>|
                exists|i: int| 0 <= i < self.present@.len() && self.present@[i] && self.index@[i] == k,
        )
    }
}

impl StringSet {
    /// The index is sound, has a flag per name, and holds no name twice.
    pub closed spec fn wf(&self) -> bool {
        &&& self.index.wf()
        &&& self.present@.len() == self.index@.len()
        &&& forall|i: int, j: int| 0 <= i < j < self.index@.len() ==> self.index@[i] != self.index@[j]
    }

    pub fn new() -> (r: StringSet)
        ensures
            r.wf(),
            r@ == Set::<Seq<char>>::empty(),
    {
        let r = StringSet { index: KeyIndex::new(), present: Vec::new() };
        assert(r@ =~= Set::<Seq<char>>::empty());
        r
    }

    /// The position of the name, whether or not it is still in the set.
    fn position(&self, k: &String) -> (r: Option<usize>)
        requires
            self.wf(),
        ensures
            match r {
                Some(i) => i < self.index@.len() && self.index@[i as int] == k@,
                None => forall|j: int| 0 <= j < self.index@.len() ==> self.index@[j] != k@,
            },
    {
        let n = self.index.len();
        let ps = self.index.positions(k);
        proof {
            lemma_positions_of(self.index@, k@);
        }
        if ps.len() > 0 {
            Some(ps[0])
        } else {
            proof {
                assert forall|j: int| 0 <= j < self.index@.len() implies self.index@[j] != k@ by {
                    if self.index@[j] == k@ {
                        assert(ps@.contains(j as usize));
                    }
                }
            }
            None
        }
    }

    pub fn contains(&self, k: &String) -> (r: bool)
        requires
            self.wf(),
        ensures
            r == self@.contains(k@),
    {
        match self.position(k) {
            Some(i) => {
                let r = self.present[i];
                if !r {
                    assert(!self@.contains(k@)) by {
                        if self@.contains(k@) {
                            let j = choose|j: int|
                                0 <= j < self.present@.len() && self.present@[j] && self.index@[j] == k@;
                            assert(j == i);
                        }
                    }
                }
                r
            },
            None => false,
        }
    }

    pub fn insert(&mut self, k: String)
        requires
            old(self).wf(),
        ensures
            final(self).wf(),
            final(self)@ == old(self)@.insert(k@),
    {
        match self.position(&k) {
            Some(i) => {
                self.present.set(i, true);
                assert(final(self)@ =~= old(self)@.insert(k@)) by {
                    assert forall|x: Seq<char>| #[trigger] old(self)@.insert(k@).contains(x) implies self@.contains(x) by {
                        if x != k@ {
                            let j = choose|j: int|
                                0 <= j < old(self).present@.len() && old(self).present@[j]
                                    && old(self).index@[j] == x;
                            assert(self.present@[j]);
                        }
                    }
                    assert forall|x: Seq<char>| self@.contains(x) implies #[trigger] old(self)@.insert(k@).contains(x) by {
                        let j = choose|j: int| 0 <= j < self.present@.len() && self.present@[j] && self.index@[j] == x;
                        if j != i {
                            assert(old(self).present@[j]);
                        }
                    }
                }
            },
            None => {
                let ghost old_index = self.index@;
                self.index.push(k);
                self.present.push(true);
                assert(final(self)@ =~= old(self)@.insert(k@)) by {
                    let n = old_index.len() as int;
                    assert(self.index@[n] == k@);
                    assert forall|x: Seq<char>| #[trigger] old(self)@.insert(k@).contains(x) implies self@.contains(x) by {
                        if x != k@ {
                            let j = choose|j: int|
                                0 <= j < old(self).present@.len() && old(self).present@[j]
                                    && old(self).index@[j] == x;
                            assert(self.present@[j] && self.index@[j] == x);
                        }
                    }
                    assert forall|x: Seq<char>| self@.contains(x) implies #[trigger] old(self)@.insert(k@).contains(x) by {
                        let j = choose|j: int| 0 <= j < self.present@.len() && self.present@[j] && self.index@[j] == x;
                        if j < n {
                            assert(old(self).present@[j] && old_index[j] == x);
                        }
                    }
                }
            },
        }
    }

    /// Removes the name; tells whether it was there.
    pub fn remove(&mut self, k: &String) -> (r: bool)
        requires
            old(self).wf(),
        ensures
            final(self).wf(),
            r == old(self)@.contains(k@),
            final(self)@ == old(self)@.remove(k@),
    {
        let was = self.contains(k);
        if was {
            let i = self.position(k).unwrap();
            self.present.set(i, false);
            assert(final(self)@ =~= old(self)@.remove(k@)) by {
                assert forall|x: Seq<char>| #[trigger] old(self)@.remove(k@).contains(x) implies self@.contains(x) by {
                    let j = choose|j: int|
                        0 <= j < old(self).present@.len() && old(self).present@[j] && old(self).index@[j] == x;
                    assert(j != i);
                    assert(self.present@[j]);
                }
                assert forall|x: Seq<char>| self@.contains(x) implies #[trigger] old(self)@.remove(k@).contains(x) by {
                    let j = choose|j: int| 0 <= j < self.present@.len() && self.present@[j] && self.index@[j] == x;
                    assert(j != i);
                    assert(old(self).present@[j]);
                }
            }
        } else {
            assert(final(self)@ =~= old(self)@.remove(k@));
        }
        was
    }

    /// The names of the set, each once.
    pub fn to_vec(&self) -> (r: Vec<String>)
        requires
            self.wf(),
        ensures
            r@.map_values(|s: String| s@).no_duplicates(),
            r@.map_values(|s: String| s@).to_set() == self@,
    {
        let mut out: Vec<String> = Vec::new();
        let ghost mut idx: Seq<int> = Seq::empty();
        let n = self.index.len();
        let mut i: usize = 0;
        while i < n
            invariant
                n == self.index@.len(),
                i <= n,
                self.wf(),
                idx.len() == out@.len(),
                forall|m: int|
                    0 <= m < idx.len() ==> 0 <= #[trigger] idx[m] < i && self.present@[idx[m]]
                        && out@[m]@ == self.index@[idx[m]],
                forall|m1: int, m2: int| 0 <= m1 < m2 < idx.len() ==> idx[m1] < idx[m2],
                forall|j: int|
                    0 <= j < i && self.present@[j] ==> exists|m: int| 0 <= m < idx.len() && idx[m] == j,
            decreases n - i,
        {
            if self.present[i] {
                out.push(self.index.key(i).clone());
                proof {
                    let old_idx = idx;
                    idx = idx.push(i as int);
                    assert forall|j: int| 0 <= j < i + 1 && self.present@[j] implies exists|m: int|
                        0 <= m < idx.len() && idx[m] == j by {
                        if j == i {
                            assert(idx[idx.len() - 1] == j);
                        } else {
                            let m = choose|m: int| 0 <= m < old_idx.len() && old_idx[m] == j;
                            assert(idx[m] == old_idx[m]);
                        }
                    }
                }
            }
            i = i + 1;
        }
        let ghost v = out@.map_values(|s: String| s@);
        assert(v.no_duplicates()) by {
            assert forall|m1: int, m2: int| 0 <= m1 < v.len() && 0 <= m2 < v.len() && m1 != m2 implies v[m1]
                != v[m2] by {
                if m1 < m2 {
                    assert(idx[m1] < idx[m2]);
                } else {
                    assert(idx[m2] < idx[m1]);
                }
            }
        }
        assert(v.to_set() =~= self@) by {
            assert forall|x: Seq<char>| #[trigger] v.to_set().contains(x) implies self@.contains(x) by {
                let m = choose|m: int| 0 <= m < v.len() && v[m] == x;
                assert(self.present@[idx[m]] && self.index@[idx[m]] == x);
            }
            assert forall|x: Seq<char>| self@.contains(x) implies #[trigger] v.to_set().contains(x) by {
                let j = choose|j: int| 0 <= j < self.present@.len() && self.present@[j] && self.index@[j] == x;
                let m = choose|m: int| 0 <= m < idx.len() && idx[m] == j;
                assert(v[m] == x);
            }
        }
        out
    }

    /// The number of names in the set.
    pub fn len(&self) -> (r: usize)
        requires
            self.wf(),
        ensures
            self@.finite(),
            r == self@.len(),
    {
        let v = self.to_vec();
        proof {
            v@.map_values(|s: String| s@).unique_seq_to_set();
        }
        v.len()
    }
}

} // verus!
