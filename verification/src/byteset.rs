//! A set of byte strings, held without duplicates: the shape of both the
//! negative cache and the upload queue's seen-set.

use vstd::prelude::*;

use crate::bytesutil::bytes_eq;

verus! {

pub struct ByteSet {
    entries: Vec<Vec<u8>>,
}

impl View for ByteSet {
    type V = Set<Seq<u8>>;

    closed spec fn view(&self) -> Set<Seq<u8>> {
        self.entries@.map_values(|v: Vec<u8>| v@).to_set()
    }
}

impl ByteSet {
    /// No entry occurs twice.
    pub closed spec fn wf(self) -> bool {
        forall|i: int, j: int|
            0 <= i < j < self.entries@.len() ==> self.entries@[i]@ != self.entries@[j]@
    }

    spec fn views(self) -> Seq<Seq<u8>> {
        self.entries@.map_values(|v: Vec<u8>| v@)
    }

    proof fn lemma_membership(self, x: Seq<u8>)
        ensures
            self@.contains(x) == exists|i: int|
                0 <= i < self.entries@.len() && self.entries@[i]@ == x,
    {
        if exists|i: int| 0 <= i < self.entries@.len() && self.entries@[i]@ == x {
            let i = choose|i: int| 0 <= i < self.entries@.len() && self.entries@[i]@ == x;
            assert(self.views()[i] == x);
            assert(self.views().contains(x));
        }
        if self.views().contains(x) {
            let i = choose|i: int| 0 <= i < self.views().len() && self.views()[i] == x;
            assert(self.entries@[i]@ == x);
        }
    }

    pub fn new() -> (r: ByteSet)
        ensures
            r.wf(),
            r@ == Set::<Seq<u8>>::empty(),
    {
        let r = ByteSet { entries: Vec::new() };
        proof {
            assert forall|x: Seq<u8>| !r@.contains(x) by {
                r.lemma_membership(x);
            }
            assert(r@ =~= Set::<Seq<u8>>::empty());
        }
        r
    }

    /// Is `h` in the set?
    pub fn contains(&self, h: &[u8]) -> (r: bool)
        ensures
            r == self@.contains(h@),
    {
        let n: usize = self.entries.len();
        let mut i: usize = 0;
        while i < n
            invariant
                n == self.entries@.len(),
                0 <= i <= n,
                forall|k: int| 0 <= k < i ==> self.entries@[k]@ != h@,
            decreases n - i,
        {
            if bytes_eq(self.entries[i].as_slice(), h) {
                proof {
                    self.lemma_membership(h@);
                }
                return true;
            }
            i = i + 1;
        }
        proof {
            self.lemma_membership(h@);
        }
        false
    }

    /// Inserts `h`; the set gains it, everything else is unchanged.
    pub fn insert(&mut self, h: Vec<u8>)
        requires
            old(self).wf(),
        ensures
            final(self).wf(),
            final(self)@ == old(self)@.insert(h@),
    {
        if !self.contains(h.as_slice()) {
            proof {
                old(self).lemma_membership(h@);
            }
            let ghost pre = *self;
            let ghost hv = h@;
            self.entries.push(h);
            proof {
                let m = pre.entries@.len() as int;
                assert(self.entries@.len() == m + 1);
                assert(forall|k: int| 0 <= k < m ==> self.entries@[k] == pre.entries@[k]);
                assert(self.entries@[m] == self.entries@.last());
                assert(self.entries@[m]@ == hv);
                assert forall|x: Seq<u8>| self@.contains(x) == pre@.insert(hv).contains(x) by {
                    self.lemma_membership(x);
                    pre.lemma_membership(x);
                    if x == hv {
                        assert(self.entries@[m]@ == x);
                    } else {
                        if self@.contains(x) {
                            let k = choose|k: int|
                                0 <= k < self.entries@.len() && self.entries@[k]@ == x;
                            assert(k != m);
                            assert(pre.entries@[k]@ == x);
                        }
                        if pre@.contains(x) {
                            let k = choose|k: int|
                                0 <= k < pre.entries@.len() && pre.entries@[k]@ == x;
                            assert(self.entries@[k]@ == x);
                        }
                    }
                }
                assert(self@ =~= pre@.insert(hv));
                pre.lemma_membership(hv);
                assert forall|i: int, j: int|
                    0 <= i < j < self.entries@.len() implies self.entries@[i]@
                    != self.entries@[j]@ by {
                    if j == m {
                        assert(self.entries@[i]@ == pre.entries@[i]@);
                        assert(pre.entries@[i]@ != hv);
                    } else {
                        assert(self.entries@[i]@ == pre.entries@[i]@);
                        assert(self.entries@[j]@ == pre.entries@[j]@);
                    }
                }
            }
        } else {
            proof {
                assert(old(self)@.contains(h@));
                assert(self@ =~= old(self)@.insert(h@));
            }
        }
    }

    /// Removes `h`; the set loses it, everything else is unchanged.
    pub fn remove(&mut self, h: &[u8])
        requires
            old(self).wf(),
        ensures
            final(self).wf(),
            final(self)@ == old(self)@.remove(h@),
    {
        let n: usize = self.entries.len();
        let mut i: usize = 0;
        while i < n
            invariant
                *self == *old(self),
                old(self).wf(),
                n == self.entries@.len(),
                0 <= i <= n,
                forall|k: int| 0 <= k < i ==> self.entries@[k]@ != h@,
            decreases n - i,
        {
            if bytes_eq(self.entries[i].as_slice(), h) {
                let ghost pre = *self;
                self.entries.swap_remove(i);
                proof {
                    let m = pre.entries@.len() as int;
                    let ii = i as int;
                    assert(pre.wf());
                    assert(forall|a: int, b: int|
                        0 <= a < b < m ==> pre.entries@[a]@ != pre.entries@[b]@);
                    assert(pre.entries@[ii]@ == h@);
                    assert(self.entries@.len() == m - 1);
                    assert(forall|k: int|
                        0 <= k < m - 1 ==> self.entries@[k] == if k == ii {
                            pre.entries@[m - 1]
                        } else {
                            pre.entries@[k]
                        });
                    // every surviving index holds a value of a distinct
                    // pre-state index other than `ii`
                    assert forall|k: int|
                        0 <= k < m - 1 implies self.entries@[k]@ != h@ by {
                        if k == ii {
                            if ii != m - 1 {
                                assert(pre.entries@[m - 1]@ != pre.entries@[ii]@);
                            }
                        } else if k < ii {
                            assert(pre.entries@[k]@ != pre.entries@[ii]@);
                        } else {
                            assert(pre.entries@[ii]@ != pre.entries@[k]@);
                        }
                    }
                    assert forall|x: Seq<u8>| self@.contains(x) == pre@.remove(h@).contains(
                        x,
                    ) by {
                        self.lemma_membership(x);
                        pre.lemma_membership(x);
                        if x != h@ {
                            if pre@.contains(x) {
                                let k = choose|k: int|
                                    0 <= k < pre.entries@.len() && pre.entries@[k]@ == x;
                                assert(k != ii);
                                if k == m - 1 {
                                    assert(self.entries@[ii]@ == x);
                                } else {
                                    assert(self.entries@[k]@ == x);
                                }
                            }
                            if self@.contains(x) {
                                let k = choose|k: int|
                                    0 <= k < self.entries@.len() && self.entries@[k]@ == x;
                                if k == ii {
                                    assert(pre.entries@[m - 1]@ == x);
                                } else {
                                    assert(pre.entries@[k]@ == x);
                                }
                            }
                        }
                    }
                    assert(self@ =~= pre@.remove(h@));
                    assert forall|a: int, b: int|
                        0 <= a < b < self.entries@.len() implies self.entries@[a]@
                        != self.entries@[b]@ by {
                        let av = if a == ii { m - 1 } else { a };
                        let bv = if b == ii { m - 1 } else { b };
                        assert(self.entries@[a] == pre.entries@[av]);
                        assert(self.entries@[b] == pre.entries@[bv]);
                        assert(av != bv);
                        if av < bv {
                            assert(pre.entries@[av]@ != pre.entries@[bv]@);
                        } else {
                            assert(pre.entries@[bv]@ != pre.entries@[av]@);
                        }
                    }
                }
                return;
            }
            i = i + 1;
        }
        proof {
            self.lemma_membership(h@);
            assert(!old(self)@.contains(h@));
            assert(self@ =~= old(self)@.remove(h@));
        }
    }
}

} // verus!
