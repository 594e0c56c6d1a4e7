//! The negative cache: the set of store-path hashes known to be absent
//! from the backend since the last write of that hash. Entries never
//! expire; one is removed only when its descriptor is uploaded.

use vstd::prelude::*;

use crate::byteset::ByteSet;

verus! {

pub struct NegativeCache {
    set: ByteSet,
}

impl View for NegativeCache {
    type V = Set<Seq<u8>>;

    closed spec fn view(&self) -> Set<Seq<u8>> {
        self.set@
    }
}

impl NegativeCache {
    pub closed spec fn wf(self) -> bool {
        self.set.wf()
    }

    pub fn new() -> (r: NegativeCache)
        ensures
            r.wf(),
            r@ == Set::<Seq<u8>>::empty(),
    {
        NegativeCache { set: ByteSet::new() }
    }

    /// Is this hash recorded as missing?
    pub fn contains(&self, h: &[u8]) -> (r: bool)
        ensures
            r == self@.contains(h@),
    {
        self.set.contains(h)
    }

    /// Records a confirmed miss.
    pub fn insert(&mut self, h: Vec<u8>)
        requires
            old(self).wf(),
        ensures
            final(self).wf(),
            final(self)@ == old(self)@.insert(h@),
    {
        self.set.insert(h);
    }

    /// Clears a hash after its descriptor was uploaded.
    pub fn remove(&mut self, h: &[u8])
        requires
            old(self).wf(),
        ensures
            final(self).wf(),
            final(self)@ == old(self)@.remove(h@),
    {
        self.set.remove(h);
    }
}

} // verus!
