//! The resident set as a policy sees it.
//!
//! `at` hands back a copy rather than a reference: a policy holding a
//! borrow into the resident set could not be called while the simulator
//! mutates it.

use vstd::prelude::*;

use crate::abi::ObjectId;
use crate::objtab::ObjectMeta;
use crate::sim::resident::Resident;
use crate::sim::Residency;

verus! {

impl Residency for Resident {
    open spec fn spec_held(&self) -> Seq<(ObjectId, ObjectMeta)> {
        self.held()
    }

    open spec fn spec_tick(&self) -> u32 {
        self.spec_now()
    }

    fn len(&self) -> (n: usize)
        ensures
            n == self.held().len(),
    {
        self.count()
    }

    fn at(&self, index: usize) -> (r: Option<(ObjectId, ObjectMeta)>)
        ensures
            r == (if index < self.held().len() {
                Some(self.held()[index as int])
            } else {
                None
            }),
    {
        self.get(index)
    }

    fn now(&self) -> (t: u32)
        ensures
            t == self.spec_now(),
    {
        self.tick()
    }
}

} // verus!
