//! Knowing the future, because the whole trace is already here.
//!
//! Belady's rule needs to know when an object will next be wanted. A
//! replay harness holds the entire access sequence, so it can simply look:
//! reading the trace backwards, the last position seen for an object is
//! its next use from any earlier point.

use vstd::prelude::*;

use crate::abi::ObjectId;
use crate::objtab::NextUse;
use crate::trace::Access;

verus! {

/// No further use in this trace.
pub const NEVER: u32 = 0xffff_ffff;

/// The first index at or after `from` where `s` asks for `id`, or -1.
pub open spec fn first_from(s: Seq<Access>, id: ObjectId, from: int) -> int
    decreases s.len() - from,
{
    if from < 0 || from >= s.len() {
        -1
    } else if s[from].object == id {
        from
    } else {
        first_from(s, id, from + 1)
    }
}

/// Where access `i`'s object is next asked for, or [`NEVER`].
pub open spec fn spec_next(s: Seq<Access>, i: int) -> u32 {
    let j = first_from(s, s[i].object, i + 1);
    if j < 0 {
        NEVER
    } else {
        j as u32
    }
}

/// `first_from` finds the first access to `id` at or after `from`, and
/// only that.
pub proof fn lemma_first_from(s: Seq<Access>, id: ObjectId, from: int)
    requires
        0 <= from,
    ensures
        first_from(s, id, from) == -1 || (from <= first_from(s, id, from) < s.len() && s[first_from(s, id, from)].object == id),
        first_from(s, id, from) == -1 ==> forall|j: int| from <= j < s.len() ==> s[j].object != id,
        first_from(s, id, from) != -1 ==> forall|j: int| from <= j < first_from(s, id, from) ==> s[j].object != id,
    decreases s.len() - from,
{
    if from < s.len() && s[from].object != id {
        lemma_first_from(s, id, from + 1);
    }
}

/// Where the next use of each access's object is.
pub struct Foresight {
    /// For access `i`, the index of the next access to the same object,
    /// or `NEVER`.
    next: Vec<u32>,
}

impl Foresight {
    /// For each access, where its object is next asked for.
    pub closed spec fn view(&self) -> Seq<u32> {
        self.next@
    }

    /// Reads the whole trace backwards, recording where each object turns
    /// up next.
    ///
    /// Backwards because that is the direction the answer falls out in:
    /// walking from the end, the last position seen for an object IS its
    /// next use from any earlier point.
    pub fn read(accesses: &[Access]) -> (seen: Foresight)
        requires
            accesses@.len() < NEVER,
        ensures
            seen@.len() == accesses@.len(),
            forall|i: int| 0 <= i < accesses@.len() ==> #[trigger] seen@[i] == spec_next(accesses@, i),
    {
        let n = accesses.len();
        let ghost s = accesses@;
        let mut next: Vec<u32> = Vec::new();
        while next.len() < n
            invariant
                next@.len() <= n,
                n == s.len(),
                forall|j: int| 0 <= j < next@.len() ==> #[trigger] next@[j] == NEVER,
            decreases n - next@.len(),
        {
            next.push(NEVER);
        }
        let mut latest: Vec<(u64, u32)> = Vec::new();
        let mut at = n;
        while at > 0
            invariant
                at <= n,
                n == s.len(),
                s == accesses@,
                n < NEVER,
                next@.len() == n,
                forall|j: int| at <= j < n ==> #[trigger] next@[j] == spec_next(s, j),
                forall|j: int| 0 <= j < at ==> #[trigger] next@[j] == NEVER,
                forall|k1: int, k2: int|
                    0 <= k1 < k2 < latest@.len() ==> (#[trigger] latest@[k1]).0 != (#[trigger] latest@[k2]).0,
                forall|k: int|
                    0 <= k < latest@.len() ==> at <= (#[trigger] latest@[k]).1 < n && latest@[k].1 as int
                        == first_from(s, ObjectId(latest@[k].0), at as int),
                forall|j: int|
                    at <= j < n ==> exists|k: int|
                        0 <= k < latest@.len() && (#[trigger] latest@[k]).0 == (#[trigger] s[j]).object.0,
            decreases at,
        {
            at -= 1;
            let id = accesses[at].object.0;
            proof {
                lemma_first_from(s, ObjectId(id), at as int);
                lemma_first_from(s, ObjectId(id), at + 1);
            }
            let mut k: usize = 0;
            while k < latest.len() && latest[k].0 != id
                invariant
                    k <= latest@.len(),
                    forall|j: int| 0 <= j < k ==> (#[trigger] latest@[j]).0 != id,
                decreases latest@.len() - k,
            {
                k += 1;
            }
            let ghost before = latest@;
            if k < latest.len() {
                let (_, position) = latest[k];
                next.set(at, position);
                latest.set(k, (id, at as u32));
                proof {
                    assert(s[at as int].object == ObjectId(id));
                    assert forall|j: int| 0 <= j < latest@.len() implies at <= (#[trigger] latest@[j]).1 < n
                        && latest@[j].1 as int == first_from(s, ObjectId(latest@[j].0), at as int) by {
                        if j != k {
                            assert(latest@[j] == before[j]);
                            if j < k {
                                assert(before[j].0 != before[k as int].0);
                            } else {
                                assert(before[k as int].0 != before[j].0);
                            }
                            assert(ObjectId(before[j].0) != ObjectId(id));
                        }
                    }
                    assert forall|k1: int, k2: int|
                        0 <= k1 < k2 < latest@.len() implies (#[trigger] latest@[k1]).0 != (#[trigger] latest@[k2]).0 by {
                        assert(before[k1].0 != before[k2].0);
                    }
                    assert forall|j: int| at <= j < n implies exists|q: int|
                        0 <= q < latest@.len() && (#[trigger] latest@[q]).0 == (#[trigger] s[j]).object.0 by {
                        if j == at {
                            assert(latest@[k as int].0 == s[j].object.0);
                        } else {
                            let q = choose|q: int| 0 <= q < before.len() && (#[trigger] before[q]).0 == s[j].object.0;
                            if q == k {
                                assert(latest@[k as int].0 == s[j].object.0);
                            } else {
                                assert(latest@[q] == before[q]);
                            }
                        }
                    }
                }
            } else {
                latest.push((id, at as u32));
                proof {
                    assert forall|k1: int, k2: int|
                        0 <= k1 < k2 < latest@.len() implies (#[trigger] latest@[k1]).0 != (#[trigger] latest@[k2]).0 by {
                        if k2 < before.len() {
                            assert(before[k1].0 != before[k2].0);
                        } else {
                            assert(latest@[k1] == before[k1]);
                        }
                    }
                    assert forall|j: int| 0 <= j < latest@.len() implies at <= (#[trigger] latest@[j]).1 < n
                        && latest@[j].1 as int == first_from(s, ObjectId(latest@[j].0), at as int) by {
                        if j < before.len() {
                            assert(latest@[j] == before[j]);
                            assert(ObjectId(before[j].0) != ObjectId(id));
                        }
                    }
                    assert forall|j: int| at < j < n implies s[j].object != ObjectId(id) by {
                        let q = choose|q: int| 0 <= q < before.len() && (#[trigger] before[q]).0 == s[j].object.0;
                        assert(before[q].0 != id);
                    }
                    assert forall|j: int| at <= j < n implies exists|q: int|
                        0 <= q < latest@.len() && (#[trigger] latest@[q]).0 == (#[trigger] s[j]).object.0 by {
                        if j == at {
                            assert(latest@[before.len() as int].0 == s[j].object.0);
                        } else {
                            let q = choose|q: int| 0 <= q < before.len() && (#[trigger] before[q]).0 == s[j].object.0;
                            assert(latest@[q] == before[q]);
                        }
                    }
                }
            }
        }
        Foresight { next }
    }

    /// Where the object last wanted at `tick` turns up next.
    ///
    /// `tick` is one-based, as `ObjectMeta::used_tick` records it, and the
    /// answer is a trace index.
    pub fn after(&self, tick: u32) -> (at: Option<u32>)
        ensures
            at == (if tick == 0 || tick - 1 >= self@.len() || self@[tick - 1] == NEVER {
                None
            } else {
                Some(self@[tick - 1])
            }),
    {
        if tick == 0 {
            return None;
        }
        let index = (tick - 1) as usize;
        if index >= self.next.len() {
            return None;
        }
        match self.next[index] {
            NEVER => None,
            at => Some(at),
        }
    }
}

/// What [`wanted_at`] answers for a foresight `seen` at `tick`.
pub open spec fn spec_wanted_at(seen: Seq<u32>, tick: u32) -> NextUse {
    if tick == 0 || tick - 1 >= seen.len() || seen[tick - 1] == NEVER {
        NextUse::Never
    } else {
        NextUse::At((seen[tick - 1] + 1) as u32)
    }
}

/// Where the object being acquired at one-based `tick` is next wanted,
/// as a one-based position.
///
/// `after` answers in trace indices and the caller counts one-based
/// ticks, so the position a policy compares against the current tick is
/// the index plus one. Mixing the two makes an object wanted on the very
/// next access look as if it were never wanted again.
pub fn wanted_at(seen: &Foresight, tick: u32) -> (next: NextUse)
    ensures
        next == spec_wanted_at(seen@, tick),
{
    match seen.after(tick) {
        Some(at) => NextUse::At(at + 1),
        None => NextUse::Never,
    }
}

/// What a foresight says of access `i` is the truth about the trace: the
/// next access to the same object, with none in between, or `NEVER` when
/// there is no later access to it at all.
pub proof fn law_next_use_is_next_occurrence(s: Seq<Access>, i: int)
    requires
        0 <= i < s.len(),
        s.len() < NEVER,
    ensures
        spec_next(s, i) == NEVER ==> forall|j: int| i < j < s.len() ==> s[j].object != s[i].object,
        spec_next(s, i) != NEVER ==> i < spec_next(s, i) < s.len() && s[spec_next(s, i) as int].object
            == s[i].object && forall|j: int| i < j < spec_next(s, i) ==> s[j].object != s[i].object,
{
    lemma_first_from(s, s[i].object, i + 1);
}

} // verus!
