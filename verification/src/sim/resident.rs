//! The simulated resident set.
//!
//! A `Vec` with linear scans, deliberately, because that is what a
//! kernel's open-addressed table can offer a policy. Insertion order is
//! preserved and never rearranged, which is what makes `at` stable: a
//! policy asked twice about an unchanged set names the same victim.

use vstd::prelude::*;

use crate::abi::ObjectId;
use crate::objtab::{NextUse, ObjectMeta};

verus! {

/// The bytes of everything in `s`.
pub open spec fn total_size(s: Seq<(ObjectId, ObjectMeta)>) -> int
    decreases s.len(),
{
    if s.len() == 0 {
        0
    } else {
        total_size(s.drop_last()) + s.last().1.size
    }
}

/// The first index at or after `from` holding `id`, or -1.
pub open spec fn index_from(s: Seq<(ObjectId, ObjectMeta)>, id: ObjectId, from: int) -> int
    decreases s.len() - from,
{
    if from < 0 || from >= s.len() {
        -1
    } else if s[from].0 == id {
        from
    } else {
        index_from(s, id, from + 1)
    }
}

/// Where `id` is in `s`, or -1.
pub open spec fn index_of(s: Seq<(ObjectId, ObjectMeta)>, id: ObjectId) -> int {
    index_from(s, id, 0)
}

/// Whether no object is in `s` twice.
pub open spec fn no_duplicates(s: Seq<(ObjectId, ObjectMeta)>) -> bool {
    forall|i: int, j: int| 0 <= i < j < s.len() ==> (#[trigger] s[i]).0 != (#[trigger] s[j]).0
}

/// One more, unless there is no room for one more.
pub open spec fn sat_inc(x: u32) -> u32 {
    if x == u32::MAX {
        x
    } else {
        (x + 1) as u32
    }
}

/// What a hit writes into an object's metadata.
pub open spec fn touched(m: ObjectMeta, now: u32, next: NextUse) -> ObjectMeta {
    ObjectMeta { used_tick: now, reuse_count: sat_inc(m.reuse_count), next_use: next, ..m }
}

/// What placing an object writes into its metadata.
pub open spec fn placed(m: ObjectMeta, now: u32, next: NextUse) -> ObjectMeta {
    ObjectMeta { placed_tick: now, used_tick: now, next_use: next, reuse_count: sat_inc(m.reuse_count), ..m }
}

/// A hit records the acquire: the object's last use becomes the tick of
/// the hit, its next use is what was said of it, and one more use is
/// counted unless the count is full. Nothing else about it changes -- its
/// size, costs, tier and placement stay -- so a policy that goes by
/// recency sees the hit.
pub proof fn law_a_hit_records_its_tick(m: ObjectMeta, now: u32, next: NextUse)
    ensures
        touched(m, now, next).used_tick == now,
        touched(m, now, next).next_use == next,
        m.reuse_count < u32::MAX ==> touched(m, now, next).reuse_count == m.reuse_count + 1,
        m.reuse_count == u32::MAX ==> touched(m, now, next).reuse_count == u32::MAX,
        touched(m, now, next).size == m.size,
        touched(m, now, next).placed_tick == m.placed_tick,
        touched(m, now, next).resident_at == m.resident_at,
        touched(m, now, next).reload_cost == m.reload_cost,
        touched(m, now, next).tier == m.tier,
{
}

/// Placing an object records the acquire too: it was placed and last used
/// at the tick it was placed, and its next use is what was said of it.
pub proof fn law_placing_records_its_tick(m: ObjectMeta, now: u32, next: NextUse)
    ensures
        placed(m, now, next).placed_tick == now,
        placed(m, now, next).used_tick == now,
        placed(m, now, next).next_use == next,
        placed(m, now, next).size == m.size,
        placed(m, now, next).reload_cost == m.reload_cost,
{
}

/// `index_of` finds the first place `id` is, and says -1 only when it is
/// nowhere.
pub proof fn lemma_index_of(s: Seq<(ObjectId, ObjectMeta)>, id: ObjectId, from: int)
    requires
        0 <= from,
    ensures
        index_from(s, id, from) == -1 || (from <= index_from(s, id, from) < s.len() && s[index_from(s, id, from)].0 == id),
        index_from(s, id, from) == -1 <==> forall|j: int| from <= j < s.len() ==> s[j].0 != id,
        index_from(s, id, from) != -1 ==> forall|j: int| from <= j < index_from(s, id, from) ==> s[j].0 != id,
    decreases s.len() - from,
{
    if from < s.len() && s[from].0 != id {
        lemma_index_of(s, id, from + 1);
    }
}

/// Sizes are never negative, so no one object is bigger than the total.
pub proof fn lemma_total_nonneg(s: Seq<(ObjectId, ObjectMeta)>)
    ensures
        total_size(s) >= 0,
    decreases s.len(),
{
    if s.len() > 0 {
        lemma_total_nonneg(s.drop_last());
    }
}

/// Taking one object out takes its size off the total.
pub proof fn lemma_total_remove(s: Seq<(ObjectId, ObjectMeta)>, k: int)
    requires
        0 <= k < s.len(),
    ensures
        total_size(s.remove(k)) == total_size(s) - s[k].1.size,
    decreases s.len(),
{
    if k == s.len() - 1 {
        assert(s.remove(k) =~= s.drop_last());
    } else {
        lemma_total_remove(s.drop_last(), k);
        assert(s.remove(k).drop_last() =~= s.drop_last().remove(k));
        assert(s.remove(k).last() == s.last());
    }
}

/// Rewriting an object's metadata without changing its size keeps the
/// total.
pub proof fn lemma_total_update(s: Seq<(ObjectId, ObjectMeta)>, k: int, x: (ObjectId, ObjectMeta))
    requires
        0 <= k < s.len(),
        x.1.size == s[k].1.size,
    ensures
        total_size(s.update(k, x)) == total_size(s),
    decreases s.len(),
{
    if k == s.len() - 1 {
        assert(s.update(k, x).drop_last() =~= s.drop_last());
    } else {
        lemma_total_update(s.drop_last(), k, x);
        assert(s.update(k, x).drop_last() =~= s.drop_last().update(k, x));
    }
}

/// What is in memory, and how much of it there is.
pub struct Resident {
    /// Every resident object, in the order it was placed.
    pub(crate) held: Vec<(ObjectId, ObjectMeta)>,
    /// Their total size.
    bytes: u64,
    /// Where the replay has got to.
    pub(crate) cursor: u32,
}

impl Resident {
    /// Every resident object and what is known of it, in placement order.
    pub closed spec fn held(&self) -> Seq<(ObjectId, ObjectMeta)> {
        self.held@
    }

    /// How many bytes are resident.
    pub closed spec fn spec_bytes(&self) -> u64 {
        self.bytes
    }

    /// The tick of the last acquire.
    pub closed spec fn spec_now(&self) -> u32 {
        self.cursor
    }

    /// The byte count is the sum of what is held.
    pub open spec fn wf(&self) -> bool {
        self.spec_bytes() == total_size(self.held())
    }

    /// Nothing resident, at tick zero.
    pub fn new() -> (r: Resident)
        ensures
            r.wf(),
            r.held() == Seq::<(ObjectId, ObjectMeta)>::empty(),
            r.spec_bytes() == 0,
            r.spec_now() == 0,
    {
        Resident { held: Vec::new(), bytes: 0, cursor: 0 }
    }

    /// Where `id` is held, if it is.
    fn position(&self, id: ObjectId) -> (r: Option<usize>)
        ensures
            r matches Some(k) ==> k == index_of(self.held(), id) && k < self.held().len() && self.held()[k as int].0 == id,
            r is None ==> index_of(self.held(), id) == -1,
    {
        proof {
            lemma_index_of(self.held@, id, 0);
        }
        let mut k: usize = 0;
        while k < self.held.len()
            invariant
                k <= self.held@.len(),
                index_from(self.held@, id, 0) == index_from(self.held@, id, k as int),
            decreases self.held@.len() - k,
        {
            if self.held[k].0.0 == id.0 {
                return Some(k);
            }
            k += 1;
        }
        None
    }

    /// Whether `id` is resident.
    pub fn holds(&self, id: ObjectId) -> (r: bool)
        ensures
            r == (index_of(self.held(), id) >= 0),
    {
        self.position(id).is_some()
    }

    /// Records an acquire, and says whether it was a hit.
    ///
    /// Finding and touching in one call because they are one decision: a
    /// hit writes the tick, one more use, and where the object is next
    /// wanted -- once, here, until it is acquired again.
    pub fn touch(&mut self, id: ObjectId, now: u32, next: NextUse) -> (hit: bool)
        requires
            old(self).wf(),
        ensures
            final(self).wf(),
            final(self).spec_now() == now,
            final(self).spec_bytes() == old(self).spec_bytes(),
            hit == (index_of(old(self).held(), id) >= 0),
            hit ==> final(self).held() == old(self).held().update(
                index_of(old(self).held(), id),
                (id, touched(old(self).held()[index_of(old(self).held(), id)].1, now, next)),
            ),
            !hit ==> final(self).held() == old(self).held(),
            hit ==> final(self).held()[index_of(old(self).held(), id)].0 == id,
            hit ==> final(self).held()[index_of(old(self).held(), id)].1.used_tick == now,
            hit ==> final(self).held()[index_of(old(self).held(), id)].1.next_use == next,
            hit ==> final(self).held()[index_of(old(self).held(), id)].1.size == old(self).held()[index_of(
                old(self).held(),
                id,
            )].1.size,
    {
        self.cursor = now;
        proof {
            lemma_index_of(self.held@, id, 0);
        }
        let k = match self.position(id) {
            None => return false,
            Some(k) => k,
        };
        let (held_id, mut meta) = self.held[k];
        meta.used_tick = now;
        meta.reuse_count = meta.reuse_count.saturating_add(1);
        meta.next_use = next;
        proof {
            lemma_total_update(self.held@, k as int, (held_id, meta));
        }
        self.held.set(k, (held_id, meta));
        true
    }

    /// Puts an object in, and says nothing about whether it fits.
    ///
    /// The caller decides that, because only the caller knows the budget
    /// and what it was willing to evict to get there.
    pub fn insert(&mut self, id: ObjectId, meta: ObjectMeta, now: u32, next: NextUse)
        requires
            old(self).wf(),
            old(self).spec_bytes() + meta.size <= u64::MAX,
        ensures
            final(self).wf(),
            final(self).spec_now() == now,
            final(self).held() == old(self).held().push((id, placed(meta, now, next))),
            final(self).spec_bytes() == old(self).spec_bytes() + meta.size,
    {
        self.cursor = now;
        let mut meta = meta;
        meta.placed_tick = now;
        meta.used_tick = now;
        meta.next_use = next;
        meta.reuse_count = meta.reuse_count.saturating_add(1);
        self.bytes = self.bytes + meta.size as u64;
        let ghost before = self.held@;
        self.held.push((id, meta));
        assert(self.held@.drop_last() =~= before);
    }

    /// Takes an object out, returning what it freed: its size, or zero if
    /// it was not resident.
    pub fn remove(&mut self, id: ObjectId) -> (freed: u64)
        requires
            old(self).wf(),
        ensures
            final(self).wf(),
            final(self).spec_now() == old(self).spec_now(),
            index_of(old(self).held(), id) < 0 ==> freed == 0 && final(self).held() == old(self).held()
                && final(self).spec_bytes() == old(self).spec_bytes(),
            index_of(old(self).held(), id) >= 0 ==> freed == old(self).held()[index_of(old(self).held(), id)].1.size
                && final(self).held() == old(self).held().remove(index_of(old(self).held(), id))
                && final(self).spec_bytes() == old(self).spec_bytes() - freed,
    {
        let k = match self.position(id) {
            None => return 0,
            Some(k) => k,
        };
        proof {
            lemma_total_remove(self.held@, k as int);
            lemma_total_nonneg(self.held@.remove(k as int));
        }
        let (_, meta) = self.held.remove(k);
        self.bytes = self.bytes - meta.size as u64;
        meta.size as u64
    }

    /// How many objects are resident.
    pub fn count(&self) -> (n: usize)
        ensures
            n == self.held().len(),
    {
        self.held.len()
    }

    /// The resident object at `index`, in placement order.
    pub fn get(&self, index: usize) -> (r: Option<(ObjectId, ObjectMeta)>)
        ensures
            r == (if index < self.held().len() {
                Some(self.held()[index as int])
            } else {
                None
            }),
    {
        if index < self.held.len() {
            Some(self.held[index])
        } else {
            None
        }
    }

    /// The tick of the last acquire.
    pub fn tick(&self) -> (t: u32)
        ensures
            t == self.spec_now(),
    {
        self.cursor
    }

    /// How many bytes are resident.
    pub fn bytes(&self) -> (b: u64)
        ensures
            b == self.spec_bytes(),
    {
        self.bytes
    }
}

impl Default for Resident {
    /// Nothing resident, at tick zero.
    fn default() -> (r: Self)
        ensures
            r.wf(),
            r.held() == Seq::<(ObjectId, ObjectMeta)>::empty(),
            r.spec_now() == 0,
    {
        Resident::new()
    }
}

} // verus!
