//! One replay in progress.
//!
//! The per-access step, which is where the whole subject lives: an
//! acquire either finds its object, or has to make room for it, or cannot
//! be served at all.

use vstd::prelude::*;

use crate::abi::ObjectId;
use crate::objtab::{NextUse, ObjectMeta};
use crate::sim::foresight::{spec_next, spec_wanted_at, wanted_at, Foresight};
use crate::trace::Access;
use crate::sim::resident::{index_of, lemma_index_of, no_duplicates, placed, total_size, touched, Resident};
use crate::sim::foresight::NEVER;
use crate::sim::{Model, Outcome, Policy};

verus! {

/// Accesses answered so far, whichever way.
pub open spec fn asked(o: Outcome) -> int {
    o.hits + o.reads + o.refused + o.mismatched
}

/// Whether everything in `new` was already in `old`.
pub open spec fn held_within(new: Seq<(ObjectId, ObjectMeta)>, old: Seq<(ObjectId, ObjectMeta)>) -> bool {
    forall|k: int| 0 <= k < new.len() ==> old.contains(#[trigger] new[k])
}

/// Room in every counter for one more access.
pub open spec fn counters_fit(o: Outcome, held: nat) -> bool {
    &&& o.hits < u64::MAX
    &&& o.reads < u64::MAX
    &&& o.refused < u64::MAX
    &&& o.mismatched < u64::MAX
    &&& o.bytes + 0xffff_ffff <= u64::MAX
    &&& o.evicted + held <= u64::MAX
}

/// Taking one object out leaves the rest, none of them twice.
proof fn lemma_remove_within(s: Seq<(ObjectId, ObjectMeta)>, k: int)
    requires
        0 <= k < s.len(),
    ensures
        held_within(s.remove(k), s),
        no_duplicates(s) ==> no_duplicates(s.remove(k)),
{
    let r = s.remove(k);
    assert forall|j: int| 0 <= j < r.len() implies s.contains(#[trigger] r[j]) by {
        if j < k {
            assert(r[j] == s[j]);
        } else {
            assert(r[j] == s[j + 1]);
        }
    }
    if no_duplicates(s) {
        assert forall|i: int, j: int| 0 <= i < j < r.len() implies (#[trigger] r[i]).0 != (#[trigger] r[j]).0 by {
            let si = if i < k { i } else { i + 1 };
            let sj = if j < k { j } else { j + 1 };
            assert(r[i] == s[si] && r[j] == s[sj]);
        }
    }
}

/// A resident set and its counts: the objects held in placement order,
/// the tick of the last acquire, and the outcome so far.
pub type State = (Seq<(ObjectId, ObjectMeta)>, u32, Outcome);

/// Whether `policy` only ever names an object that is resident, or none.
///
/// A policy that named an object it was not shown would be asked again
/// with nothing changed and name it again, for ever: a miss never ends.
pub open spec fn names_only_resident<P: Policy + ?Sized>(policy: &P) -> bool {
    forall|held: Seq<(ObjectId, ObjectMeta)>, now: u32, wanting: ObjectMeta|
        #[trigger] policy.spec_victim(held, now, wanting) matches Some(v) ==> 0 <= index_of(held, v) < held.len()
}

/// What placing `want` at tick `now` makes of `held` and `out`.
pub open spec fn spec_place(held: Seq<(ObjectId, ObjectMeta)>, out: Outcome, want: (ObjectId, ObjectMeta), now: u32, next: NextUse) -> (
    Seq<(ObjectId, ObjectMeta)>,
    Outcome,
) {
    (
        held.push((want.0, placed(want.1, now, next))),
        Outcome {
            reads: (out.reads + 1) as u64,
            bytes: (out.bytes + want.1.size) as u64,
            cost: out.cost.saturating_add(want.1.reload_cost.0),
            ..out
        },
    )
}

/// What a miss does: while `want` does not fit under `budget`, ask the
/// policy for a victim and evict it; refuse when the policy gives none;
/// place `want` once it fits. Evictions made before a refusal stay made.
/// (A victim that is not resident never comes from a policy that
/// [`names_only_resident`], which is all a replay is run with; the branch
/// for it only keeps this definition total.)
pub open spec fn spec_fetch<P: Policy + ?Sized>(
    policy: &P,
    budget: u64,
    held: Seq<(ObjectId, ObjectMeta)>,
    now: u32,
    out: Outcome,
    want: (ObjectId, ObjectMeta),
    next: NextUse,
) -> (Seq<(ObjectId, ObjectMeta)>, Outcome)
    decreases held.len(),
{
    if total_size(held) + want.1.size <= budget {
        spec_place(held, out, want, now, next)
    } else {
        match policy.spec_victim(held, now, want.1) {
            None => (held, Outcome { refused: (out.refused + 1) as u64, ..out }),
            Some(victim) => {
                let k = index_of(held, victim);
                if k < 0 || k >= held.len() {
                    (held, Outcome { refused: (out.refused + 1) as u64, ..out })
                } else {
                    spec_fetch(
                        policy,
                        budget,
                        held.remove(k),
                        now,
                        Outcome { evicted: (out.evicted + 1) as u64, ..out },
                        want,
                        next,
                    )
                }
            },
        }
    }
}

/// One round of a miss: what `spec_fetch` does from a state, given
/// whether the object fits and what the policy answers there.
proof fn lemma_fetch_unfold<P: Policy + ?Sized>(
    policy: &P,
    budget: u64,
    held: Seq<(ObjectId, ObjectMeta)>,
    now: u32,
    out: Outcome,
    want: (ObjectId, ObjectMeta),
    next: NextUse,
)
    ensures
        spec_fetch(policy, budget, held, now, out, want, next) == (if total_size(held) + want.1.size <= budget {
            spec_place(held, out, want, now, next)
        } else {
            match policy.spec_victim(held, now, want.1) {
                None => (held, Outcome { refused: (out.refused + 1) as u64, ..out }),
                Some(victim) => {
                    let k = index_of(held, victim);
                    if k < 0 || k >= held.len() {
                        (held, Outcome { refused: (out.refused + 1) as u64, ..out })
                    } else {
                        spec_fetch(
                            policy,
                            budget,
                            held.remove(k),
                            now,
                            Outcome { evicted: (out.evicted + 1) as u64, ..out },
                            want,
                            next,
                        )
                    }
                },
            }
        }),
{
}

/// What one access to `id` at one-based tick `now` does to a state: a
/// mismatch when the model does not know the object, and changes nothing
/// else; a hit when it is resident, which touches it; otherwise a miss.
pub open spec fn spec_step<M: Model + ?Sized, P: Policy + ?Sized>(
    model: &M,
    policy: &P,
    seen: Seq<u32>,
    budget: u64,
    state: State,
    id: ObjectId,
    now: u32,
) -> State {
    let (held, tick, out) = state;
    match model.spec_meta(id) {
        None => (held, tick, Outcome { mismatched: (out.mismatched + 1) as u64, ..out }),
        Some(meta) => {
            let next = spec_wanted_at(seen, now);
            let k = index_of(held, id);
            if k >= 0 {
                (held.update(k, (id, touched(held[k].1, now, next))), now, Outcome { hits: (out.hits + 1) as u64, ..out })
            } else {
                let (after, counted) = spec_fetch(policy, budget, held, now, out, (id, meta), next);
                (after, now, counted)
            }
        },
    }
}

/// An access to a resident object the model knows is a hit, and the hit
/// is what a recency policy sees next: the object stays where it was, its
/// last use is now the tick of this access, nothing is read, evicted or
/// refused, and every other resident object is left as it was.
pub proof fn law_a_hit_is_seen_by_recency<M: Model + ?Sized, P: Policy + ?Sized>(
    model: &M,
    policy: &P,
    seen: Seq<u32>,
    budget: u64,
    state: State,
    id: ObjectId,
    now: u32,
)
    requires
        model.spec_meta(id) is Some,
        exists|j: int| 0 <= j < state.0.len() && (#[trigger] state.0[j]).0 == id,
        state.2.hits < u64::MAX,
    ensures
        ({
            let r = spec_step(model, policy, seen, budget, state, id, now);
            let k = index_of(state.0, id);
            &&& 0 <= k < state.0.len()
            &&& r.0.len() == state.0.len()
            &&& r.0[k].0 == id
            &&& r.0[k].1.used_tick == now
            &&& forall|j: int| 0 <= j < state.0.len() && j != k ==> r.0[j] == state.0[j]
            &&& r.1 == now
            &&& r.2.hits == state.2.hits + 1
            &&& r.2.reads == state.2.reads && r.2.evicted == state.2.evicted && r.2.refused == state.2.refused
        }),
{
    crate::sim::resident::lemma_index_of(state.0, id, 0);
}

/// Where each access of `trace` is next wanted, as a whole trace tells it.
pub open spec fn foresight_of(trace: Seq<Access>) -> Seq<u32> {
    Seq::new(trace.len(), |i: int| spec_next(trace, i))
}

/// The state after the first `k` accesses of `trace`, from nothing
/// resident at tick zero.
pub open spec fn spec_replay<M: Model + ?Sized, P: Policy + ?Sized>(
    model: &M,
    policy: &P,
    trace: Seq<Access>,
    budget: u64,
    k: nat,
) -> State
    decreases k,
{
    if k == 0 {
        (seq![], 0, Outcome::spec_zero())
    } else {
        spec_step(
            model,
            policy,
            foresight_of(trace),
            budget,
            spec_replay(model, policy, trace, budget, (k - 1) as nat),
            trace[k - 1].object,
            k as u32,
        )
    }
}

/// The metadata of the object access `k` (one-based) of `trace` read, if
/// that access was a read.
pub open spec fn read_at<M: Model + ?Sized, P: Policy + ?Sized>(
    model: &M,
    policy: &P,
    trace: Seq<Access>,
    budget: u64,
    k: nat,
) -> Seq<ObjectMeta> {
    if k > 0 && spec_replay(model, policy, trace, budget, k).2.reads == spec_replay(
        model,
        policy,
        trace,
        budget,
        (k - 1) as nat,
    ).2.reads + 1 {
        seq![model.spec_meta(trace[k - 1].object).unwrap()]
    } else {
        seq![]
    }
}

/// The metadata of every object read in the first `k` accesses, in order.
pub open spec fn reads_of<M: Model + ?Sized, P: Policy + ?Sized>(
    model: &M,
    policy: &P,
    trace: Seq<Access>,
    budget: u64,
    k: nat,
) -> Seq<ObjectMeta>
    decreases k,
{
    if k == 0 {
        seq![]
    } else {
        reads_of(model, policy, trace, budget, (k - 1) as nat) + read_at(model, policy, trace, budget, k)
    }
}

/// The sizes of `metas`, added up.
pub open spec fn size_sum(metas: Seq<ObjectMeta>) -> int
    decreases metas.len(),
{
    if metas.len() == 0 {
        0
    } else {
        size_sum(metas.drop_last()) + metas.last().size
    }
}

/// The reload costs of `metas`, added up.
pub open spec fn cost_sum(metas: Seq<ObjectMeta>) -> int
    decreases metas.len(),
{
    if metas.len() == 0 {
        0
    } else {
        cost_sum(metas.drop_last()) + metas.last().reload_cost.0
    }
}

/// A miss either places its object, moving reads, bytes and cost by that
/// object, or refuses it and moves none of them.
proof fn lemma_fetch_counts<P: Policy + ?Sized>(
    policy: &P,
    budget: u64,
    held: Seq<(ObjectId, ObjectMeta)>,
    now: u32,
    out: Outcome,
    want: (ObjectId, ObjectMeta),
    next: NextUse,
)
    ensures
        ({
            let r = spec_fetch(policy, budget, held, now, out, want, next).1;
            ||| (r.reads == out.reads && r.bytes == out.bytes && r.cost == out.cost)
            ||| (r.reads == (out.reads + 1) as u64 && r.bytes == (out.bytes + want.1.size) as u64 && r.cost
                == out.cost.saturating_add(want.1.reload_cost.0))
        }),
    decreases held.len(),
{
    lemma_fetch_unfold(policy, budget, held, now, out, want, next);
    if total_size(held) + want.1.size > budget {
        match policy.spec_victim(held, now, want.1) {
            None => {},
            Some(victim) => {
                let k = index_of(held, victim);
                if 0 <= k < held.len() {
                    lemma_fetch_counts(
                        policy,
                        budget,
                        held.remove(k),
                        now,
                        Outcome { evicted: (out.evicted + 1) as u64, ..out },
                        want,
                        next,
                    );
                }
            },
        }
    }
}

/// Bytes and cost count only reads, and each read adds its own object's
/// size and reload cost: a replay's bytes are the sizes of the objects it
/// read, its reads are how many there were, and its cost is their reload
/// costs added up -- held at the largest count a `u64` can hold, which is
/// all saturating can change.
pub proof fn law_bytes_and_cost_are_sums_over_the_reads<M: Model + ?Sized, P: Policy + ?Sized>(
    model: &M,
    policy: &P,
    trace: Seq<Access>,
    budget: u64,
    k: nat,
)
    requires
        k <= trace.len(),
        trace.len() < NEVER,
    ensures
        ({
            let o = spec_replay(model, policy, trace, budget, k).2;
            let reads = reads_of(model, policy, trace, budget, k);
            &&& o.reads == reads.len()
            &&& o.bytes == size_sum(reads)
            &&& o.cost == (if cost_sum(reads) > u64::MAX {
                u64::MAX as int
            } else {
                cost_sum(reads)
            })
            &&& o.reads <= k
            &&& o.bytes <= o.reads * 0xffff_ffff
        }),
    decreases k,
{
    if k > 0 {
        let j = (k - 1) as nat;
        law_bytes_and_cost_are_sums_over_the_reads(model, policy, trace, budget, j);
        let before = spec_replay(model, policy, trace, budget, j);
        let o0 = before.2;
        let id = trace[j as int].object;
        let o = spec_replay(model, policy, trace, budget, k).2;
        let rs0 = reads_of(model, policy, trace, budget, j);
        let rs = reads_of(model, policy, trace, budget, k);
        assert(o.reads == o0.reads || o.reads == o0.reads + 1 && o.bytes == o0.bytes
            + model.spec_meta(id).unwrap().size && o.cost == o0.cost.saturating_add(
            model.spec_meta(id).unwrap().reload_cost.0,
        ) && model.spec_meta(id) is Some) by {
            match model.spec_meta(id) {
                None => {},
                Some(meta) => {
                    if index_of(before.0, id) < 0 {
                        lemma_fetch_counts(
                            policy,
                            budget,
                            before.0,
                            k as u32,
                            o0,
                            (id, meta),
                            spec_wanted_at(foresight_of(trace), k as u32),
                        );
                        assert(o0.bytes + meta.size <= (o0.reads + 1) * 0xffff_ffff) by (nonlinear_arith)
                            requires
                                o0.bytes <= o0.reads * 0xffff_ffff,
                                meta.size <= 0xffff_ffff,
                        ;
                        assert((o0.reads + 1) * 0xffff_ffff <= 0xffff_ffff * 0xffff_ffff) by (nonlinear_arith)
                            requires
                                o0.reads + 1 <= 0xffff_ffff,
                        ;
                    }
                },
            }
        }
        if o.reads == o0.reads + 1 {
            let meta = model.spec_meta(id).unwrap();
            assert(rs == rs0 + seq![meta]);
            assert(rs.drop_last() =~= rs0);
            assert((o0.reads + 1) * 0xffff_ffff == o0.reads * 0xffff_ffff + 0xffff_ffff) by (nonlinear_arith);
        } else {
            assert(rs =~= rs0);
            assert(o.bytes == o0.bytes && o.cost == o0.cost) by {
                match model.spec_meta(id) {
                    None => {},
                    Some(meta) => {
                        if index_of(before.0, id) < 0 {
                            lemma_fetch_counts(
                                policy,
                                budget,
                                before.0,
                                k as u32,
                                o0,
                                (id, meta),
                                spec_wanted_at(foresight_of(trace), k as u32),
                            );
                        }
                    },
                }
            }
        }
    }
}

/// What does not change across a replay.
pub struct Run<'a, M: Model + ?Sized, P: Policy + ?Sized> {
    /// Where sizes and costs come from.
    pub model: &'a M,
    /// How many resident bytes are allowed. One number for the whole run,
    /// and for every policy compared against it.
    pub budget: u64,
    /// The policy under test.
    pub policy: &'a P,
    /// Where each object is next wanted, which a declared stream would
    /// tell a kernel and a whole trace tells a simulator.
    pub seen: &'a Foresight,
}

impl<'a, M: Model + ?Sized, P: Policy + ?Sized> Run<'a, M, P> {
    /// One access, at one-based tick `now`.
    ///
    /// Exactly one counter moves: a hit when the object is resident, a
    /// read when it had to be placed, a refusal when the policy would not
    /// make room, a mismatch when the model does not know the object. The
    /// resident set never grows past the budget, never holds an object
    /// twice, and a hit moves no bytes and costs nothing.
    pub fn step(&self, resident: &mut Resident, outcome: &mut Outcome, id: ObjectId, now: u32)
        requires
            names_only_resident(self.policy),
            old(resident).wf(),
            old(resident).spec_bytes() <= self.budget,
            counters_fit(*old(outcome), old(resident).held().len()),
        ensures
            (final(resident).held(), final(resident).spec_now(), *final(outcome)) == spec_step(
                self.model,
                self.policy,
                self.seen@,
                self.budget,
                (old(resident).held(), old(resident).spec_now(), *old(outcome)),
                id,
                now,
            ),
            final(resident).wf(),
            final(resident).spec_bytes() <= self.budget,
            no_duplicates(old(resident).held()) ==> no_duplicates(final(resident).held()),
            asked(*final(outcome)) == asked(*old(outcome)) + 1,
            final(outcome).hits >= old(outcome).hits,
            final(outcome).reads >= old(outcome).reads,
            final(outcome).refused >= old(outcome).refused,
            final(outcome).mismatched >= old(outcome).mismatched,
            final(outcome).reads - final(outcome).evicted - final(resident).held().len() == old(outcome).reads
                - old(outcome).evicted - old(resident).held().len(),
            final(outcome).reads == old(outcome).reads ==> final(outcome).bytes == old(outcome).bytes
                && final(outcome).cost == old(outcome).cost,
            final(outcome).reads == old(outcome).reads + 1 ==> final(outcome).bytes - old(outcome).bytes
                <= 0xffff_ffff,
            final(outcome).mismatched == old(outcome).mismatched + 1 ==> final(resident).held() == old(
                resident,
            ).held(),
            final(outcome).hits == old(outcome).hits + 1 ==> index_of(old(resident).held(), id) >= 0
                && final(resident).held() == old(resident).held().update(
                index_of(old(resident).held(), id),
                (
                    id,
                    touched(
                        old(resident).held()[index_of(old(resident).held(), id)].1,
                        now,
                        spec_wanted_at(self.seen@, now),
                    ),
                ),
            ),
            final(outcome).reads == old(outcome).reads + 1 ==> index_of(old(resident).held(), id) < 0
                && final(resident).held().len() > 0 && final(resident).held().last().0 == id && held_within(
                final(resident).held().drop_last(),
                old(resident).held(),
            ),
            final(outcome).refused == old(outcome).refused + 1 ==> index_of(old(resident).held(), id) < 0
                && held_within(final(resident).held(), old(resident).held()),
    {
        let meta = match self.model.meta(id) {
            None => {
                // The trace names an object this model does not have, so
                // they are not the same model. Counting it as a refusal
                // would hide a mismatched pair behind a plausible number.
                outcome.mismatched = outcome.mismatched + 1;
                return;
            },
            Some(meta) => meta,
        };
        let next = wanted_at(self.seen, now);
        proof {
            lemma_index_of(resident.held(), id, 0);
        }
        if resident.touch(id, now, next) {
            outcome.hits = outcome.hits + 1;
            return;
        }
        self.fetch(resident, outcome, (id, meta), (now, next));
    }

    /// A miss: make room if the policy will give any, then place.
    ///
    /// One victim at a time, so a policy never has to know how much more
    /// room is needed -- only which single object it would give up next.
    /// Evictions made before a refusal stay made. The policy must name
    /// only resident objects: one it was not shown frees nothing, and it
    /// would be named again for ever.
    fn fetch(&self, resident: &mut Resident, out: &mut Outcome, want: (ObjectId, ObjectMeta), when: (u32, NextUse))
        requires
            names_only_resident(self.policy),
            old(resident).wf(),
            old(resident).spec_bytes() <= self.budget,
            counters_fit(*old(out), old(resident).held().len()),
            index_of(old(resident).held(), want.0) < 0,
            old(resident).spec_now() == when.0,
        ensures
            (final(resident).held(), *final(out)) == spec_fetch(
                self.policy,
                self.budget,
                old(resident).held(),
                when.0,
                *old(out),
                want,
                when.1,
            ),
            final(resident).spec_now() == when.0,
            final(resident).wf(),
            final(resident).spec_bytes() <= self.budget,
            no_duplicates(old(resident).held()) ==> no_duplicates(final(resident).held()),
            final(out).hits == old(out).hits,
            final(out).mismatched == old(out).mismatched,
            (final(out).reads == old(out).reads + 1 && final(out).refused == old(out).refused
                && final(resident).held().len() > 0 && final(resident).held().last() == (
                want.0,
                placed(want.1, when.0, when.1),
            ) && held_within(final(resident).held().drop_last(), old(resident).held())
                && final(out).bytes == old(out).bytes + want.1.size && final(out).cost
                == old(out).cost.saturating_add(want.1.reload_cost.0)) || (final(out).refused
                == old(out).refused + 1 && final(out).reads == old(out).reads && held_within(
                final(resident).held(),
                old(resident).held(),
            ) && final(out).bytes == old(out).bytes && final(out).cost == old(out).cost),
            final(out).evicted - old(out).evicted == old(resident).held().len() - final(resident).held().len()
                + (final(out).reads - old(out).reads),
    {
        let (id, meta) = want;
        let (now, next) = when;
        let ghost start = resident.held();
        let ghost first = *out;
        assert(held_within(start, start)) by {
            assert forall|k: int| 0 <= k < start.len() implies start.contains(#[trigger] start[k]) by {}
        }
        while meta.size as u64 > self.budget - resident.bytes()
            invariant
                resident.wf(),
                resident.spec_bytes() <= self.budget,
                held_within(resident.held(), start),
                no_duplicates(start) ==> no_duplicates(resident.held()),
                index_of(resident.held(), id) < 0,
                out.hits == first.hits && out.mismatched == first.mismatched && out.reads == first.reads
                    && out.refused == first.refused && out.bytes == first.bytes && out.cost == first.cost,
                out.evicted - first.evicted == start.len() - resident.held().len(),
                counters_fit(first, start.len()),
                resident.held().len() <= start.len(),
                start == old(resident).held(),
                first == *old(out),
                resident.spec_now() == now,
                names_only_resident(self.policy),
                want == (id, meta),
                (now, next) == when,
                spec_fetch(self.policy, self.budget, start, now, first, want, next) == spec_fetch(
                    self.policy,
                    self.budget,
                    resident.held(),
                    now,
                    *out,
                    want,
                    next,
                ),
            decreases resident.held().len(),
        {
            let ghost cur = resident.held();
            let ghost counted = *out;
            assert(total_size(cur) + meta.size > self.budget);
            proof {
                lemma_fetch_unfold(self.policy, self.budget, cur, now, counted, want, next);
            }
            let chosen = self.policy.victim(&*resident, &meta);
            assert(chosen == self.policy.spec_victim(cur, now, meta));
            if chosen.is_none() {
                out.refused = out.refused + 1;
                assert((resident.held(), *out) == spec_fetch(self.policy, self.budget, cur, now, counted, want, next));
                return;
            }
            let victim = chosen.unwrap();
            assert(0 <= index_of(cur, victim) < cur.len());
            let ghost before = resident.held();
            let ghost k = index_of(before, victim);
            proof {
                lemma_index_of(before, victim, 0);
                lemma_remove_within(before, k);
            }
            resident.remove(victim);
            proof {
                lemma_index_of(resident.held(), id, 0);
                assert forall|j: int| 0 <= j < resident.held().len() implies start.contains(#[trigger] resident.held()[j]) by {
                    assert(before.contains(resident.held()[j]));
                    let q = choose|q: int| 0 <= q < before.len() && before[q] == resident.held()[j];
                    assert(start.contains(before[q]));
                }
                assert forall|j: int| 0 <= j < resident.held().len() implies resident.held()[j].0 != id by {
                    assert(before.contains(resident.held()[j]));
                    let q = choose|q: int| 0 <= q < before.len() && before[q] == resident.held()[j];
                    lemma_index_of(before, id, 0);
                }
            }
            out.evicted = out.evicted + 1;
            assert(spec_fetch(self.policy, self.budget, cur, now, counted, want, next) == spec_fetch(
                self.policy,
                self.budget,
                resident.held(),
                now,
                *out,
                want,
                next,
            ));
        }
        proof {
            lemma_index_of(resident.held(), id, 0);
        }
        let ghost cur = resident.held();
        let ghost counted = *out;
        assert(total_size(cur) + meta.size <= self.budget);
        proof {
            lemma_fetch_unfold(self.policy, self.budget, cur, now, counted, want, next);
        }
        let ghost before = resident.held();
        resident.insert(id, meta, now, next);
        proof {
            assert(resident.held().drop_last() =~= before);
            if no_duplicates(start) {
                assert forall|i: int, j: int| 0 <= i < j < resident.held().len() implies (#[trigger] resident.held()[i]).0
                    != (#[trigger] resident.held()[j]).0 by {
                    if j == before.len() {
                        assert(resident.held()[i] == before[i]);
                    } else {
                        assert(resident.held()[i] == before[i] && resident.held()[j] == before[j]);
                    }
                }
            }
        }
        out.reads = out.reads + 1;
        out.bytes = out.bytes + meta.size as u64;
        out.cost = out.cost.saturating_add(meta.reload_cost.0);
        assert((resident.held(), *out) == spec_place(cur, counted, want, now, next));
    }
}

} // verus!
