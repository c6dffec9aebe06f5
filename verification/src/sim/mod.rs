//! Replay an access trace against a policy, and count what it cost.
//!
//! Two properties carry the harness's weight. The budget is a property of
//! the run, not of the policy: [`compare`] takes one budget and applies it
//! to every policy. And the resident set never holds more than the budget
//! allows, which [`run::Run::step`] states and proves for every access.

use vstd::prelude::*;

use crate::abi::ObjectId;
use crate::objtab::ObjectMeta;
use crate::trace::Trace;

pub mod foresight;
pub mod resident;
pub mod run;
pub mod view;

use foresight::{Foresight, NEVER};
use resident::Resident;
use run::{asked, foresight_of, names_only_resident, spec_replay, Run};

verus! {

/// The resident objects in placement order, as a policy's specification
/// sees them.
pub type Held = Seq<(ObjectId, ObjectMeta)>;

/// The object placed longest ago, if any is resident: what a policy that
/// evicts in placement order gives up.
pub open spec fn oldest(held: Held) -> Option<ObjectId> {
    if held.len() > 0 {
        Some(held[0].0)
    } else {
        None
    }
}

/// Where an object's size and costs come from.
///
/// A trace names objects and says nothing about how big they are; size is
/// a property of the model, and the trace header names which one.
///
/// An implementation says what it answers for each id in `spec_meta`, and
/// `meta` gives exactly that: the answer depends on the id alone.
pub trait Model {
    /// What the table would know about `id`, or `None` if it is not in
    /// this model.
    spec fn spec_meta(&self, id: ObjectId) -> Option<ObjectMeta>;

    /// What the table would know about `id`, or `None` if it is not in
    /// this model -- which means the trace and the model do not match.
    fn meta(&self, id: ObjectId) -> (m: Option<ObjectMeta>)
        ensures
            m == self.spec_meta(id),
    ;
}

/// The resident set as a policy sees it: read-only, one object at a time.
pub trait Residency {
    /// The resident objects, in placement order.
    spec fn spec_held(&self) -> Seq<(ObjectId, ObjectMeta)>;

    /// The tick of the acquire being served.
    spec fn spec_tick(&self) -> u32;

    /// How many objects are resident.
    fn len(&self) -> (n: usize)
        ensures
            n == self.spec_held().len(),
    ;

    /// The resident object at `index`, in placement order.
    fn at(&self, index: usize) -> (r: Option<(ObjectId, ObjectMeta)>)
        ensures
            r == (if index < self.spec_held().len() {
                Some(self.spec_held()[index as int])
            } else {
                None
            }),
    ;

    /// The tick of the acquire being served.
    fn now(&self) -> (t: u32)
        ensures
            t == self.spec_tick(),
    ;
}

/// A residency policy: which single object to give up next.
///
/// An implementation says in `spec_victim` which object it gives up for a
/// resident set, the tick and the object wanting room, and `victim` gives
/// exactly that: the choice depends on what the policy is shown alone.
pub trait Policy {
    /// What to call it in a comparison.
    spec fn spec_name(&self) -> &'static str;

    /// The victim chosen from resident objects `held` at tick `now` to
    /// make room for `wanting`, or `None` to refuse.
    spec fn spec_victim(&self, held: Held, now: u32, wanting: ObjectMeta) -> Option<ObjectId>;

    /// What to call it in a comparison.
    fn name(&self) -> (n: &'static str)
        ensures
            n == self.spec_name(),
    ;

    /// The resident object to evict to make room for `wanting`, or `None`
    /// to refuse the acquire instead.
    fn victim(&self, resident: &dyn Residency, wanting: &ObjectMeta) -> (v: Option<ObjectId>)
        ensures
            v == self.spec_victim(resident.spec_held(), resident.spec_tick(), *wanting),
    ;
}

/// What one policy did with one trace.
#[derive(Clone, Copy, PartialEq, Eq, Debug)]
pub struct Outcome {
    /// Acquires that found the object already resident.
    pub hits: u64,
    /// Acquires that had to go to a provider. The number to minimise.
    pub reads: u64,
    /// Bytes those reads moved.
    pub bytes: u64,
    /// Objects thrown away to make room.
    pub evicted: u64,
    /// Acquires that could not be served at all.
    pub refused: u64,
    /// What the reads would have cost, in nanoseconds.
    pub cost: u64,
    /// Accesses naming objects this model does not have.
    pub mismatched: u64,
}

impl Default for Outcome {
    /// Nothing counted yet.
    fn default() -> (o: Outcome)
        ensures
            o == Outcome::spec_zero(),
    {
        Outcome { hits: 0, reads: 0, bytes: 0, evicted: 0, refused: 0, cost: 0, mismatched: 0 }
    }
}

impl Outcome {
    /// Nothing counted yet.
    pub open spec fn spec_zero() -> Outcome {
        Outcome { hits: 0, reads: 0, bytes: 0, evicted: 0, refused: 0, cost: 0, mismatched: 0 }
    }

    /// Acquires served without going to a provider, per thousand of those
    /// asked for and answered with a residency decision.
    pub fn hit_per_mille(&self) -> (r: u64)
        requires
            self.hits + self.reads + self.refused <= u64::MAX,
            self.hits * 1000 <= u64::MAX,
        ensures
            r == (if self.hits + self.reads + self.refused == 0 {
                0
            } else {
                (self.hits * 1000) / (self.hits + self.reads + self.refused)
            }),
    {
        match self.hits + self.reads + self.refused {
            0 => 0,
            asked => self.hits * 1000 / asked,
        }
    }
}

/// Replays `trace` against one policy under `budget` bytes.
///
/// The outcome is the one [`run::spec_replay`] gives: each access in turn
/// is a mismatch when the model does not know its object, a hit when the
/// object is resident, and otherwise a miss that evicts the policy's
/// victims until the object fits, or is refused. Every access is answered
/// exactly once, and every object evicted was one that had been read.
///
/// The policy must name only resident objects: one that named an object it
/// was not shown would be asked again with nothing changed, and the miss
/// would never end. Bytes and cost are the sums over the reads
/// ([`run::law_bytes_and_cost_are_sums_over_the_reads`]).
pub fn replay<M: Model + ?Sized, P: Policy + ?Sized>(trace: &Trace<'_>, model: &M, budget: u64, policy: &P) -> (out: Outcome)
    requires
        trace.accesses@.len() < NEVER,
        names_only_resident(policy),
    ensures
        out == spec_replay(model, policy, trace.accesses@, budget, trace.accesses@.len()).2,
        asked(out) == trace.accesses@.len(),
        out.evicted <= out.reads,
        trace.accesses@.len() == 0 ==> out == Outcome::spec_zero(),
{
    let seen = Foresight::read(trace.accesses);
    assert(seen@ =~= foresight_of(trace.accesses@));
    let run = Run { model, budget, policy, seen: &seen };
    let mut resident = Resident::new();
    let mut out = Outcome { hits: 0, reads: 0, bytes: 0, evicted: 0, refused: 0, cost: 0, mismatched: 0 };
    let n = trace.accesses.len();
    let mut at: usize = 0;
    while at < n
        invariant
            at <= n,
            n == trace.accesses@.len(),
            n < NEVER,
            run.budget == budget,
            resident.wf(),
            resident.spec_bytes() <= budget,
            asked(out) == at,
            out.reads - out.evicted == resident.held().len(),
            out.bytes <= out.reads * 0xffff_ffff,
            run.model == model,
            run.policy == policy,
            names_only_resident(policy),
            run.seen@ == foresight_of(trace.accesses@),
            (resident.held(), resident.spec_now(), out) == spec_replay(model, policy, trace.accesses@, budget, at as nat),
        decreases n - at,
    {
        let access = trace.accesses[at];
        run.step(&mut resident, &mut out, access.object, (at + 1) as u32);
        at += 1;
    }
    out
}

/// Replays `trace` against every policy under the SAME budget.
///
/// One budget argument for all of them, which is the enforcement: a
/// comparison where the policies had different budgets cannot be
/// expressed through this function at all.
pub fn compare<'a, M: Model + ?Sized>(
    trace: &Trace<'_>,
    model: &M,
    budget: u64,
    policies: &[&'a dyn Policy],
) -> (table: Vec<(&'a str, Outcome)>)
    requires
        trace.accesses@.len() < NEVER,
        forall|k: int| 0 <= k < policies@.len() ==> names_only_resident(#[trigger] policies@[k]),
    ensures
        table@.len() == policies@.len(),
        forall|k: int|
            0 <= k < table@.len() ==> (#[trigger] table@[k]).0 == policies@[k].spec_name() && table@[k].1
                == spec_replay(model, policies@[k], trace.accesses@, budget, trace.accesses@.len()).2,
        forall|k: int|
            0 <= k < table@.len() ==> asked((#[trigger] table@[k]).1) == trace.accesses@.len()
                && table@[k].1.evicted <= table@[k].1.reads,
{
    let mut table: Vec<(&'a str, Outcome)> = Vec::new();
    let mut k: usize = 0;
    while k < policies.len()
        invariant
            k <= policies@.len(),
            table@.len() == k,
            trace.accesses@.len() < NEVER,
            forall|j: int| 0 <= j < policies@.len() ==> names_only_resident(#[trigger] policies@[j]),
            forall|j: int|
                0 <= j < table@.len() ==> (#[trigger] table@[j]).0 == policies@[j].spec_name() && table@[j].1
                    == spec_replay(model, policies@[j], trace.accesses@, budget, trace.accesses@.len()).2,
            forall|j: int|
                0 <= j < table@.len() ==> asked((#[trigger] table@[j]).1) == trace.accesses@.len()
                    && table@[j].1.evicted <= table@[j].1.reads,
        decreases policies@.len() - k,
    {
        let policy = policies[k];
        assert(policy == policies@[k as int]);
        let out = replay(trace, model, budget, policy);
        let name = policy.name();
        table.push((name, out));
        assert(table@[k as int] == (name, out));
        k += 1;
    }
    table
}

} // verus!
