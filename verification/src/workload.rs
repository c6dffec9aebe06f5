//! A decode loop, as an access trace.
//!
//! Several sessions decode at once, round-robin, for different numbers of
//! tokens. Within a session's turn, every weight tile of a layer is read,
//! then that session's KV blocks for the layer so far: the projections
//! come from the weights and attention reads the cache. Sessions that
//! finish are what make recency mean something: their KV is never read
//! again.
//!
//! KV blocks are here rather than with the model because they are a
//! property of the workload: produced by running the model, growing with
//! the conversation, and owned by one session.

use vstd::prelude::*;

use crate::abi::{law_new_round_trips, spec_fields, spec_pack, Fields, ObjectClass, ObjectId};
use crate::objtab::{CostNs, Mutability, NextUse, ObjectMeta, Precision, ProviderId, SessionId, Tier};
use crate::sim::Model;
use crate::synth::{activations, spec_activations, spec_tile, spec_weights, tile, weights, LAYERS, TILES};
use crate::trace::{Access, Header};

verus! {

/// What to call this workload in a trace header.
pub const MODEL: &'static str = "synth-8x16+kv";

/// Bytes per KV block, per layer.
pub const KV_BYTES: u32 = 256;

/// The id of one session's KV block for one layer and position.
pub open spec fn spec_block(session: u16, layer: u16, position: u16) -> ObjectId {
    ObjectId(spec_pack(ObjectClass::KvBlock.spec_code(), Fields { model: session, layer, tensor: position, tile: 0 }))
}

/// The id of one session's KV block for one layer and position.
///
/// KV is session-scoped, so the model field carries the session: two
/// sessions asking the same question hold different KV.
pub fn block(session: u16, layer: u16, position: u16) -> (id: ObjectId)
    ensures
        id == spec_block(session, layer, position),
{
    ObjectId::new(ObjectClass::KvBlock, Fields { model: session, layer, tensor: position, tile: 0 })
}

/// What the table knows about one session's KV block.
pub open spec fn spec_kv_meta(session: u16) -> ObjectMeta {
    ObjectMeta {
        size: KV_BYTES,
        precision: Precision::Fp16,
        tier: Tier::Warm,
        provider: ProviderId(3),
        handle: 0,
        resident_at: 0,
        next_use: NextUse::Never,
        reuse_count: 0,
        placed_tick: 0,
        used_tick: 0,
        reload_cost: CostNs(400_000),
        recompute_cost: CostNs(2_000_000),
        share_count: 0,
        mutability: Mutability::Mutable,
        owner: SessionId(session),
    }
}

/// What the table would know about a KV block.
///
/// The opposite of a weight tile in every respect a policy cares about:
/// mutable, owned by one session, and recomputable -- by re-running
/// attention over the prefix, which costs more than spilling it.
pub fn kv_meta(session: u16) -> (meta: ObjectMeta)
    ensures
        meta == spec_kv_meta(session),
{
    ObjectMeta {
        size: KV_BYTES,
        precision: Precision::Fp16,
        tier: Tier::Warm,
        provider: ProviderId(3),
        handle: 0,
        resident_at: 0,
        next_use: NextUse::Never,
        reuse_count: 0,
        placed_tick: 0,
        used_tick: 0,
        reload_cost: CostNs(400_000),
        recompute_cost: CostNs(2_000_000),
        share_count: 0,
        mutability: Mutability::Mutable,
        owner: SessionId(session),
    }
}

/// Several sessions decoding at once, for different numbers of tokens.
#[derive(Clone, Copy, PartialEq, Eq, Debug, Structural)]
pub struct Decode {
    /// How many sessions share the model, decoding round-robin.
    pub sessions: u16,
    /// How many rounds the longest-running session lasts.
    pub rounds: u16,
}

/// How many rounds session `which` keeps generating for.
pub open spec fn spec_length(d: Decode, which: u16) -> int {
    if d.sessions == 0 {
        0
    } else {
        (d.rounds * (which + 1)) / (d.sessions as int)
    }
}

/// One layer of one session's turn: every weight tile of the layer, then
/// the session's KV blocks for it up to this round.
pub open spec fn layer_accesses(session: u16, layer: u16, round: u16) -> Seq<Access> {
    Seq::new(TILES as nat, |t: int| Access { session: SessionId(session), object: spec_tile(layer, t as u16) })
        + Seq::new(
        (round + 1) as nat,
        |at: int| Access { session: SessionId(session), object: spec_block(session, layer, at as u16) },
    )
}

/// The first `layers` layers of a session's turn.
pub open spec fn turn(session: u16, round: u16, layers: nat) -> Seq<Access>
    decreases layers,
{
    if layers == 0 {
        seq![]
    } else {
        turn(session, round, (layers - 1) as nat) + layer_accesses(session, (layers - 1) as u16, round)
    }
}

/// The turns of the first `count` sessions in one round, skipping those
/// that have stopped generating.
pub open spec fn round_accesses(d: Decode, round: u16, count: nat) -> Seq<Access>
    decreases count,
{
    if count == 0 {
        seq![]
    } else {
        round_accesses(d, round, (count - 1) as nat) + (if spec_length(d, (count - 1) as u16) <= round {
            Seq::<Access>::empty()
        } else {
            turn(count as u16, round, LAYERS as nat)
        })
    }
}

/// The first `rounds` rounds.
pub open spec fn rounds_accesses(d: Decode, rounds: nat) -> Seq<Access>
    decreases rounds,
{
    if rounds == 0 {
        seq![]
    } else {
        rounds_accesses(d, (rounds - 1) as nat) + round_accesses(d, (rounds - 1) as u16, d.sessions as nat)
    }
}

/// What the table would know about `id`, for this workload.
pub open spec fn spec_meta(id: ObjectId) -> Option<ObjectMeta> {
    match id.spec_class() {
        Some(ObjectClass::WeightTile) => Some(spec_weights()),
        Some(ObjectClass::Activation) => Some(spec_activations()),
        Some(ObjectClass::KvBlock) => Some(spec_kv_meta(spec_fields(id.0).model)),
        _ => None,
    }
}

impl Decode {
    /// `sessions` sessions over `rounds` rounds.
    pub fn of(sessions: u16, rounds: u16) -> (d: Decode)
        ensures
            d == (Decode { sessions, rounds }),
    {
        Decode { sessions, rounds }
    }

    /// How long session `which` keeps generating.
    ///
    /// Spread evenly, so the shortest stops after a fraction of the run
    /// and the longest lasts all of it.
    pub fn length(&self, which: u16) -> (n: u16)
        requires
            self.sessions == 0 || (which < u16::MAX && self.rounds * (which + 1) <= u16::MAX),
        ensures
            n == spec_length(*self, which),
    {
        match self.sessions {
            0 => 0,
            count => self.rounds * (which + 1) / count,
        }
    }

    /// The trace header naming what this is of.
    pub fn header(&self) -> (h: Header<'static>)
        ensures
            h.model == MODEL,
            h.source == "mlos-workload::Decode",
    {
        Header { model: MODEL, source: "mlos-workload::Decode" }
    }

    /// The whole access sequence: round by round, each session still
    /// generating taking its turn in order.
    pub fn trace(&self) -> (out: Vec<Access>)
        requires
            self.rounds * self.sessions <= u16::MAX,
        ensures
            out@ == rounds_accesses(*self, self.rounds as nat),
    {
        let mut out: Vec<Access> = Vec::new();
        let mut round: u16 = 0;
        while round < self.rounds
            invariant
                round <= self.rounds,
                self.rounds * self.sessions <= u16::MAX,
                out@ == rounds_accesses(*self, round as nat),
            decreases self.rounds - round,
        {
            let mut session: u16 = 0;
            let ghost before = out@;
            while session < self.sessions
                invariant
                    session <= self.sessions,
                    round < self.rounds,
                    self.rounds * self.sessions <= u16::MAX,
                    out@ == before + round_accesses(*self, round, session as nat),
                decreases self.sessions - session,
            {
                assert(self.rounds * (session + 1) <= self.rounds * self.sessions) by (nonlinear_arith)
                    requires
                        session + 1 <= self.sessions,
                ;
                let ghost mid = out@;
                if self.length(session) > round {
                    push_turn(&mut out, session + 1, round);
                    assert(out@ =~= before + round_accesses(*self, round, (session + 1) as nat));
                } else {
                    assert(out@ =~= before + round_accesses(*self, round, (session + 1) as nat));
                }
                session += 1;
            }
            round += 1;
        }
        out
    }
}

/// Appends one layer of a session's turn.
fn push_layer(out: &mut Vec<Access>, session: u16, layer: u16, round: u16)
    ensures
        final(out)@ == old(out)@ + layer_accesses(session, layer, round),
{
    let ghost start = out@;
    let by = SessionId(session);
    let mut t: u16 = 0;
    while t < TILES
        invariant
            t <= TILES,
            out@ == start + Seq::new(t as nat, |k: int| Access { session: SessionId(session), object: spec_tile(layer, k as u16) }),
            by == SessionId(session),
        decreases TILES - t,
    {
        out.push(Access { session: by, object: tile(layer, t) });
        t += 1;
        assert(out@ =~= start + Seq::new(t as nat, |k: int| Access { session: SessionId(session), object: spec_tile(layer, k as u16) }));
    }
    let ghost tiles = out@;
    let mut at: u32 = 0;
    while at <= round as u32
        invariant
            at <= round + 1,
            out@ == tiles + Seq::new(at as nat, |k: int| Access { session: SessionId(session), object: spec_block(session, layer, k as u16) }),
            tiles == start + Seq::new(TILES as nat, |k: int| Access { session: SessionId(session), object: spec_tile(layer, k as u16) }),
            by == SessionId(session),
        decreases round + 1 - at,
    {
        out.push(Access { session: by, object: block(session, layer, at as u16) });
        at += 1;
        assert(out@ =~= tiles + Seq::new(at as nat, |k: int| Access { session: SessionId(session), object: spec_block(session, layer, k as u16) }));
    }
    assert(out@ =~= start + layer_accesses(session, layer, round));
}

/// Appends a session's whole turn, layer by layer.
fn push_turn(out: &mut Vec<Access>, session: u16, round: u16)
    ensures
        final(out)@ == old(out)@ + turn(session, round, LAYERS as nat),
{
    let ghost start = out@;
    let mut layer: u16 = 0;
    while layer < LAYERS
        invariant
            layer <= LAYERS,
            out@ == start + turn(session, round, layer as nat),
        decreases LAYERS - layer,
    {
        push_layer(out, session, layer, round);
        layer += 1;
        assert(out@ =~= start + turn(session, round, layer as nat));
    }
}

impl Model for Decode {
    open spec fn spec_meta(&self, id: ObjectId) -> Option<ObjectMeta> {
        spec_meta(id)
    }

    /// Weight tiles and activations come from the synthetic model; KV
    /// blocks from this workload. Anything else is `None` rather than a
    /// guess.
    fn meta(&self, id: ObjectId) -> (m: Option<ObjectMeta>)
        ensures
            m == spec_meta(id),
    {
        match id.class() {
            Some(ObjectClass::WeightTile) => Some(weights()),
            Some(ObjectClass::Activation) => Some(activations()),
            Some(ObjectClass::KvBlock) => Some(kv_meta(id.fields().model)),
            _ => None,
        }
    }
}

/// A layer's part of a turn reads that layer alone, for that session:
/// first each of its weight tiles in order, then the session's KV blocks
/// of that layer, position by position up to the round. So no two layers
/// of a turn share a KV block.
pub proof fn law_a_layer_reads_its_own_layer(session: u16, layer: u16, round: u16)
    ensures
        layer_accesses(session, layer, round).len() == TILES + round + 1,
        forall|i: int|
            0 <= i < layer_accesses(session, layer, round).len() ==> {
                let a = #[trigger] layer_accesses(session, layer, round)[i];
                let f = spec_fields(a.object.0);
                &&& a.session == SessionId(session)
                &&& f.layer == layer
                &&& i < TILES ==> a.object.spec_class() == Some(ObjectClass::WeightTile) && f.tensor == i
                &&& i >= TILES ==> a.object.spec_class() == Some(ObjectClass::KvBlock) && f.model == session
                    && f.tensor == i - TILES
            },
{
    let s = layer_accesses(session, layer, round);
    assert forall|i: int| 0 <= i < s.len() implies {
        let a = #[trigger] s[i];
        let f = spec_fields(a.object.0);
        &&& a.session == SessionId(session)
        &&& f.layer == layer
        &&& i < TILES ==> a.object.spec_class() == Some(ObjectClass::WeightTile) && f.tensor == i
        &&& i >= TILES ==> a.object.spec_class() == Some(ObjectClass::KvBlock) && f.model == session && f.tensor
            == i - TILES
    } by {
        if i < TILES {
            law_new_round_trips(ObjectClass::WeightTile, Fields { model: 1, layer, tensor: i as u16, tile: 0 });
        } else {
            law_new_round_trips(
                ObjectClass::KvBlock,
                Fields { model: session, layer, tensor: (i - TILES) as u16, tile: 0 },
            );
        }
    }
}

/// Whether the model knows every object `s` asks for.
pub open spec fn all_known(s: Seq<Access>) -> bool {
    forall|k: int| 0 <= k < s.len() ==> spec_meta(#[trigger] s[k].object) is Some
}

proof fn lemma_known_concat(a: Seq<Access>, b: Seq<Access>)
    requires
        all_known(a),
        all_known(b),
    ensures
        all_known(a + b),
{
    assert forall|k: int| 0 <= k < (a + b).len() implies spec_meta(#[trigger] (a + b)[k].object) is Some by {
        if k < a.len() {
            assert((a + b)[k] == a[k]);
        } else {
            assert((a + b)[k] == b[k - a.len()]);
        }
    }
}

proof fn lemma_layer_known(session: u16, layer: u16, round: u16)
    ensures
        all_known(layer_accesses(session, layer, round)),
{
    let tiles = Seq::new(TILES as nat, |t: int| Access { session: SessionId(session), object: spec_tile(layer, t as u16) });
    let blocks = Seq::new(
        (round + 1) as nat,
        |at: int| Access { session: SessionId(session), object: spec_block(session, layer, at as u16) },
    );
    assert forall|k: int| 0 <= k < tiles.len() implies spec_meta(#[trigger] tiles[k].object) is Some by {
        law_new_round_trips(ObjectClass::WeightTile, Fields { model: 1, layer, tensor: k as u16, tile: 0 });
    }
    assert forall|k: int| 0 <= k < blocks.len() implies spec_meta(#[trigger] blocks[k].object) is Some by {
        law_new_round_trips(ObjectClass::KvBlock, Fields { model: session, layer, tensor: k as u16, tile: 0 });
    }
    lemma_known_concat(tiles, blocks);
}

proof fn lemma_turn_known(session: u16, round: u16, layers: nat)
    ensures
        all_known(turn(session, round, layers)),
    decreases layers,
{
    if layers > 0 {
        lemma_turn_known(session, round, (layers - 1) as nat);
        lemma_layer_known(session, (layers - 1) as u16, round);
        lemma_known_concat(turn(session, round, (layers - 1) as nat), layer_accesses(session, (layers - 1) as u16, round));
    }
}

proof fn lemma_round_known(d: Decode, round: u16, count: nat)
    ensures
        all_known(round_accesses(d, round, count)),
    decreases count,
{
    if count > 0 {
        lemma_round_known(d, round, (count - 1) as nat);
        lemma_turn_known(count as u16, round, LAYERS as nat);
        let last = if spec_length(d, (count - 1) as u16) <= round {
            Seq::<Access>::empty()
        } else {
            turn(count as u16, round, LAYERS as nat)
        };
        lemma_known_concat(round_accesses(d, round, (count - 1) as nat), last);
    }
}

/// Every object a decode trace names is one the workload's model has:
/// the trace and the model are a matched pair, so a replay never counts a
/// mismatch.
pub proof fn law_trace_names_only_known_objects(d: Decode, rounds: nat)
    ensures
        all_known(rounds_accesses(d, rounds)),
    decreases rounds,
{
    if rounds > 0 {
        law_trace_names_only_known_objects(d, (rounds - 1) as nat);
        lemma_round_known(d, (rounds - 1) as u16, d.sessions as nat);
        lemma_known_concat(rounds_accesses(d, (rounds - 1) as nat), round_accesses(d, (rounds - 1) as u16, d.sessions as nat));
    }
}

} // verus!
