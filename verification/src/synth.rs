//! What a synthetic model is: its shape, its objects, and the tiers it
//! comes from.
//!
//! Eight layers of sixteen weight tiles, plus an activation each. No
//! arithmetic happens: the point is the access pattern and the residency
//! pressure.

use vstd::prelude::*;

use crate::abi::{spec_fields, spec_pack, Error, Fields, ObjectClass, ObjectId};
use crate::objtab::{CostNs, Mutability, NextUse, ObjectMeta, Precision, ProviderId, SessionId, Tier as Place};
use crate::virtio::Block;

verus! {

/// Layers in the synthetic model.
pub const LAYERS: u16 = 8;
/// Weight tiles per layer.
pub const TILES: u16 = 16;
/// Bytes per tile.
pub const TILE_BYTES: u32 = 1024;
/// Bytes per activation.
pub const ACTIVATION_BYTES: u32 = 2048;
/// Which model this is.
pub const MODEL: u16 = 1;

/// The id of weight tile `tensor` of `layer`.
pub open spec fn spec_tile(layer: u16, tensor: u16) -> ObjectId {
    ObjectId(spec_pack(ObjectClass::WeightTile.spec_code(), Fields { model: MODEL, layer, tensor, tile: 0 }))
}

/// The id of one weight tile.
pub fn tile(layer: u16, tensor: u16) -> (id: ObjectId)
    ensures
        id == spec_tile(layer, tensor),
{
    ObjectId::new(ObjectClass::WeightTile, Fields { model: MODEL, layer, tensor, tile: 0 })
}

/// The id of one layer's activation.
pub fn activation(layer: u16) -> (id: ObjectId)
    ensures
        id == ObjectId(spec_pack(ObjectClass::Activation.spec_code(), Fields { model: MODEL, layer, tensor: 0, tile: 0 })),
{
    ObjectId::new(ObjectClass::Activation, Fields { model: MODEL, layer, tensor: 0, tile: 0 })
}

/// What the table knows about a weight tile before anything has
/// happened to it.
pub open spec fn spec_weights() -> ObjectMeta {
    ObjectMeta {
        size: TILE_BYTES,
        precision: Precision::Q4,
        tier: Place::Cold,
        provider: ProviderId(2),
        handle: 0,
        resident_at: 0,
        next_use: NextUse::Never,
        reuse_count: 0,
        placed_tick: 0,
        used_tick: 0,
        reload_cost: CostNs(4_000_000),
        recompute_cost: CostNs(u64::MAX),
        share_count: 0,
        mutability: Mutability::Immutable,
        owner: SessionId(0),
    }
}

/// Weights: immutable, backed by storage, and impossible to recompute.
///
/// There is no computation that produces a trained weight, so eviction
/// may demote these and must never discard them.
pub fn weights() -> (meta: ObjectMeta)
    ensures
        meta == spec_weights(),
{
    ObjectMeta {
        size: TILE_BYTES,
        precision: Precision::Q4,
        tier: Place::Cold,
        provider: ProviderId(2),
        handle: 0,
        resident_at: 0,
        next_use: NextUse::Never,
        reuse_count: 0,
        placed_tick: 0,
        used_tick: 0,
        reload_cost: CostNs(4_000_000),
        recompute_cost: CostNs::impossible(),
        share_count: 0,
        mutability: Mutability::Immutable,
        owner: SessionId(0),
    }
}

/// What the table knows about an activation before anything has
/// happened to it.
pub open spec fn spec_activations() -> ObjectMeta {
    ObjectMeta {
        size: ACTIVATION_BYTES,
        precision: Precision::Fp16,
        tier: Place::Archive,
        provider: ProviderId(3),
        handle: 0,
        resident_at: 0,
        next_use: NextUse::Never,
        reuse_count: 0,
        placed_tick: 0,
        used_tick: 0,
        reload_cost: CostNs(u64::MAX),
        recompute_cost: CostNs(70_000),
        share_count: 0,
        mutability: Mutability::Mutable,
        owner: SessionId(0),
    }
}

/// Activations: transient, and cheaper to rebuild than to store.
pub fn activations() -> (meta: ObjectMeta)
    ensures
        meta == spec_activations(),
{
    ObjectMeta {
        size: ACTIVATION_BYTES,
        precision: Precision::Fp16,
        tier: Place::Archive,
        provider: ProviderId(3),
        handle: 0,
        resident_at: 0,
        next_use: NextUse::Never,
        reuse_count: 0,
        placed_tick: 0,
        used_tick: 0,
        reload_cost: CostNs::impossible(),
        recompute_cost: CostNs(70_000),
        share_count: 0,
        mutability: Mutability::Mutable,
        owner: SessionId(0),
    }
}

/// What a tier charges: time to the first byte, then a transfer rate.
#[derive(Clone, Copy, PartialEq, Eq, Debug, Structural)]
pub struct Cost {
    /// Time to the first byte.
    pub latency: CostNs,
    /// Bytes moved per millisecond after that.
    pub bytes_per_ms: u64,
}

/// An object as a provider is asked for it: which one, and how big.
#[derive(Clone, Copy, PartialEq, Eq, Debug, Structural)]
pub struct Located {
    /// Which object.
    pub id: ObjectId,
    /// Its size in bytes.
    pub size: u32,
}

/// The provider slot a disk occupies.
pub open spec fn spec_disk() -> ProviderId {
    ProviderId(4)
}

/// A block device holding the model.
pub struct Disk {
    /// The device its bytes come off.
    pub block: Block,
}

impl Disk {
    /// Which sector an object starts at.
    ///
    /// Laid out by id rather than by a table on disk: layer and tensor
    /// give a position directly, two sectors to a tile.
    pub fn sector_of(id: ObjectId) -> (sector: u64)
        ensures
            sector == (spec_fields(id.0).layer as int * TILES + spec_fields(id.0).tensor as int) * 2,
    {
        let fields = id.fields();
        let index = fields.layer as u64 * TILES as u64 + fields.tensor as u64;
        // A tile is two sectors: `TILE_BYTES` over `SECTOR`.
        index * 2
    }

    /// Where a read of `object` from byte `offset` starts on the disk, and
    /// how many bytes of `room` it fills: no more than the object has.
    ///
    /// The device read itself is the driver's; this is the arithmetic a
    /// provider does before asking for it.
    pub fn extent(object: Located, offset: u32, room: usize) -> (r: (u64, usize))
        ensures
            r.0 == (spec_fields(object.id.0).layer as int * TILES + spec_fields(object.id.0).tensor as int) * 2 * 512
                + offset,
            r.1 == (if room < object.size as int {
                room as int
            } else {
                object.size as int
            }),
    {
        let at = Self::sector_of(object.id) * 512 + offset as u64;
        let want = if room < object.size as usize {
            room
        } else {
            object.size as usize
        };
        (at, want)
    }

    /// The provider slot.
    pub fn id(&self) -> (p: ProviderId)
        ensures
            p == spec_disk(),
    {
        ProviderId(4)
    }

    /// NVMe-ish numbers: three milliseconds to the first byte, then about
    /// a gigabyte a second.
    pub fn cost(&self, _object: Located) -> (c: Cost)
        ensures
            c == (Cost { latency: CostNs(3_000_000), bytes_per_ms: 1_000_000 }),
    {
        Cost { latency: CostNs(3_000_000), bytes_per_ms: 1_000_000 }
    }
}

/// A place objects come from, described entirely by what it charges.
#[derive(Clone, Copy, PartialEq, Eq, Debug, Structural)]
pub struct Tier {
    id: ProviderId,
    cost: Cost,
}

/// The byte a stub tier fills an object with: its layer and tensor,
/// exclusive-ored, so a reader can tell whose bytes it got.
pub open spec fn pattern(id: ObjectId) -> u8 {
    ((spec_fields(id.0).layer as u8) ^ (spec_fields(id.0).tensor as u8)) as u8
}

impl Tier {
    /// Cold storage: three milliseconds to the first byte, then about a
    /// gigabyte a second.
    pub fn backing() -> (t: Tier)
        ensures
            t.spec_id() == ProviderId(2),
            t.spec_cost() == (Cost { latency: CostNs(3_000_000), bytes_per_ms: 1_000_000 }),
    {
        Tier { id: ProviderId(2), cost: Cost { latency: CostNs(3_000_000), bytes_per_ms: 1_000_000 } }
    }

    /// Recomputation: no bytes anywhere, no seek, but real work.
    pub fn recompute() -> (t: Tier)
        ensures
            t.spec_id() == ProviderId(3),
            t.spec_cost() == (Cost { latency: CostNs(20_000), bytes_per_ms: 40_000 }),
    {
        Tier { id: ProviderId(3), cost: Cost { latency: CostNs(20_000), bytes_per_ms: 40_000 } }
    }

    /// The provider slot.
    pub closed spec fn spec_id(&self) -> ProviderId {
        self.id
    }

    /// What it charges.
    pub closed spec fn spec_cost(&self) -> Cost {
        self.cost
    }

    /// The provider slot.
    pub fn id(&self) -> (p: ProviderId)
        ensures
            p == self.spec_id(),
    {
        self.id
    }

    /// What it charges, whatever the object.
    pub fn cost(&self, _object: Located) -> (c: Cost)
        ensures
            c == self.spec_cost(),
    {
        self.cost
    }

    /// Fills `into` with the object's pattern, and says how many bytes
    /// that was.
    pub fn read(&self, object: Located, _offset: u32, into: &mut [u8]) -> (r: Result<u32, Error>)
        ensures
            final(into)@.len() == old(into)@.len(),
            forall|k: int| 0 <= k < final(into)@.len() ==> final(into)@[k] == pattern(object.id),
            r == Ok::<u32, Error>(old(into)@.len() as u32),
    {
        let fields = object.id.fields();
        let byte = (fields.layer as u8) ^ (fields.tensor as u8);
        let n = into.len();
        let mut k: usize = 0;
        while k < n
            invariant
                k <= n,
                into@.len() == n,
                n == old(into)@.len(),
                byte == pattern(object.id),
                forall|j: int| 0 <= j < k ==> into@[j] == byte,
            decreases n - k,
        {
            into[k] = byte;
            k += 1;
        }
        Ok(#[verifier::truncate] (n as u32))
    }
}

} // verus!
