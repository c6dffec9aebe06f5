//! What an object table records about each object.

use vstd::prelude::*;

verus! {

/// Who holds an object or asked for it.
#[derive(Clone, Copy, PartialEq, Eq, Debug, Structural)]
pub struct SessionId(pub u16);

/// Which provider an object is fetched from.
#[derive(Clone, Copy, PartialEq, Eq, Debug, Structural)]
pub struct ProviderId(pub u8);

/// A cost in nanoseconds.
#[derive(Clone, Copy, PartialEq, Eq, Debug, Structural)]
pub struct CostNs(pub u64);

impl CostNs {
    /// What cannot be done at any price: the largest cost there is.
    pub fn impossible() -> (cost: CostNs)
        ensures
            cost.0 == u64::MAX,
    {
        CostNs(u64::MAX)
    }
}

/// When an object is next wanted.
#[derive(Clone, Copy, PartialEq, Eq, Debug, Structural)]
pub enum NextUse {
    /// Nothing has declared a future for it.
    Never,
    /// At this position of the workload.
    At(u32),
    /// Only how likely, per mille.
    Probability(u16),
}

/// The numeric format an object's contents are held in.
#[derive(Clone, Copy, PartialEq, Eq, Debug, Structural)]
pub enum Precision {
    /// Half-precision floats.
    Fp16,
    /// Four-bit quantised.
    Q4,
}

/// Where an object lives.
#[derive(Clone, Copy, PartialEq, Eq, Debug, Structural)]
pub enum Tier {
    /// In the arena, ready to use.
    Hot,
    /// Nearby, cheap to bring back.
    Warm,
    /// On storage.
    Cold,
    /// Arriving from a declared stream.
    Stream,
    /// Gone, and rebuilt rather than fetched.
    Archive,
}

/// Whether an object can change once made.
#[derive(Clone, Copy, PartialEq, Eq, Debug, Structural)]
pub enum Mutability {
    /// Never written after creation.
    Immutable,
    /// Written by its owner.
    Mutable,
}

/// Everything the table knows about one object.
#[derive(Clone, Copy, PartialEq, Eq, Debug, Structural)]
pub struct ObjectMeta {
    /// Bytes.
    pub size: u32,
    /// Numeric format.
    pub precision: Precision,
    /// Where it is now.
    pub tier: Tier,
    /// Where it comes from.
    pub provider: ProviderId,
    /// The provider's handle for it.
    pub handle: u32,
    /// Arena address when resident, zero when not.
    pub resident_at: u64,
    /// When it is next wanted.
    pub next_use: NextUse,
    /// How many times it has been wanted.
    pub reuse_count: u32,
    /// When it was last placed.
    pub placed_tick: u32,
    /// When it was last wanted.
    pub used_tick: u32,
    /// What fetching it again costs.
    pub reload_cost: CostNs,
    /// What rebuilding it costs.
    pub recompute_cost: CostNs,
    /// How many sessions share it.
    pub share_count: u32,
    /// Whether it can change.
    pub mutability: Mutability,
    /// Whose it is.
    pub owner: SessionId,
}

} // verus!
