//! What MLOS calls its spaces, its regions and its ids, and the words its
//! regions are described by.
//!
//! Two emitters produce the same layout document, and a consumer joins
//! the two files on `region_id` and colours both from one palette, so the
//! id scheme and the vocabulary live here, once.

use vstd::prelude::*;

use crate::abi::{spec_code_of, spec_fields, spec_pack, Fields, ObjectClass, ObjectId};
use crate::objtab::{NextUse, ObjectMeta, Tier};
use crate::text::{decimal, push_char, push_decimal};

verus! {

/// The constant every consumer identifies the format by.
pub const SCHEMA: &'static str = "sw-ml-study.system-layout";

/// The contract version.
pub const VERSION: u32 = 1;

/// The name this producer goes by in `provenance`.
pub const PRODUCER: &'static str = "mlos";

/// Which space a region lives in.
#[derive(Clone, Copy, PartialEq, Eq, Debug, Structural)]
pub enum Where {
    /// The block device holding the model's weights.
    Disk,
    /// The object arena: where a faulted-in object is placed.
    Dram,
    /// Guest RAM as the machine presents it.
    Sysram,
}

impl Where {
    /// The space's number, the top nibble of its region ids.
    pub open spec fn spec_code(self) -> u32 {
        match self {
            Where::Disk => 1,
            Where::Dram => 2,
            Where::Sysram => 3,
        }
    }

    /// The space's number.
    pub fn code(self) -> (c: u32)
        ensures
            c == self.spec_code(),
    {
        match self {
            Where::Disk => 1,
            Where::Dram => 2,
            Where::Sysram => 3,
        }
    }

    /// The `spaces` key, and what `region_space` joins on.
    pub open spec fn spec_key(self) -> &'static str {
        match self {
            Where::Disk => "disk",
            Where::Dram => "dram",
            Where::Sysram => "sysram",
        }
    }

    /// The `spaces` key, and what `region_space` joins on.
    pub fn key(self) -> (k: &'static str)
        ensures
            k == self.spec_key(),
    {
        match self {
            Where::Disk => "disk",
            Where::Dram => "dram",
            Where::Sysram => "sysram",
        }
    }

    /// Ids for this space's structural regions, in issue order.
    ///
    /// Class zero is not a valid `ObjectClass`, so the class-zero range of
    /// each space is free for regions that are not objects -- padding,
    /// free space, kernel sections -- and these are its ids.
    pub fn ids(self) -> (r: core::ops::Range<u32>)
        ensures
            r.start == self.spec_code() << 28u32,
            r.end == (self.spec_code() << 28u32) + 0x0100_0000,
    {
        let code = self.code();
        let start = code << 28u32;
        assert(code << 28u32 <= 0x3000_0000u32) by (bit_vector)
            requires
                code <= 3,
        ;
        start..start + 0x0100_0000
    }
}

/// The stable id of an object's region in `place`, when it has one.
pub open spec fn spec_object(place: Where, id: ObjectId) -> Option<u32> {
    let f = spec_fields(id.0);
    match id.spec_class() {
        None => None,
        Some(class) => if f.model != 1 || f.layer > 0xff || f.tensor > 0xff {
            None
        } else {
            Some(
                place.spec_code() << 28u32 | (class.spec_code() as u32) << 24u32 | (f.layer as u32) << 16u32
                    | (f.tensor as u32) << 8u32 | (f.tile as u32),
            )
        },
    }
}

/// The stable id of an object's region in `place`.
///
/// `None` when the object cannot be named in 31 bits -- a second model,
/// or a layer or tensor past 255 -- each of which wants this scheme
/// widened deliberately rather than wrapped around silently.
pub fn object(place: Where, id: ObjectId) -> (r: Option<u32>)
    ensures
        r == spec_object(place, id),
{
    let class = match id.class() {
        None => return None,
        Some(class) => class,
    };
    let fields = id.fields();
    if fields.model != 1 || fields.layer > 0xff || fields.tensor > 0xff {
        return None;
    }
    Some(
        place.code() << 28u32 | (class.code() as u32) << 24u32 | (fields.layer as u32) << 16u32 | (fields.tensor
            as u32) << 8u32 | (fields.tile as u32),
    )
}

/// Region ids are stable and never shared: two objects, or one object in
/// two spaces, never get the same region id.
pub proof fn law_region_ids_are_distinct(p1: Where, id1: ObjectId, p2: Where, id2: ObjectId)
    requires
        spec_object(p1, id1) is Some,
        spec_object(p1, id1) == spec_object(p2, id2),
    ensures
        p1 == p2,
        id1 == id2,
{
    let c1 = id1.spec_class().unwrap();
    let c2 = id2.spec_class().unwrap();
    let (f1, f2) = (spec_fields(id1.0), spec_fields(id2.0));
    let (w1, w2) = (p1.spec_code(), p2.spec_code());
    let (k1, k2) = (c1.spec_code() as u32, c2.spec_code() as u32);
    let (l1, l2) = (f1.layer as u32, f2.layer as u32);
    let (t1, t2) = (f1.tensor as u32, f2.tensor as u32);
    let (i1, i2) = (f1.tile as u32, f2.tile as u32);
    assert(w1 == w2 && k1 == k2 && l1 == l2 && t1 == t2 && i1 == i2) by (bit_vector)
        requires
            w1 <= 3 && w2 <= 3 && k1 <= 8 && k2 <= 8 && l1 <= 0xff && l2 <= 0xff && t1 <= 0xff && t2 <= 0xff
                && i1 <= 0xff && i2 <= 0xff,
            w1 << 28u32 | k1 << 24u32 | l1 << 16u32 | t1 << 8u32 | i1 == w2 << 28u32 | k2 << 24u32 | l2 << 16u32
                | t2 << 8u32 | i2,
    ;
    assert(c1 == c2);
    assert(f1 == f2);
    crate::abi::lemma_pack_unpack(id1.0);
    crate::abi::lemma_pack_unpack(id2.0);
    assert(spec_code_of(id1.0) == c1.spec_code());
    assert(spec_code_of(id2.0) == c2.spec_code());
}

/// Every region id fits in 31 bits, so a JSON consumer that is only safe
/// to 2^31 reads it exactly; and its top nibble names its space.
pub proof fn law_region_ids_fit_and_name_their_space(place: Where, id: ObjectId)
    requires
        spec_object(place, id) is Some,
    ensures
        spec_object(place, id).unwrap() < 0x8000_0000,
        spec_object(place, id).unwrap() >> 28u32 == place.spec_code(),
{
    let c = id.spec_class().unwrap();
    let f = spec_fields(id.0);
    let (w, k, l, t, i) = (place.spec_code(), c.spec_code() as u32, f.layer as u32, f.tensor as u32, f.tile as u32);
    assert((w << 28u32 | k << 24u32 | l << 16u32 | t << 8u32 | i) < 0x8000_0000u32 && (w << 28u32 | k << 24u32
        | l << 16u32 | t << 8u32 | i) >> 28u32 == w) by (bit_vector)
        requires
            1 <= w <= 3 && k <= 8 && l <= 0xff && t <= 0xff && i <= 0xff,
    ;
}

/// What a viewer colours an object by.
pub open spec fn spec_kind(class: ObjectClass) -> &'static str {
    match class {
        ObjectClass::WeightTile => "weight-tile",
        ObjectClass::Scale => "scale",
        ObjectClass::Expert => "expert",
        ObjectClass::KvBlock => "kv-block",
        ObjectClass::Activation => "activation",
        ObjectClass::EmbedBlock => "embed-block",
        ObjectClass::RagBlock => "rag-block",
        ObjectClass::Adapter => "adapter",
    }
}

/// What a viewer colours an object by: the Purpose mode.
pub fn kind(class: ObjectClass) -> (k: &'static str)
    ensures
        k == spec_kind(class),
{
    match class {
        ObjectClass::WeightTile => "weight-tile",
        ObjectClass::Scale => "scale",
        ObjectClass::Expert => "expert",
        ObjectClass::KvBlock => "kv-block",
        ObjectClass::Activation => "activation",
        ObjectClass::EmbedBlock => "embed-block",
        ObjectClass::RagBlock => "rag-block",
        ObjectClass::Adapter => "adapter",
    }
}

/// Where an object currently lives.
pub open spec fn spec_tier(tier: Tier) -> &'static str {
    match tier {
        Tier::Hot => "hot",
        Tier::Warm => "warm",
        Tier::Cold => "cold",
        Tier::Stream => "stream",
        Tier::Archive => "archive",
    }
}

/// Where an object currently lives: the Location mode.
pub fn tier(location: Tier) -> (word: &'static str)
    ensures
        word == spec_tier(location),
{
    match location {
        Tier::Hot => "hot",
        Tier::Warm => "warm",
        Tier::Cold => "cold",
        Tier::Stream => "stream",
        Tier::Archive => "archive",
    }
}

/// Whether an object is in memory.
pub open spec fn spec_state(meta: ObjectMeta) -> &'static str {
    if meta.resident_at != 0 {
        "resident"
    } else if meta.reuse_count == 0 {
        "never"
    } else {
        "evicted"
    }
}

/// Whether an object is in memory: the State mode.
///
/// Three-way, and the middle one is the interesting one: an object that
/// has been wanted before and is not here now was thrown away, which is a
/// different fact from never having been asked for.
pub fn state(meta: &ObjectMeta) -> (s: &'static str)
    ensures
        s == spec_state(*meta),
{
    match (meta.resident_at, meta.reuse_count) {
        (0, 0) => "never",
        (0, _) => "evicted",
        _ => "resident",
    }
}

/// When an object will next be wanted, written out.
///
/// Three shapes rather than a number: a declared stream yields an exact
/// position and a router yields a likelihood, and those differ in kind.
pub struct NextUseText(pub NextUse);

/// The text of a next use.
pub open spec fn spec_next_use_text(n: NextUse) -> Seq<char> {
    match n {
        NextUse::Never => seq!['n', 'e', 'v', 'e', 'r'],
        NextUse::At(position) => seq!['a', 't', ' '] + decimal(position as nat),
        NextUse::Probability(chance) => seq!['p', 'r', 'o', 'b', 'a', 'b', 'i', 'l', 'i', 't', 'y', ' ']
            + decimal(chance as nat),
    }
}

impl NextUseText {
    /// `never`, `at <position>` or `probability <chance>`.
    pub fn text(&self) -> (s: String)
        ensures
            s@ == spec_next_use_text(self.0),
    {
        let mut out = String::new();
        match self.0 {
            NextUse::Never => {
                out.append("never");
                proof {
                    reveal_strlit("never");
                }
            },
            NextUse::At(position) => {
                out.append("at ");
                proof {
                    reveal_strlit("at ");
                }
                push_decimal(&mut out, position as u64);
            },
            NextUse::Probability(chance) => {
                out.append("probability ");
                proof {
                    reveal_strlit("probability ");
                }
                push_decimal(&mut out, chance as u64);
            },
        }
        assert(out@ =~= spec_next_use_text(self.0));
        out
    }
}

} // verus!
