//! Object identifiers: which model object an id names, packed into 64 bits.
//!
//! ```text
//!  63    56 55        40 39        24 23         8 7      0
//! +--------+------------+------------+------------+--------+
//! | class  |   model    |   layer    |   tensor   |  tile  |
//! +--------+------------+------------+------------+--------+
//! ```
//!
//! Class zero names nothing, so an all-zero id decodes to no class and a
//! zero-filled buffer is never mistaken for object 0 of model 0.

use vstd::prelude::*;

verus! {

/// What kind of ML object an id names.
#[derive(Clone, Copy, PartialEq, Eq, Debug, Structural)]
pub enum ObjectClass {
    /// A slab of a weight matrix.
    WeightTile,
    /// Quantisation scales for a tensor.
    Scale,
    /// One mixture-of-experts expert.
    Expert,
    /// One session's keys and values for a layer and position.
    KvBlock,
    /// A layer's activations.
    Activation,
    /// A block of an embedding table.
    EmbedBlock,
    /// A block of retrieved context.
    RagBlock,
    /// A fine-tuning adapter.
    Adapter,
}

impl ObjectClass {
    /// The class's code in the top byte of an id. Never zero.
    pub open spec fn spec_code(self) -> u8 {
        match self {
            ObjectClass::WeightTile => 1,
            ObjectClass::Scale => 2,
            ObjectClass::Expert => 3,
            ObjectClass::KvBlock => 4,
            ObjectClass::Activation => 5,
            ObjectClass::EmbedBlock => 6,
            ObjectClass::RagBlock => 7,
            ObjectClass::Adapter => 8,
        }
    }

    /// The class a code names, if any.
    pub open spec fn spec_from_code(code: u8) -> Option<ObjectClass> {
        if code == 1 {
            Some(ObjectClass::WeightTile)
        } else if code == 2 {
            Some(ObjectClass::Scale)
        } else if code == 3 {
            Some(ObjectClass::Expert)
        } else if code == 4 {
            Some(ObjectClass::KvBlock)
        } else if code == 5 {
            Some(ObjectClass::Activation)
        } else if code == 6 {
            Some(ObjectClass::EmbedBlock)
        } else if code == 7 {
            Some(ObjectClass::RagBlock)
        } else if code == 8 {
            Some(ObjectClass::Adapter)
        } else {
            None
        }
    }

    /// The class's code.
    pub fn code(self) -> (code: u8)
        ensures
            code == self.spec_code(),
            1 <= code <= 8,
    {
        match self {
            ObjectClass::WeightTile => 1,
            ObjectClass::Scale => 2,
            ObjectClass::Expert => 3,
            ObjectClass::KvBlock => 4,
            ObjectClass::Activation => 5,
            ObjectClass::EmbedBlock => 6,
            ObjectClass::RagBlock => 7,
            ObjectClass::Adapter => 8,
        }
    }

    /// The class a code names, or `None` for zero and anything past the
    /// last class.
    pub fn from_code(code: u8) -> (class: Option<ObjectClass>)
        ensures
            class == Self::spec_from_code(code),
    {
        match code {
            1 => Some(ObjectClass::WeightTile),
            2 => Some(ObjectClass::Scale),
            3 => Some(ObjectClass::Expert),
            4 => Some(ObjectClass::KvBlock),
            5 => Some(ObjectClass::Activation),
            6 => Some(ObjectClass::EmbedBlock),
            7 => Some(ObjectClass::RagBlock),
            8 => Some(ObjectClass::Adapter),
            _ => None,
        }
    }
}

/// Which object of its class an id names.
#[derive(Clone, Copy, PartialEq, Eq, Debug, Structural)]
pub struct Fields {
    /// The model, or for a session-scoped class the session.
    pub model: u16,
    /// The layer.
    pub layer: u16,
    /// The tensor within the layer, or a KV block's position.
    pub tensor: u16,
    /// The tile within the tensor.
    pub tile: u8,
}

/// A 64-bit name for one model object.
#[derive(Clone, Copy, PartialEq, Eq, Debug, Structural)]
pub struct ObjectId(pub u64);

/// The bits of an id with class `code` and fields `f`.
pub open spec fn spec_pack(code: u8, f: Fields) -> u64 {
    (code as u64) << 56u64 | (f.model as u64) << 40u64 | (f.layer as u64) << 24u64
        | (f.tensor as u64) << 8u64 | (f.tile as u64)
}

/// The fields an id's bits carry.
pub open spec fn spec_fields(bits: u64) -> Fields {
    Fields {
        model: ((bits >> 40u64) & 0xffffu64) as u16,
        layer: ((bits >> 24u64) & 0xffffu64) as u16,
        tensor: ((bits >> 8u64) & 0xffffu64) as u16,
        tile: (bits & 0xffu64) as u8,
    }
}

/// The class code an id's bits carry.
pub open spec fn spec_code_of(bits: u64) -> u8 {
    (bits >> 56u64) as u8
}

impl ObjectId {
    /// The class this id names, if its code is one.
    pub open spec fn spec_class(self) -> Option<ObjectClass> {
        ObjectClass::spec_from_code(spec_code_of(self.0))
    }

    /// The id of object `fields` of `class`.
    pub fn new(class: ObjectClass, fields: Fields) -> (id: ObjectId)
        ensures
            id.0 == spec_pack(class.spec_code(), fields),
    {
        let code = class.code();
        ObjectId(
            (code as u64) << 56u64 | (fields.model as u64) << 40u64 | (fields.layer as u64) << 24u64
                | (fields.tensor as u64) << 8u64 | (fields.tile as u64),
        )
    }

    /// Which class this id names, or `None` if its class code names none.
    pub fn class(self) -> (class: Option<ObjectClass>)
        ensures
            class == self.spec_class(),
    {
        ObjectClass::from_code((self.0 >> 56u64) as u8)
    }

    /// Which object of its class this id names.
    pub fn fields(self) -> (fields: Fields)
        ensures
            fields == spec_fields(self.0),
    {
        Fields {
            model: ((self.0 >> 40u64) & 0xffffu64) as u16,
            layer: ((self.0 >> 24u64) & 0xffffu64) as u16,
            tensor: ((self.0 >> 8u64) & 0xffffu64) as u16,
            tile: (self.0 & 0xffu64) as u8,
        }
    }
}

/// Packing then unpacking gives back what was packed: the class code and
/// every field survive, whatever their values.
pub proof fn lemma_unpack_pack(code: u8, f: Fields)
    ensures
        spec_code_of(spec_pack(code, f)) == code,
        spec_fields(spec_pack(code, f)) == f,
{
    let (m, l, t, i) = (f.model, f.layer, f.tensor, f.tile);
    assert(((((code as u64) << 56u64 | (m as u64) << 40u64 | (l as u64) << 24u64 | (t as u64) << 8u64
        | (i as u64)) >> 56u64) as u8) == code) by (bit_vector);
    assert(((((((code as u64) << 56u64 | (m as u64) << 40u64 | (l as u64) << 24u64 | (t as u64) << 8u64
        | (i as u64)) >> 40u64) & 0xffffu64) as u16) == m)) by (bit_vector);
    assert(((((((code as u64) << 56u64 | (m as u64) << 40u64 | (l as u64) << 24u64 | (t as u64) << 8u64
        | (i as u64)) >> 24u64) & 0xffffu64) as u16) == l)) by (bit_vector);
    assert(((((((code as u64) << 56u64 | (m as u64) << 40u64 | (l as u64) << 24u64 | (t as u64) << 8u64
        | (i as u64)) >> 8u64) & 0xffffu64) as u16) == t)) by (bit_vector);
    assert((((((code as u64) << 56u64 | (m as u64) << 40u64 | (l as u64) << 24u64 | (t as u64) << 8u64
        | (i as u64)) & 0xffu64) as u8) == i)) by (bit_vector);
}

/// Unpacking then packing gives back the id: every bit of an id belongs
/// to exactly one of the class code and the four fields.
pub proof fn lemma_pack_unpack(bits: u64)
    ensures
        spec_pack(spec_code_of(bits), spec_fields(bits)) == bits,
{
    assert(((((bits >> 56u64) as u8) as u64) << 56u64 | ((((bits >> 40u64) & 0xffffu64) as u16) as u64)
        << 40u64 | ((((bits >> 24u64) & 0xffffu64) as u16) as u64) << 24u64 | ((((bits >> 8u64)
        & 0xffffu64) as u16) as u64) << 8u64 | (((bits & 0xffu64) as u8) as u64)) == bits)
        by (bit_vector);
}

/// An id built from a class and fields names that class and those fields.
pub proof fn law_new_round_trips(class: ObjectClass, fields: Fields)
    ensures
        ObjectId(spec_pack(class.spec_code(), fields)).spec_class() == Some(class),
        spec_fields(spec_pack(class.spec_code(), fields)) == fields,
{
    lemma_unpack_pack(class.spec_code(), fields);
}

/// Why an object operation failed.
#[derive(Clone, Copy, PartialEq, Eq, Debug, Structural)]
pub enum Error {
    /// There is no room: a budget, a table or a buffer is full.
    NoBudget,
    /// The object or the request describing it is malformed.
    BadObject,
    /// No provider could supply the object.
    NoProvider,
}

} // verus!
