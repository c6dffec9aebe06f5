//! The running object store, as a `sw-ml-study.system-layout` document.
//!
//! A document is a JSON object of columns: one array per column, one
//! entry per region, every column written in one pass. A column opens its
//! bracket, writes a separator before every item but the first, and
//! closes it -- separator-before rather than comma-after is what keeps the
//! JSON valid without knowing in advance how many rows there are.
//!
//! Nothing written into a string column needs escaping: the cells are
//! built out of decimal numbers and fixed words.

use vstd::prelude::*;

use crate::abi::{ObjectClass, ObjectId};
use crate::objtab::{NextUse, ObjectMeta};
use crate::spaces::{
    kind, object, spec_kind, spec_next_use_text, spec_object, spec_state, spec_tier, state, tier, NextUseText,
    Where, PRODUCER, SCHEMA, VERSION,
};
use crate::abi::{spec_fields, spec_pack, Fields};
use crate::synth::{activation, spec_tile, tile as tile_id, Disk, LAYERS, MODEL, TILES, TILE_BYTES};
use crate::text::{decimal, hex, push_decimal, push_hex};
use crate::virtio::SECTOR;

verus! {

/// The arena's allocation granularity: every placed object's extent is
/// rounded up to it.
pub const GRAIN: u64 = 16;

/// `cells` with `, ` between each and the next.
pub open spec fn joined(cells: Seq<Seq<char>>) -> Seq<char>
    decreases cells.len(),
{
    if cells.len() == 0 {
        seq![]
    } else if cells.len() == 1 {
        cells[0]
    } else {
        joined(cells.drop_last()) + ", "@ + cells.last()
    }
}

/// One column: its name, then its cells as a JSON array, then a comma
/// and a line break.
pub open spec fn column_text(name: Seq<char>, cells: Seq<Seq<char>>) -> Seq<char> {
    "  \""@ + name + "\": ["@ + joined(cells) + "],\r\n"@
}

/// `c` in double quotes.
pub open spec fn quoted(c: Seq<char>) -> Seq<char> {
    "\""@ + c + "\""@
}

/// A column of numbers, in decimal.
pub open spec fn nums_text(name: Seq<char>, values: Seq<u64>) -> Seq<char> {
    column_text(name, Seq::new(values.len(), |k: int| decimal(values[k] as nat)))
}

/// A column of strings, each quoted.
pub open spec fn strs_text(name: Seq<char>, words: Seq<Seq<char>>) -> Seq<char> {
    column_text(name, Seq::new(words.len(), |k: int| quoted(words[k])))
}

proof fn lemma_joined_step(cells: Seq<Seq<char>>, i: int)
    requires
        0 <= i < cells.len(),
    ensures
        joined(cells.take(i + 1)) == joined(cells.take(i)) + (if i > 0 {
            ", "@
        } else {
            seq![]
        }) + cells[i],
{
    let t = cells.take(i + 1);
    assert(t.drop_last() =~= cells.take(i));
    if i == 0 {
        assert(cells.take(0) =~= Seq::<Seq<char>>::empty());
        assert(seq![] + seq![] + cells[0] =~= cells[0]);
    }
}

/// Writes the head of a column: its name and the opening bracket.
fn open_column(out: &mut String, name: &str)
    ensures
        final(out)@ == old(out)@ + "  \""@ + name@ + "\": ["@,
{
    out.append("  \"");
    out.append(name);
    out.append("\": [");
}

/// Writes one column whose cells are written as they are.
pub fn column(out: &mut String, name: &str, cells: &[String])
    ensures
        final(out)@ == old(out)@ + column_text(name@, Seq::new(cells@.len(), |k: int| cells@[k]@)),
{
    let ghost start = out@;
    let ghost all = Seq::new(cells@.len(), |k: int| cells@[k]@);
    open_column(out, name);
    let ghost head = out@;
    let mut i: usize = 0;
    assert(all.take(0) =~= Seq::<Seq<char>>::empty());
    assert(head + joined(all.take(0)) =~= head);
    while i < cells.len()
        invariant
            i <= cells@.len(),
            all == Seq::new(cells@.len(), |k: int| cells@[k]@),
            out@ == head + joined(all.take(i as int)),
        decreases cells@.len() - i,
    {
        proof {
            lemma_joined_step(all, i as int);
        }
        if i > 0 {
            out.append(", ");
        }
        out.append(cells[i].as_str());
        assert(out@ =~= head + joined(all.take(i + 1)));
        i += 1;
    }
    out.append("],\r\n");
    assert(all.take(i as int) =~= all);
    assert(out@ =~= start + column_text(name@, all));
}

/// A column of numbers.
pub fn nums(out: &mut String, name: &str, values: &[u64])
    ensures
        final(out)@ == old(out)@ + nums_text(name@, values@),
{
    let ghost start = out@;
    let ghost all = Seq::new(values@.len(), |k: int| decimal(values@[k] as nat));
    open_column(out, name);
    let ghost head = out@;
    let mut i: usize = 0;
    assert(all.take(0) =~= Seq::<Seq<char>>::empty());
    assert(head + joined(all.take(0)) =~= head);
    while i < values.len()
        invariant
            i <= values@.len(),
            all == Seq::new(values@.len(), |k: int| decimal(values@[k] as nat)),
            out@ == head + joined(all.take(i as int)),
        decreases values@.len() - i,
    {
        proof {
            lemma_joined_step(all, i as int);
        }
        if i > 0 {
            out.append(", ");
        }
        push_decimal(out, values[i]);
        assert(out@ =~= head + joined(all.take(i + 1)));
        i += 1;
    }
    out.append("],\r\n");
    assert(all.take(i as int) =~= all);
    assert(out@ =~= start + nums_text(name@, values@));
}

/// A column of strings, quoted, each given as it is to be written.
pub fn text(out: &mut String, name: &str, cells: &[String])
    ensures
        final(out)@ == old(out)@ + strs_text(name@, Seq::new(cells@.len(), |k: int| cells@[k]@)),
{
    let ghost start = out@;
    let ghost words = Seq::new(cells@.len(), |k: int| cells@[k]@);
    let ghost all = Seq::new(words.len(), |k: int| quoted(words[k]));
    open_column(out, name);
    let ghost head = out@;
    let mut i: usize = 0;
    assert(all.take(0) =~= Seq::<Seq<char>>::empty());
    assert(head + joined(all.take(0)) =~= head);
    while i < cells.len()
        invariant
            i <= cells@.len(),
            words == Seq::new(cells@.len(), |k: int| cells@[k]@),
            all == Seq::new(words.len(), |k: int| quoted(words[k])),
            out@ == head + joined(all.take(i as int)),
        decreases cells@.len() - i,
    {
        proof {
            lemma_joined_step(all, i as int);
        }
        if i > 0 {
            out.append(", ");
        }
        out.append("\"");
        out.append(cells[i].as_str());
        out.append("\"");
        assert(out@ =~= head + joined(all.take(i + 1)));
        i += 1;
    }
    out.append("],\r\n");
    assert(all.take(i as int) =~= all);
    assert(out@ =~= start + strs_text(name@, words));
}

/// A column of fixed words, quoted.
pub fn strs(out: &mut String, name: &str, words: &[&str])
    ensures
        final(out)@ == old(out)@ + strs_text(name@, Seq::new(words@.len(), |k: int| words@[k]@)),
{
    let ghost start = out@;
    let ghost ws = Seq::new(words@.len(), |k: int| words@[k]@);
    let ghost all = Seq::new(ws.len(), |k: int| quoted(ws[k]));
    open_column(out, name);
    let ghost head = out@;
    let mut i: usize = 0;
    assert(all.take(0) =~= Seq::<Seq<char>>::empty());
    assert(head + joined(all.take(0)) =~= head);
    while i < words.len()
        invariant
            i <= words@.len(),
            ws == Seq::new(words@.len(), |k: int| words@[k]@),
            all == Seq::new(ws.len(), |k: int| quoted(ws[k])),
            out@ == head + joined(all.take(i as int)),
        decreases words@.len() - i,
    {
        proof {
            lemma_joined_step(all, i as int);
        }
        if i > 0 {
            out.append(", ");
        }
        out.append("\"");
        out.append(words[i]);
        out.append("\"");
        assert(out@ =~= head + joined(all.take(i + 1)));
        i += 1;
    }
    out.append("],\r\n");
    assert(all.take(i as int) =~= all);
    assert(out@ =~= start + strs_text(name@, ws));
}

/// The bytes the disk image stores: every weight tile of the model.
pub open spec fn stored_bytes() -> u64 {
    (LAYERS * TILES * TILE_BYTES) as u64
}

/// The `spaces` columns for a disk holding `stored` bytes and an arena of
/// `capacity`.
pub open spec fn spaces_text(stored: u64, capacity: u64) -> Seq<char> {
    strs_text("spaces"@, seq![Where::Disk.spec_key()@, Where::Dram.spec_key()@])
        + strs_text("space_name"@, seq!["virtio-blk model image"@, "object arena"@])
        + nums_text("space_block"@, seq![SECTOR as u64, GRAIN])
        + nums_text("space_capacity"@, seq![stored, capacity])
}

/// The two spaces this document describes: the disk image and the arena.
///
/// Guest RAM is absent on purpose: a running kernel has no symbol table
/// and cannot say where its own sections ended, and a map of it here would
/// have to be invented.
pub fn spaces(out: &mut String, stored: u64, capacity: u64)
    ensures
        final(out)@ == old(out)@ + spaces_text(stored, capacity),
{
    let ghost start = out@;
    let keys: Vec<&'static str> = vec![Where::Disk.key(), Where::Dram.key()];
    let names: Vec<&'static str> = vec!["virtio-blk model image", "object arena"];
    let blocks: Vec<u64> = vec![SECTOR as u64, GRAIN];
    let capacities: Vec<u64> = vec![stored, capacity];
    strs(out, "spaces", keys.as_slice());
    let ghost a = out@;
    strs(out, "space_name", names.as_slice());
    let ghost b = out@;
    nums(out, "space_block", blocks.as_slice());
    let ghost c = out@;
    nums(out, "space_capacity", capacities.as_slice());
    assert(Seq::new(keys@.len(), |k: int| keys@[k]@) =~= seq![Where::Disk.spec_key()@, Where::Dram.spec_key()@]);
    assert(Seq::new(names@.len(), |k: int| names@[k]@) =~= seq!["virtio-blk model image"@, "object arena"@]);
    assert(blocks@ =~= seq![SECTOR as u64, GRAIN]);
    assert(capacities@ =~= seq![stored, capacity]);
    assert(out@ =~= start + spaces_text(stored, capacity));
}

/// One region, ready to be written out.
///
/// Carries values already resolved rather than the table entry it came
/// from, so every column is one field read.
#[derive(Clone, Copy, Debug)]
pub struct Row {
    /// Which space it is in.
    pub place: Where,
    /// Its stable id.
    pub id: u32,
    /// Offset within the space.
    pub start: u64,
    /// Length in bytes.
    pub length: u64,
    /// Its class, or `free`.
    pub kind: &'static str,
    /// Whose it is.
    pub owner: &'static str,
    /// Where it lives, or empty when it is not an object.
    pub tier: &'static str,
    /// Resident, evicted, never, or `fixed` for what is not an object.
    pub state: &'static str,
    /// The raw object id. Zero means this region holds no object.
    pub object: u64,
    /// Which layer and tensor, for naming.
    pub at: (u16, u16),
    /// When it is next wanted.
    pub next_use: NextUse,
    /// How many times it has been wanted.
    pub reuse: u64,
    /// What getting it back would cost, in nanoseconds.
    pub cost: u64,
}

/// The region of object `id` in `place`, over `extent`.
pub open spec fn spec_row(place: Where, id: ObjectId, meta: ObjectMeta, extent: (u64, u64)) -> Option<Row> {
    match (spec_object(place, id), id.spec_class()) {
        (Some(region), Some(class)) => Some(
            Row {
                place,
                id: region,
                start: extent.0,
                length: extent.1,
                kind: spec_kind(class),
                owner: "model 1",
                tier: spec_tier(meta.tier),
                state: spec_state(meta),
                object: id.0,
                at: (crate::abi::spec_fields(id.0).layer, crate::abi::spec_fields(id.0).tensor),
                next_use: meta.next_use,
                reuse: meta.reuse_count as u64,
                cost: meta.reload_cost.0,
            },
        ),
        _ => None,
    }
}

/// One object's region in `place`, with every column resolved; `None`
/// when the object has no region id there.
pub fn row(place: Where, id: ObjectId, meta: &ObjectMeta, extent: (u64, u64)) -> (r: Option<Row>)
    ensures
        r == spec_row(place, id, *meta, extent),
{
    let fields = id.fields();
    let region = match object(place, id) {
        Some(region) => region,
        None => return None,
    };
    let class = match id.class() {
        Some(class) => class,
        None => return None,
    };
    Some(
        Row {
            place,
            id: region,
            start: extent.0,
            length: extent.1,
            kind: kind(class),
            owner: "model 1",
            tier: tier(meta.tier),
            state: state(meta),
            object: id.0,
            at: (fields.layer, fields.tensor),
            next_use: meta.next_use,
            reuse: meta.reuse_count as u64,
            cost: meta.reload_cost.0,
        },
    )
}

/// The arena's unused tail: the one region that describes no object.
pub open spec fn spec_tail(used: u64, capacity: u64) -> Row {
    Row {
        place: Where::Dram,
        id: Where::Dram.spec_code() << 28u32,
        start: used,
        length: if capacity > used {
            (capacity - used) as u64
        } else {
            0
        },
        kind: "free",
        owner: "",
        tier: "",
        state: "fixed",
        object: 0,
        at: (0, 0),
        next_use: NextUse::Never,
        reuse: 0,
        cost: 0,
    }
}

/// The arena's unused tail.
///
/// It makes the high-water mark a boundary in the picture rather than a
/// number somebody has to be told. Its id is the first structural id of
/// the arena, so the spare space is the same region in every document.
pub fn tail(used: u64, capacity: u64) -> (r: Row)
    ensures
        r == spec_tail(used, capacity),
{
    Row {
        place: Where::Dram,
        id: Where::Dram.ids().start,
        start: used,
        length: capacity.saturating_sub(used),
        kind: "free",
        owner: "",
        tier: "",
        state: "fixed",
        object: 0,
        at: (0, 0),
        next_use: NextUse::Never,
        reuse: 0,
        cost: 0,
    }
}

/// A numeric field of a row.
#[derive(Clone, Copy, PartialEq, Eq, Debug, Structural)]
pub enum Number {
    /// Its region id.
    Id,
    /// Its offset.
    Start,
    /// Its length.
    Length,
    /// Nothing: a column the contract asks for and MLOS has no values of.
    Zero,
    /// How often it has been wanted.
    Reuse,
    /// What getting it back would cost.
    Cost,
    /// The region of the stored bytes it was loaded from.
    Source,
}

/// The disk region a placed object's bytes came from: the same low 28
/// bits, in the disk's space.
pub open spec fn spec_source(id: u32) -> u32 {
    id & 0x0fff_ffff | 1u32 << 28u32
}

/// A numeric field of `row`.
pub open spec fn spec_number(row: Row, field: Number) -> u64 {
    match field {
        Number::Id => row.id as u64,
        Number::Start => row.start,
        Number::Length => row.length,
        Number::Zero => 0,
        Number::Reuse => row.reuse,
        Number::Cost => row.cost,
        Number::Source => spec_source(row.id) as u64,
    }
}

/// A word field of a row.
#[derive(Clone, Copy, PartialEq, Eq, Debug, Structural)]
pub enum Word {
    /// The key of its space.
    Space,
    /// Its kind.
    Kind,
    /// Its owner.
    Owner,
    /// Its tier.
    Tier,
    /// Its state.
    State,
}

/// A word field of `row`.
pub open spec fn spec_word(row: Row, field: Word) -> &'static str {
    match field {
        Word::Space => row.place.spec_key(),
        Word::Kind => row.kind,
        Word::Owner => row.owner,
        Word::Tier => row.tier,
        Word::State => row.state,
    }
}

/// A written-out field of a row.
#[derive(Clone, Copy, PartialEq, Eq, Debug, Structural)]
pub enum Cell {
    /// What a viewer labels it with.
    Name,
    /// Its raw object id, for an object.
    Object,
    /// When it is next wanted, for an object.
    NextUse,
}

/// A written-out field of `row`.
pub open spec fn spec_cell(row: Row, field: Cell) -> Seq<char> {
    match field {
        Cell::Name => if row.object == 0 {
            "free at 0x"@ + hex(row.start as nat)
        } else {
            "layer "@ + decimal(row.at.0 as nat) + " tile "@ + decimal(row.at.1 as nat)
        },
        Cell::Object => if row.object != 0 {
            decimal(row.object as nat)
        } else {
            seq![]
        },
        Cell::NextUse => if row.object != 0 {
            spec_next_use_text(row.next_use)
        } else {
            seq![]
        },
    }
}

fn number(row: &Row, field: Number) -> (n: u64)
    ensures
        n == spec_number(*row, field),
{
    match field {
        Number::Id => row.id as u64,
        Number::Start => row.start,
        Number::Length => row.length,
        Number::Zero => 0,
        Number::Reuse => row.reuse,
        Number::Cost => row.cost,
        Number::Source => (row.id & 0x0fff_ffff | 1u32 << 28u32) as u64,
    }
}

fn word(row: &Row, field: Word) -> (w: &'static str)
    ensures
        w == spec_word(*row, field),
{
    match field {
        Word::Space => row.place.key(),
        Word::Kind => row.kind,
        Word::Owner => row.owner,
        Word::Tier => row.tier,
        Word::State => row.state,
    }
}

fn cell(row: &Row, field: Cell) -> (c: String)
    ensures
        c@ == spec_cell(*row, field),
{
    let mut c = String::new();
    match field {
        Cell::Name => {
            if row.object == 0 {
                c.append("free at 0x");
                push_hex(&mut c, row.start);
            } else {
                c.append("layer ");
                push_decimal(&mut c, row.at.0 as u64);
                c.append(" tile ");
                push_decimal(&mut c, row.at.1 as u64);
            }
        },
        Cell::Object => {
            if row.object != 0 {
                push_decimal(&mut c, row.object);
            }
        },
        Cell::NextUse => {
            if row.object != 0 {
                c = NextUseText(row.next_use).text();
            }
        },
    }
    proof {
        reveal_strlit("");
    }
    assert(c@ =~= spec_cell(*row, field));
    c
}

/// A column of one numeric field of every row.
pub open spec fn num_column(name: Seq<char>, rows: Seq<Row>, field: Number) -> Seq<char> {
    nums_text(name, Seq::new(rows.len(), |k: int| spec_number(rows[k], field)))
}

/// A column of one word field of every row.
pub open spec fn word_column(name: Seq<char>, rows: Seq<Row>, field: Word) -> Seq<char> {
    strs_text(name, Seq::new(rows.len(), |k: int| spec_word(rows[k], field)@))
}

/// A column of one written-out field of every row.
pub open spec fn cell_column(name: Seq<char>, rows: Seq<Row>, field: Cell) -> Seq<char> {
    strs_text(name, Seq::new(rows.len(), |k: int| spec_cell(rows[k], field)))
}

fn num_col(out: &mut String, name: &str, rows: &[Row], field: Number)
    ensures
        final(out)@ == old(out)@ + num_column(name@, rows@, field),
{
    let mut values: Vec<u64> = Vec::new();
    let mut i: usize = 0;
    while i < rows.len()
        invariant
            i <= rows@.len(),
            values@ == Seq::new(i as nat, |k: int| spec_number(rows@[k], field)),
        decreases rows@.len() - i,
    {
        values.push(number(&rows[i], field));
        i += 1;
        assert(values@ =~= Seq::new(i as nat, |k: int| spec_number(rows@[k], field)));
    }
    nums(out, name, values.as_slice());
}

fn word_col(out: &mut String, name: &str, rows: &[Row], field: Word)
    ensures
        final(out)@ == old(out)@ + word_column(name@, rows@, field),
{
    let mut words: Vec<&'static str> = Vec::new();
    let mut i: usize = 0;
    while i < rows.len()
        invariant
            i <= rows@.len(),
            words@.len() == i,
            forall|k: int| 0 <= k < i ==> #[trigger] words@[k] == spec_word(rows@[k], field),
        decreases rows@.len() - i,
    {
        words.push(word(&rows[i], field));
        i += 1;
    }
    strs(out, name, words.as_slice());
    assert(Seq::new(words@.len(), |k: int| words@[k]@) =~= Seq::new(rows@.len(), |k: int| spec_word(rows@[k], field)@));
}

fn cell_col(out: &mut String, name: &str, rows: &[Row], field: Cell)
    ensures
        final(out)@ == old(out)@ + cell_column(name@, rows@, field),
{
    let mut cells: Vec<String> = Vec::new();
    let mut i: usize = 0;
    while i < rows.len()
        invariant
            i <= rows@.len(),
            cells@.len() == i,
            forall|k: int| 0 <= k < i ==> #[trigger] cells@[k]@ == spec_cell(rows@[k], field),
        decreases rows@.len() - i,
    {
        cells.push(cell(&rows[i], field));
        i += 1;
    }
    text(out, name, cells.as_slice());
    assert(Seq::new(cells@.len(), |k: int| cells@[k]@) =~= Seq::new(rows@.len(), |k: int| spec_cell(rows@[k], field)));
}

/// The columns the contract itself defines.
pub open spec fn contract_text(rows: Seq<Row>) -> Seq<char> {
    num_column("region_id"@, rows, Number::Id) + num_column("region_start"@, rows, Number::Start)
        + num_column("region_length"@, rows, Number::Length) + num_column("region_text_words"@, rows, Number::Zero)
        + num_column("region_data_words"@, rows, Number::Zero) + num_column("region_bss_words"@, rows, Number::Zero)
        + word_column("region_space"@, rows, Word::Space) + word_column("region_kind"@, rows, Word::Kind)
        + word_column("region_owner"@, rows, Word::Owner) + cell_column("region_name"@, rows, Cell::Name)
}

/// The columns the contract itself defines, for `rows`.
///
/// Image word counts, which MLOS has none of, are written as zeros rather
/// than left out: a consumer reads them without checking, and a missing
/// column is a crash where a zero is a fact.
pub fn contract(out: &mut String, rows: &[Row])
    ensures
        final(out)@ == old(out)@ + contract_text(rows@),
{
    let ghost start = out@;
    num_col(out, "region_id", rows, Number::Id);
    num_col(out, "region_start", rows, Number::Start);
    num_col(out, "region_length", rows, Number::Length);
    num_col(out, "region_text_words", rows, Number::Zero);
    num_col(out, "region_data_words", rows, Number::Zero);
    num_col(out, "region_bss_words", rows, Number::Zero);
    word_col(out, "region_space", rows, Word::Space);
    word_col(out, "region_kind", rows, Word::Kind);
    word_col(out, "region_owner", rows, Word::Owner);
    cell_col(out, "region_name", rows, Cell::Name);
    assert(out@ =~= start + contract_text(rows@));
}

/// The columns MLOS adds.
pub open spec fn extras_text(rows: Seq<Row>) -> Seq<char> {
    word_column("region_tier"@, rows, Word::Tier) + word_column("region_state"@, rows, Word::State)
        + num_column("region_reuse"@, rows, Number::Reuse) + num_column("region_cost"@, rows, Number::Cost)
        + cell_column("region_object_id"@, rows, Cell::Object) + cell_column("region_next_use"@, rows, Cell::NextUse)
}

/// The columns MLOS adds -- what a page-based system could not say.
///
/// Empty strings where a column does not apply, so a consumer grouping by
/// tier or state never sees a bucket that is really "not an object".
pub fn extras(out: &mut String, rows: &[Row])
    ensures
        final(out)@ == old(out)@ + extras_text(rows@),
{
    let ghost start = out@;
    word_col(out, "region_tier", rows, Word::Tier);
    word_col(out, "region_state", rows, Word::State);
    num_col(out, "region_reuse", rows, Number::Reuse);
    num_col(out, "region_cost", rows, Number::Cost);
    cell_col(out, "region_object_id", rows, Cell::Object);
    cell_col(out, "region_next_use", rows, Cell::NextUse);
    assert(out@ =~= start + extras_text(rows@));
}

/// Whether `row` is a weight tile's bytes in the arena: the rows that
/// have stored bytes behind them.
pub open spec fn is_backed(row: Row) -> bool {
    row.place == Where::Dram && (row.id >> 24u32) & 0xf == ObjectClass::WeightTile.spec_code() as u32
}

/// The rows of `rows` with stored bytes behind them, in order.
pub open spec fn backed(rows: Seq<Row>) -> Seq<Row>
    decreases rows.len(),
{
    if rows.len() == 0 {
        seq![]
    } else if is_backed(rows.last()) {
        backed(rows.drop_last()).push(rows.last())
    } else {
        backed(rows.drop_last())
    }
}

/// The edge table.
pub open spec fn edges_text(rows: Seq<Row>) -> Seq<char> {
    let b = backed(rows);
    strs_text("rel_kind"@, Seq::new(b.len(), |k: int| "backs"@)) + num_column("rel_from"@, b, Number::Source)
        + num_column("rel_to"@, b, Number::Id)
}

/// The edge table: `backs`, from stored bytes to the arena region holding
/// them.
///
/// Only weight tiles have stored bytes: an activation is recomputed, so
/// there is no disk extent for an edge to run from.
pub fn edges(out: &mut String, rows: &[Row])
    ensures
        final(out)@ == old(out)@ + edges_text(rows@),
{
    let ghost start = out@;
    let mut chosen: Vec<Row> = Vec::new();
    let mut kinds: Vec<&'static str> = Vec::new();
    let mut i: usize = 0;
    while i < rows.len()
        invariant
            i <= rows@.len(),
            chosen@ == backed(rows@.take(i as int)),
            kinds@.len() == chosen@.len(),
            forall|k: int| 0 <= k < kinds@.len() ==> #[trigger] kinds@[k] == "backs",
        decreases rows@.len() - i,
    {
        let r = rows[i];
        assert(rows@.take(i + 1).drop_last() =~= rows@.take(i as int));
        let code = ObjectClass::WeightTile.code() as u32;
        if r.place == Where::Dram && (r.id >> 24u32) & 0xf == code {
            chosen.push(r);
            kinds.push("backs");
        }
        i += 1;
    }
    assert(rows@.take(i as int) =~= rows@);
    strs(out, "rel_kind", kinds.as_slice());
    assert(Seq::new(kinds@.len(), |k: int| kinds@[k]@) =~= Seq::new(chosen@.len(), |k: int| "backs"@));
    num_col(out, "rel_from", chosen.as_slice(), Number::Source);
    num_col(out, "rel_to", chosen.as_slice(), Number::Id);
    assert(out@ =~= start + edges_text(rows@));
}

/// Every edge runs from the disk to the region it names, and names the
/// same object there: its source is in the disk's space and shares the
/// region's low 28 bits.
pub proof fn law_edges_run_from_disk(id: u32)
    ensures
        spec_source(id) >> 28u32 == Where::Disk.spec_code(),
        spec_source(id) & 0x0fff_ffff == id & 0x0fff_ffff,
{
    assert((id & 0x0fff_ffff | 1u32 << 28u32) >> 28u32 == 1u32) by (bit_vector);
    assert((id & 0x0fff_ffff | 1u32 << 28u32) & 0x0fff_ffff == id & 0x0fff_ffff) by (bit_vector);
}

/// A `backs` edge from an object's arena region points at that same
/// object's region on the disk.
pub proof fn law_an_edge_points_at_the_same_object(id: ObjectId)
    requires
        spec_object(Where::Dram, id) is Some,
    ensures
        spec_object(Where::Disk, id) == Some(spec_source(spec_object(Where::Dram, id).unwrap())),
{
    let c = id.spec_class().unwrap();
    let f = spec_fields(id.0);
    let (k, l, t, i) = (c.spec_code() as u32, f.layer as u32, f.tensor as u32, f.tile as u32);
    assert(((2u32 << 28u32 | k << 24u32 | l << 16u32 | t << 8u32 | i) & 0x0fff_ffff | 1u32 << 28u32) == (1u32
        << 28u32 | k << 24u32 | l << 16u32 | t << 8u32 | i)) by (bit_vector)
        requires
            k <= 8 && l <= 0xff && t <= 0xff && i <= 0xff,
    ;
}

/// What `table` knows about `id`: its first entry for it.
pub open spec fn lookup(table: Seq<(ObjectId, ObjectMeta)>, id: ObjectId) -> Option<ObjectMeta>
    decreases table.len(),
{
    if table.len() == 0 {
        None
    } else if table[0].0 == id {
        Some(table[0].1)
    } else {
        lookup(table.drop_first(), id)
    }
}

fn find(table: &[(ObjectId, ObjectMeta)], id: ObjectId) -> (m: Option<ObjectMeta>)
    ensures
        m == lookup(table@, id),
{
    let mut k: usize = 0;
    assert(table@.skip(0) =~= table@);
    while k < table.len()
        invariant
            k <= table@.len(),
            lookup(table@, id) == lookup(table@.skip(k as int), id),
        decreases table@.len() - k,
    {
        assert(table@.skip(k as int).drop_first() =~= table@.skip(k + 1));
        assert(table@.skip(k as int)[0] == table@[k as int]);
        if table[k].0 == id {
            return Some(table[k].1);
        }
        k += 1;
    }
    None
}

/// `o` as a sequence of none or one.
pub open spec fn present(o: Option<Row>) -> Seq<Row> {
    match o {
        Some(r) => seq![r],
        None => seq![],
    }
}

/// The disk region of the `k`-th weight tile, layer by layer, if the
/// table knows the tile. Every tile is on the disk whether or not it is
/// resident; its state says which.
pub open spec fn stored_row(table: Seq<(ObjectId, ObjectMeta)>, k: int) -> Option<Row> {
    let id = spec_tile((k / 16) as u16, (k % 16) as u16);
    match lookup(table, id) {
        None => None,
        Some(meta) => spec_row(Where::Disk, id, meta, ((((k / 16) * 16 + k % 16) * 2 * 512) as u64, meta.size as u64)),
    }
}

/// The disk regions of the first `k` weight tiles.
pub open spec fn stored_rows(table: Seq<(ObjectId, ObjectMeta)>, k: nat) -> Seq<Row>
    decreases k,
{
    if k == 0 {
        seq![]
    } else {
        stored_rows(table, (k - 1) as nat) + present(stored_row(table, k - 1))
    }
}

/// `size` rounded up to the arena's granularity: what an object costs it.
pub open spec fn granular(size: u32) -> u64 {
    (((size + 15) / 16) * 16) as u64
}

/// The object the `k`-th arena slot is about: each layer's tiles, then
/// its activation.
pub open spec fn placed_id(k: int) -> ObjectId {
    let layer = (k / 17) as u16;
    if k % 17 < 16 {
        spec_tile(layer, (k % 17) as u16)
    } else {
        ObjectId(spec_pack(ObjectClass::Activation.spec_code(), Fields { model: MODEL, layer, tensor: 0, tile: 0 }))
    }
}

/// The arena region of the `k`-th object, if the table knows it and it
/// is placed in the arena at or after `base`.
pub open spec fn placed_row(table: Seq<(ObjectId, ObjectMeta)>, base: u64, k: int) -> Option<Row> {
    let id = placed_id(k);
    match lookup(table, id) {
        None => None,
        Some(meta) => if meta.resident_at >= base {
            spec_row(Where::Dram, id, meta, ((meta.resident_at - base) as u64, granular(meta.size)))
        } else {
            None
        },
    }
}

/// The arena regions of the first `k` objects.
pub open spec fn placed_rows(table: Seq<(ObjectId, ObjectMeta)>, base: u64, k: nat) -> Seq<Row>
    decreases k,
{
    if k == 0 {
        seq![]
    } else {
        placed_rows(table, base, (k - 1) as nat) + present(placed_row(table, base, k - 1))
    }
}

proof fn lemma_stored_contains(table: Seq<(ObjectId, ObjectMeta)>, n: nat, k: int)
    requires
        0 <= k < n,
        stored_row(table, k) is Some,
    ensures
        exists|i: int|
            0 <= i < stored_rows(table, n).len() && #[trigger] stored_rows(table, n)[i] == stored_row(table, k).unwrap(),
    decreases n,
{
    let rows = stored_rows(table, n);
    let before = stored_rows(table, (n - 1) as nat);
    if k == n - 1 {
        let i = before.len() as int;
        assert(rows[i] == stored_row(table, k).unwrap());
    } else {
        lemma_stored_contains(table, (n - 1) as nat, k);
        let i = choose|i: int| 0 <= i < before.len() && #[trigger] before[i] == stored_row(table, k).unwrap();
        assert(rows[i] == before[i]);
    }
}

/// Every weight tile the table knows is a region of the disk, resident or
/// not: a tile lives at its own place in the image, two sectors per tile
/// in layer-then-tensor order, as long as its size, and says whether it is
/// also in memory.
pub proof fn law_a_known_tile_is_on_the_disk(table: Seq<(ObjectId, ObjectMeta)>, layer: u16, tensor: u16)
    requires
        layer < LAYERS,
        tensor < TILES,
    ensures
        ({
            let found = lookup(table, spec_tile(layer, tensor));
            let meta = found.unwrap();
            found is Some ==> exists|i: int|
                0 <= i < stored_rows(table, (LAYERS * TILES) as nat).len() && {
                    let r = #[trigger] stored_rows(table, (LAYERS * TILES) as nat)[i];
                    &&& r.place == Where::Disk
                    &&& r.object == spec_tile(layer, tensor).0
                    &&& r.start == (layer * TILES + tensor) * 1024
                    &&& r.length == meta.size
                    &&& r.state == spec_state(meta)
                }
        }),
{
    let id = spec_tile(layer, tensor);
    crate::abi::law_new_round_trips(ObjectClass::WeightTile, Fields { model: MODEL, layer, tensor, tile: 0 });
    if lookup(table, id) is Some {
        let k = layer * 16 + tensor;
        assert(k / 16 == layer && k % 16 == tensor);
        lemma_stored_contains(table, (LAYERS * TILES) as nat, k);
    }
}

proof fn lemma_placed_contains(table: Seq<(ObjectId, ObjectMeta)>, base: u64, n: nat, k: int)
    requires
        0 <= k < n,
        placed_row(table, base, k) is Some,
    ensures
        exists|i: int|
            0 <= i < placed_rows(table, base, n).len() && #[trigger] placed_rows(table, base, n)[i]
                == placed_row(table, base, k).unwrap(),
    decreases n,
{
    let rows = placed_rows(table, base, n);
    let before = placed_rows(table, base, (n - 1) as nat);
    if k == n - 1 {
        let i = before.len() as int;
        assert(rows[i] == placed_row(table, base, k).unwrap());
    } else {
        lemma_placed_contains(table, base, (n - 1) as nat, k);
        let i = choose|i: int| 0 <= i < before.len() && #[trigger] before[i] == placed_row(table, base, k).unwrap();
        assert(rows[i] == before[i]);
    }
}

/// Whether `rows` has the arena region of object `id` placed at byte
/// `resident_at` of an arena at `base`, `size` bytes rounded up to the
/// arena's granularity.
pub open spec fn shows_in_arena(rows: Seq<Row>, id: ObjectId, resident_at: u64, base: u64, size: u32) -> bool {
    exists|i: int|
        0 <= i < rows.len() && (#[trigger] rows[i]).place == Where::Dram && rows[i].object == id.0 && rows[i].start
            == resident_at - base && rows[i].length == ((size + 15) / 16) * 16
}

/// Every weight tile of the model the table holds in the arena, at or
/// after its base, is an arena region of the layout, at its offset and
/// as long as its rounded size.
pub proof fn law_a_resident_tile_is_in_the_arena(
    table: Seq<(ObjectId, ObjectMeta)>,
    base: u64,
    layer: u16,
    tensor: u16,
)
    requires
        layer < LAYERS,
        tensor < TILES,
    ensures
        ({
            let found = lookup(table, spec_tile(layer, tensor));
            let meta = found.unwrap();
            found is Some && meta.resident_at >= base ==> shows_in_arena(
                placed_rows(table, base, (LAYERS * 17) as nat),
                spec_tile(layer, tensor),
                meta.resident_at,
                base,
                meta.size,
            )
        }),
{
    let id = spec_tile(layer, tensor);
    crate::abi::law_new_round_trips(ObjectClass::WeightTile, Fields { model: MODEL, layer, tensor, tile: 0 });
    if let Some(meta) = lookup(table, id) {
        if meta.resident_at >= base {
            let k = layer * 17 + tensor;
            assert(k / 17 == layer && k % 17 == tensor);
            assert(placed_id(k) == id);
            lemma_placed_contains(table, base, (LAYERS * 17) as nat, k);
        }
    }
}

/// Every layer's activation the table holds in the arena, at or after its
/// base, is an arena region of the layout too: activations are resident
/// objects like tiles, at their offset and as long as their rounded size.
pub proof fn law_a_resident_activation_is_in_the_arena(table: Seq<(ObjectId, ObjectMeta)>, base: u64, layer: u16)
    requires
        layer < LAYERS,
    ensures
        ({
            let id = ObjectId(spec_pack(ObjectClass::Activation.spec_code(), Fields { model: MODEL, layer, tensor: 0, tile: 0 }));
            let found = lookup(table, id);
            let meta = found.unwrap();
            found is Some && meta.resident_at >= base ==> shows_in_arena(
                placed_rows(table, base, (LAYERS * 17) as nat),
                id,
                meta.resident_at,
                base,
                meta.size,
            )
        }),
{
    let id = ObjectId(spec_pack(ObjectClass::Activation.spec_code(), Fields { model: MODEL, layer, tensor: 0, tile: 0 }));
    crate::abi::law_new_round_trips(ObjectClass::Activation, Fields { model: MODEL, layer, tensor: 0, tile: 0 });
    if let Some(meta) = lookup(table, id) {
        if meta.resident_at >= base {
            let k = layer * 17 + 16;
            assert(k / 17 == layer && k % 17 == 16);
            assert(placed_id(k) == id);
            lemma_placed_contains(table, base, (LAYERS * 17) as nat, k);
        }
    }
}

/// Every region: what is stored, what is resident, and `tail` after them
/// unless it is empty.
pub open spec fn spec_rows(table: Seq<(ObjectId, ObjectMeta)>, base: u64, tail: Row) -> Seq<Row> {
    stored_rows(table, (LAYERS * TILES) as nat) + placed_rows(table, base, (LAYERS * 17) as nat) + if tail.length
        > 0 {
        seq![tail]
    } else {
        seq![]
    }
}

/// The model's weight tiles, where the disk image keeps them: every tile
/// the table knows, resident or not.
pub fn stored(table: &[(ObjectId, ObjectMeta)]) -> (r: Vec<Row>)
    ensures
        r@ == stored_rows(table@, (LAYERS * TILES) as nat),
{
    let mut r: Vec<Row> = Vec::new();
    let mut k: u16 = 0;
    while k < LAYERS * TILES
        invariant
            k <= LAYERS * TILES,
            r@ == stored_rows(table@, k as nat),
        decreases LAYERS * TILES - k,
    {
        let id = tile_id(k / TILES, k % TILES);
        let ghost before = r@;
        match find(table, id) {
            Some(meta) => {
                let sector = Disk::sector_of(id);
                proof {
                    crate::abi::law_new_round_trips(
                        ObjectClass::WeightTile,
                        Fields { model: MODEL, layer: k / TILES, tensor: k % TILES, tile: 0 },
                    );
                }
                assert(sector == ((k / 16) * 16 + k % 16) * 2);
                match row(Where::Disk, id, &meta, (sector * SECTOR as u64, meta.size as u64)) {
                    Some(found) => r.push(found),
                    None => {},
                }
            },
            None => {},
        }
        assert(r@ =~= before + present(stored_row(table@, k as int)));
        k += 1;
    }
    r
}

/// Everything in the arena at or after `base`, at the place it was
/// given, each extent rounded to the arena's granularity -- which is what
/// the object cost.
pub fn placed(table: &[(ObjectId, ObjectMeta)], base: u64) -> (r: Vec<Row>)
    ensures
        r@ == placed_rows(table@, base, (LAYERS * 17) as nat),
{
    let mut r: Vec<Row> = Vec::new();
    let mut k: u16 = 0;
    while k < LAYERS * 17
        invariant
            k <= LAYERS * 17,
            r@ == placed_rows(table@, base, k as nat),
        decreases LAYERS * 17 - k,
    {
        let layer = k / 17;
        let id = if k % 17 < TILES {
            tile_id(layer, k % 17)
        } else {
            activation(layer)
        };
        assert(id == placed_id(k as int));
        let ghost before = r@;
        match find(table, id) {
            Some(meta) => {
                if meta.resident_at >= base {
                    let size = meta.size as u64;
                    let extent = ((size + 15) / 16) * 16;
                    match row(Where::Dram, id, &meta, (meta.resident_at - base, extent)) {
                        Some(found) => r.push(found),
                        None => {},
                    }
                }
            },
            None => {},
        }
        assert(r@ =~= before + present(placed_row(table@, base, k as int)));
        k += 1;
    }
    r
}

/// Every region of the running system: what is stored, what is resident,
/// and `tail` after them. The tail is skipped when the arena is exactly
/// full: a zero-length region draws as nothing.
pub fn rows(table: &[(ObjectId, ObjectMeta)], base: u64, tail: Row) -> (r: Vec<Row>)
    ensures
        r@ == spec_rows(table@, base, tail),
{
    let mut r = stored(table);
    let mut more = placed(table, base);
    r.append(&mut more);
    if tail.length > 0 {
        r.push(tail);
    }
    assert(r@ =~= spec_rows(table@, base, tail));
    r
}

/// The document's first lines: the format and its version.
pub open spec fn document_head() -> Seq<char> {
    "{\r\n  \"schema\": \""@ + SCHEMA@ + "\",\r\n  \"version\": "@ + decimal(VERSION as nat) + ",\r\n\r\n"@
}

/// The document's last lines: who produced it, at which revision.
pub open spec fn document_foot(revision: Seq<char>) -> Seq<char> {
    "\r\n  \"provenance\": { \"producer\": \""@ + PRODUCER@ + "\", \"revision\": \""@ + revision + "\" }\r\n}\r\n"@
}

/// The whole document, for an arena at `base` with `used` bytes of
/// `capacity` taken.
pub open spec fn document(
    table: Seq<(ObjectId, ObjectMeta)>,
    base: u64,
    used: u64,
    capacity: u64,
    revision: Seq<char>,
) -> Seq<char> {
    let rows = spec_rows(table, base, spec_tail(used, capacity));
    document_head() + spaces_text(stored_bytes(), capacity) + "\r\n"@ + contract_text(rows) + extras_text(rows)
        + "\r\n"@ + edges_text(rows) + document_foot(revision)
}

proof fn lemma_regroup(
    s: Seq<char>,
    a: Seq<char>,
    b: Seq<char>,
    c: Seq<char>,
    d: Seq<char>,
    e: Seq<char>,
    f: Seq<char>,
    g: Seq<char>,
    h: Seq<char>,
)
    ensures
        s + a + b + c + d + e + f + g + h == s + (a + b + c + d + e + f + g + h),
{
    assert(s + a + b + c + d + e + f + g + h =~= s + (a + b + c + d + e + f + g + h));
}

/// Writes the layout of an object table and its arena: the arena at
/// `base`, `used` bytes of `capacity` taken.
///
/// `provenance` comes last, which looks odd and is deliberate: every
/// column is written with a trailing comma, and a scalar at the end closes
/// the object without one. Key order is not significant to a JSON parser,
/// and the two lines that identify the format are still the first two.
pub fn of(
    out: &mut String,
    table: &[(ObjectId, ObjectMeta)],
    base: u64,
    used: u64,
    capacity: u64,
    revision: &str,
)
    ensures
        final(out)@ == old(out)@ + document(table@, base, used, capacity, revision@),
{
    let ghost start = out@;
    let every = rows(table, base, tail(used, capacity));
    let ghost all = every@;
    let stored: u64 = 131072;
    assert(stored == stored_bytes());
    write_head(out);
    spaces(out, stored, capacity);
    out.append("\r\n");
    contract(out, every.as_slice());
    extras(out, every.as_slice());
    out.append("\r\n");
    edges(out, every.as_slice());
    write_foot(out, revision);
    proof {
        lemma_regroup(
            start,
            document_head(),
            spaces_text(stored_bytes(), capacity),
            "\r\n"@,
            contract_text(all),
            extras_text(all),
            "\r\n"@,
            edges_text(all),
            document_foot(revision@),
        );
    }
}

fn write_head(out: &mut String)
    ensures
        final(out)@ == old(out)@ + document_head(),
{
    let ghost start = out@;
    out.append("{\r\n  \"schema\": \"");
    out.append(SCHEMA);
    out.append("\",\r\n  \"version\": ");
    push_decimal(out, VERSION as u64);
    out.append(",\r\n\r\n");
    assert(out@ =~= start + document_head());
}

fn write_foot(out: &mut String, revision: &str)
    ensures
        final(out)@ == old(out)@ + document_foot(revision@),
{
    let ghost start = out@;
    out.append("\r\n  \"provenance\": { \"producer\": \"");
    out.append(PRODUCER);
    out.append("\", \"revision\": \"");
    out.append(revision);
    out.append("\" }\r\n}\r\n");
    assert(out@ =~= start + document_foot(revision@));
}

} // verus!
