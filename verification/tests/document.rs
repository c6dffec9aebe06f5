//! What the running emitter must produce, whatever the numbers are.

use mlos::abi::ObjectId;
use mlos::objtab::ObjectMeta;
use mlos::snapshot::of;
use mlos::synth::{activation, activations, tile, weights, LAYERS, TILES};

/// A budget a quarter the size of the model's weights.
const BUDGET: u64 = 32 * 1024;

/// Where the arena starts.
const BASE: u64 = 0x4010_0000;

/// The object table of the registered model with the first `acquired`
/// tiles faulted in, in sweep order, as far as the arena has room; and
/// how many bytes of the arena that used.
fn table(acquired: u32) -> (Vec<(ObjectId, ObjectMeta)>, u64) {
    let fit = acquired.min((BUDGET / 1024) as u32);
    let mut table = Vec::new();
    for layer in 0..LAYERS {
        for tensor in 0..TILES {
            let index = u32::from(layer) * u32::from(TILES) + u32::from(tensor);
            let mut meta = weights();
            if index < fit {
                meta.resident_at = BASE + u64::from(index) * 1024;
                meta.reuse_count = 1;
            }
            table.push((tile(layer, tensor), meta));
        }
        table.push((activation(layer), activations()));
    }
    (table, u64::from(fit) * 1024)
}

/// The document for a table with `acquired` tiles faulted in.
fn document(acquired: u32) -> String {
    let (table, used) = table(acquired);
    let mut text = String::new();
    of(&mut text, &table, BASE, used, BUDGET, "testrev");
    text.replace("\r\n", "\n")
}

/// Every column of a document, by name, with its raw cells.
fn columns(text: &str) -> Vec<(String, Vec<String>)> {
    let mut found = Vec::new();
    for line in text.lines() {
        let line = line.trim();
        let Some((name, rest)) = line.split_once("\": [") else {
            continue;
        };
        let name = name.trim_start_matches('"').to_owned();
        let body = rest.trim_end_matches(',').trim_end_matches(']');
        let cells = if body.is_empty() {
            Vec::new()
        } else {
            body.split(", ").map(str::to_owned).collect()
        };
        found.push((name, cells));
    }
    found
}

/// The cells of column `name`, quotes taken off.
fn strings(text: &str, name: &str) -> Vec<String> {
    columns(text)
        .into_iter()
        .find(|(found, _)| found == name)
        .map(|(_, cells)| cells.into_iter().map(|c| c.trim_matches('"').to_owned()).collect())
        .unwrap_or_else(|| panic!("a {name} column"))
}

/// The cells of column `name`, as numbers.
fn numbers(text: &str, name: &str) -> Vec<u64> {
    strings(text, name).iter().map(|c| c.parse().expect("a number")).collect()
}

/// Whether the regions of `space` cover `0..size` with no gap and no
/// overlap, and every region column has one cell per region.
fn tiles(text: &str, space: &str, size: u64) -> bool {
    let ids = numbers(text, "region_id");
    for (name, cells) in columns(text) {
        if name.starts_with("region_") && cells.len() != ids.len() {
            return false;
        }
    }
    let spaces = strings(text, "region_space");
    let starts = numbers(text, "region_start");
    let lengths = numbers(text, "region_length");
    let mut extents: Vec<(u64, u64)> = (0..ids.len())
        .filter(|at| spaces[*at] == space)
        .map(|at| (starts[at], lengths[at]))
        .collect();
    extents.sort();
    let mut end = 0;
    for (start, length) in extents {
        if start != end {
            return false;
        }
        end = start + length;
    }
    end == size
}

#[test]
fn it_satisfies_the_same_contract_as_the_static_emitter() {
    for acquired in [40, 0] {
        let text = document(acquired);
        assert!(tiles(&text, "dram", BUDGET), "the arena is tiled in:\n{text}");
        assert!(tiles(&text, "disk", 128 * 1024), "the disk is tiled in:\n{text}");
        assert!(text.starts_with("{\n  \"schema\": \"sw-ml-study.system-layout\",\n  \"version\": 1,\n"));
        assert!(text.ends_with("\"revision\": \"testrev\" }\n}\n"));
    }
}

#[test]
fn nothing_resident_still_tiles_the_arena() {
    let text = document(0);
    let dram: Vec<String> = strings(&text, "region_space")
        .into_iter()
        .filter(|space| space == "dram")
        .collect();
    assert_eq!(dram.len(), 1, "in:\n{text}");
    assert!(tiles(&text, "dram", BUDGET), "an untouched arena is still a valid document");
}

#[test]
fn a_full_arena_has_no_free_region() {
    let text = document(40);
    let kinds = strings(&text, "region_kind");
    let lengths = numbers(&text, "region_length");
    assert!(!lengths.contains(&0), "a zero-length region in:\n{text}");
    assert!(kinds.iter().any(|kind| kind == "weight-tile"));
    assert!(!kinds.iter().any(|kind| kind == "free"), "a full arena has no tail");
}

#[test]
fn the_arena_holds_what_the_table_says_is_resident() {
    let (_, used) = table(40);
    let text = document(40);
    let space = strings(&text, "region_space");
    let state = strings(&text, "region_state");
    let resident = space
        .iter()
        .zip(&state)
        .filter(|(s, st)| *s == "dram" && *st == "resident")
        .count();
    assert_eq!(resident as u64 * 1024, used, "in:\n{text}");
}

#[test]
fn every_edge_runs_from_stored_bytes_to_the_bytes_they_became() {
    let text = document(40);
    let ids = numbers(&text, "region_id");
    let space = strings(&text, "region_space");
    let from = numbers(&text, "rel_from");
    let to = numbers(&text, "rel_to");
    let kinds = strings(&text, "rel_kind");
    let place = |id: u64| {
        let index = ids.iter().position(|found| *found == id).expect("a known id");
        space[index].clone()
    };
    assert!(!from.is_empty(), "no edges at all in:\n{text}");
    assert!(kinds.iter().all(|kind| kind == "backs"));
    for (from, to) in from.iter().zip(&to) {
        assert_eq!(place(*from), "disk", "an edge from somewhere else");
        assert_eq!(place(*to), "dram", "an edge to somewhere else");
        assert_eq!(from & 0x0fff_ffff, to & 0x0fff_ffff);
    }
}

#[test]
fn the_vocabulary_stays_inside_the_palette() {
    let text = document(40);
    let kinds = ["weight-tile", "activation", "free"];
    for kind in strings(&text, "region_kind") {
        assert!(kinds.contains(&kind.as_str()), "{kind:?} is not in the palette");
    }
    for state in strings(&text, "region_state") {
        assert!(["resident", "evicted", "never", "fixed"].contains(&state.as_str()), "{state:?}");
    }
    for tier in strings(&text, "region_tier") {
        assert!(["hot", "warm", "cold", "stream", "archive", ""].contains(&tier.as_str()), "{tier:?}");
    }
}

#[test]
fn no_value_needs_json_escaping() {
    let text = document(40);
    for (name, values) in columns(&text) {
        for value in values {
            let body = value.trim_matches('"');
            assert!(
                !body.contains(['"', '\\']) && !body.contains(|c: char| c.is_control()),
                "{name} has {value:?}, which needs escaping"
            );
        }
    }
}
