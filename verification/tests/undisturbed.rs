//! Looking at the system must not change it.

use mlos::abi::ObjectId;
use mlos::objtab::ObjectMeta;
use mlos::snapshot::of;
use mlos::synth::{activation, activations, tile, weights, LAYERS, TILES};

/// A budget a quarter the size of the model's weights.
const BUDGET: u64 = 32 * 1024;

/// Where the arena starts.
const BASE: u64 = 0x4010_0000;

/// The table with the first `acquired` tiles resident, and the bytes used.
fn table(acquired: u32) -> (Vec<(ObjectId, ObjectMeta)>, u64) {
    let mut table = Vec::new();
    for layer in 0..LAYERS {
        for tensor in 0..TILES {
            let index = u32::from(layer) * u32::from(TILES) + u32::from(tensor);
            let mut meta = weights();
            if index < acquired {
                meta.resident_at = BASE + u64::from(index) * 1024;
                meta.reuse_count = 1;
            }
            table.push((tile(layer, tensor), meta));
        }
        table.push((activation(layer), activations()));
    }
    (table, u64::from(acquired) * 1024)
}

#[test]
fn emitting_faults_nothing_in_and_moves_no_counter() {
    let (table, used) = table(12);
    let before = table.clone();
    let mut first = String::new();
    of(&mut first, &table, BASE, used, BUDGET, "testrev");
    let mut second = String::new();
    of(&mut second, &table, BASE, used, BUDGET, "testrev");
    assert_eq!(table, before, "the table changed");
    assert_eq!(first, second, "two snapshots of an unchanged system differ");
}

#[test]
fn a_snapshot_reports_what_it_found_rather_than_what_it_wanted() {
    let (table, used) = table(12);
    let mut text = String::new();
    of(&mut text, &table, BASE, used, BUDGET, "testrev");
    let line = text
        .lines()
        .find(|line| line.starts_with("  \"region_state\": ["))
        .expect("a state column");
    let resident = line.matches("\"resident\"").count();
    let never = line.matches("\"never\"").count();
    assert_eq!(resident, 24, "in:\n{text}");
    assert!(never > 0, "everything looks resident, which cannot be true");
}
