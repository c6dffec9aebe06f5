//! Is this workload fair: do both of its halves count?

use mlos::abi::ObjectClass;
use mlos::sim::Model;
use mlos::trace::Access;
use mlos::workload::Decode;

/// How many of these accesses are KV rather than weights.
fn kv(held: &[Access]) -> usize {
    held.iter()
        .filter(|a| a.object.class() == Some(ObjectClass::KvBlock))
        .count()
}

#[test]
fn the_two_halves_are_comparable_in_size() {
    let decode = Decode::of(4, 40);
    let held = decode.trace();
    let (cache, weights) = (kv(&held), held.len() - kv(&held));
    println!("weights {weights} accesses, kv {cache} accesses");

    let ratio = weights as f64 / cache as f64;
    assert!(
        (0.5..2.0).contains(&ratio),
        "one half dominates: weights {weights}, kv {cache}"
    );
}

#[test]
fn every_object_the_trace_names_is_one_the_model_has() {
    let decode = Decode::of(4, 8);
    for access in decode.trace() {
        assert!(
            decode.meta(access.object).is_some(),
            "{:#018x} is in the trace and not in the model",
            access.object.0
        );
    }
}
