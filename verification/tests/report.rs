//! What the shell's verbs print, on the values a running guest reads.

use mlos::abi::{Error, ObjectClass};
use mlos::objtab::{CostNs, Tier};
use mlos::report::{
    advanced, arena, declared, dev, evicted, faults, listed, memory, outcome, refused, region, registered, shown,
    sweep, ticks, Fault,
};
use mlos::shell::{evict, steps, tile_numbers};
use mlos::synth::{tile, Disk, Located};
use mlos::spaces::Where;
use mlos::synth::Tier as PatternTier;
use mlos::virtio::{
    queue_fits, Block, Console, Descriptor, Header, Mmio, Negotiation, Reading, Stage, CHUNK, DEVICE_FEATURES,
    DRIVER_FEATURES, IN, SECTOR, STATUS,
};

#[test]
fn a_sweep_that_ran_out_says_how_far_it_got() {
    let mut out = String::new();
    sweep(&mut out, 7, 128, 1_000, 1_000 + 364_708, 1_000_000_000, Some(Error::NoBudget));
    assert_eq!(
        out,
        "  acquired 7 of 128 tiles in 364.708 us\n  stopped: NoBudget -- no eviction policy yet\n"
    );
}

#[test]
fn a_sweep_that_hits_everything_reads_in_nanoseconds() {
    let mut out = String::new();
    // 24 ticks of a 24 MHz clock is one microsecond.
    sweep(&mut out, 128, 128, 10, 34, 24_000_000, None);
    assert_eq!(out, "  acquired 128 of 128 tiles in 1.000 us\n  swept the whole model\n");
    let mut out = String::new();
    // A clock that went backwards is no time at all; one of zero hertz counts as one.
    sweep(&mut out, 0, 128, 50, 10, 0, None);
    assert!(out.starts_with("  acquired 0 of 128 tiles in 0.000 us\n"), "{out}");
    let mut out = String::new();
    sweep(&mut out, 1, 1, 0, 5, 0, None);
    assert!(out.starts_with("  acquired 1 of 1 tiles in 5000000.000 us\n"), "{out}");
}

#[test]
fn the_arena_reports_its_largest_run() {
    let mut out = String::new();
    arena(&mut out, 8 * 1024, 8 * 1024, 0, Some((8 * 1024, 144 * 1024, 55)));
    assert_eq!(
        out,
        "  arena    8 of 8 KiB used\n  room for 0 more tiles of 1024 B, largest run 0 B\n  Rm       8/144 KiB of the model = 55 per mille\n"
    );
    let mut out = String::new();
    arena(&mut out, 0, 4096, 4096, None);
    assert_eq!(out, "  arena    0 of 4 KiB used\n  room for 4 more tiles of 1024 B, largest run 4096 B\n");
}

#[test]
fn faults_are_listed_per_class_that_faulted() {
    let mut counts = [0u64; 8];
    let mut fetched = [0u64; 8];
    counts[0] = 3;
    fetched[0] = 3 * 1024;
    counts[4] = 1;
    fetched[4] = 2048;
    let last = Fault {
        class: ObjectClass::WeightTile,
        layer: 3,
        tensor: 7,
        tile: 0,
        cost: CostNs(42_500),
    };
    let mut out = String::new();
    faults(&mut out, &counts, &fetched, 4, Some(last));
    assert_eq!(
        out,
        "  faults   4 total\n    WeightTile: 3 faults, 3 KiB fetched\n    Activation: 1 faults, 2 KiB fetched\n  last     WeightTile L3 T7 tile 0, 42 us\n"
    );
}

#[test]
fn get_says_whether_it_hit() {
    let mut out = String::new();
    outcome(&mut out, false, 1024, 0x4008_0000, 0x03, Some(CostNs(91_000)));
    assert_eq!(out, "  faulted: 1024 B at 0x40080000, first byte 0x03\n  cost 91 us\n");
    let mut out = String::new();
    outcome(&mut out, true, 1024, 0x4008_0000, 0xa4, Some(CostNs(91_000)));
    assert_eq!(out, "  hit: 1024 B at 0x40080000, first byte 0xa4\n");
    let mut out = String::new();
    refused(&mut out, Error::NoProvider);
    assert_eq!(out, "  refused: NoProvider\n");
}

#[test]
fn model_says_what_it_registered() {
    let mut out = String::new();
    registered(&mut out, 136, 144 * 1024, 8 * 1024, false);
    assert_eq!(
        out,
        "  registered 136 objects, 144 KiB across 3 tiers\n  budget     8 KiB of arena\n  weights    from a pattern (no disk attached)\n"
    );
}

#[test]
fn objs_lines_and_totals() {
    let mut out = String::new();
    listed(&mut out, 3, 12, Tier::Hot, 0x4000_0400, 2, "at 45");
    assert_eq!(out, "  L03 T12  Hot  0x40000400  used 2  next at 45\n");
    let mut out = String::new();
    shown(&mut out, 0);
    assert_eq!(out, "  nothing resident (try `sweep`, or `objs all`)\n");
    let mut out = String::new();
    shown(&mut out, 7);
    assert_eq!(out, "  7 shown\n");
}

#[test]
fn the_machine_verbs() {
    let mut out = String::new();
    ticks(&mut out, 12);
    assert_eq!(out, "12 timer ticks since boot\n");
    let mut out = String::new();
    dev(&mut out, 0x0900_0000, 33, 30, Some((0x0800_0000, 0x080a_0000)));
    assert_eq!(
        out,
        "  console  pl011 @ 0x9000000, irq 33\n  timer    generic, irq 30\n  gic      v3, dist 0x8000000, redist 0x80a0000\n"
    );
    let mut out = String::new();
    dev(&mut out, 0x0900_0000, 33, 30, None);
    assert!(out.ends_with("  gic      none\r\n"));
    let mut out = String::new();
    region(&mut out, 0x4000_0000, 0x8000_0000, "Usable");
    assert_eq!(out, "  0x0040000000 + 0x80000000 Usable\n");
    let mut out = String::new();
    memory(&mut out, (0x4008_0000, 0x20_0000), 2040 << 20, 2048 << 20, 1);
    assert_eq!(out, "  image  0x40080000 + 0x200000\n  usable 2040 MiB of 2048 MiB, 1 cpu(s)\n");
}

#[test]
fn a_range_is_read_sector_by_sector() {
    assert_eq!(Reading::start(100, 10), Err(Error::BadObject));
    let mut reading = Reading::start(2 * SECTOR as u64, SECTOR + 10).expect("aligned");
    let mut into = vec![0u8; SECTOR + 10];
    let mut asked = Vec::new();
    while let Some(sector) = reading.next() {
        asked.push(sector);
        let scratch = vec![sector as u8; SECTOR];
        reading.take(&scratch, &mut into);
    }
    assert_eq!(asked, [2, 3]);
    assert_eq!(reading.done(), (SECTOR + 10) as u32);
    assert!(into[..SECTOR].iter().all(|b| *b == 2));
    assert!(into[SECTOR..].iter().all(|b| *b == 3));
    let empty = Reading::start(0, 0).expect("aligned");
    assert_eq!(empty.next(), None);
}

#[test]
fn evict_and_stream_read_their_arguments() {
    let mut out = String::new();
    assert_eq!(evict(&mut out, "3 7"), Some((3, 7)));
    assert_eq!(out, "");
    assert_eq!(evict(&mut out, "3"), None);
    assert_eq!(out, "  usage: evict LAYER TILE\n");
    assert_eq!(tile_numbers("a 1 b 2 c 3"), Some((1, 2)));
    assert_eq!(steps("16"), Some(16));
    assert_eq!(steps(""), None);
    assert_eq!(steps("4294967296"), None, "past a u32 is no number of steps");
}

#[test]
fn evict_and_stream_report_what_happened() {
    let mut out = String::new();
    evicted(&mut out, Ok(1024));
    assert_eq!(out, "  evicted 1024 B, returned to the arena\n");
    let mut out = String::new();
    evicted(&mut out, Err(Error::BadObject));
    assert_eq!(out, "  not evicted: BadObject\n");
    let mut out = String::new();
    advanced(&mut out, Some(40));
    advanced(&mut out, None);
    assert_eq!(out, "  advanced to position 40\n  no model registered (try `model`)\n");
    let mut out = String::new();
    declared(&mut out, Some(128));
    declared(&mut out, None);
    assert_eq!(out, "  declared 128 objects, cursor at 0\n  could not declare a stream\n");
}

#[test]
fn a_disk_read_starts_at_the_tile_and_stops_at_its_size() {
    let object = Located {
        id: tile(1, 3),
        size: 1024,
    };
    assert_eq!(Disk::extent(object, 0, 4096), (19 * 1024, 1024));
    assert_eq!(Disk::extent(object, 512, 100), (19 * 1024 + 512, 100));
}

#[test]
fn a_sector_is_taken_only_when_the_device_says_it_is_done() {
    let data = vec![7u8; SECTOR];
    let mut into = vec![0u8; SECTOR];
    assert_eq!(Block::collect(1, &data, &mut into), Err(Error::NoProvider));
    assert!(into.iter().all(|b| *b == 0), "a failed read leaves the buffer alone");
    assert_eq!(Block::collect(0, &data, &mut into), Ok(()));
    assert_eq!(into, data);
}

#[test]
fn the_pattern_tier_fills_with_layer_xor_tensor() {
    let object = Located {
        id: tile(5, 3),
        size: 1024,
    };
    let mut into = vec![0u8; 64];
    assert_eq!(PatternTier::backing().read(object, 0, &mut into), Ok(64));
    assert!(into.iter().all(|b| *b == 5 ^ 3));
}

#[test]
fn structural_ids_are_the_class_zero_range_of_a_space() {
    assert_eq!(Where::Dram.ids(), 0x2000_0000..0x2100_0000);
    assert_eq!(Where::Disk.key(), "disk");
    assert_eq!(mlos::spaces::NextUseText(mlos::objtab::NextUse::Probability(300)).text(), "probability 300");
}

#[test]
fn a_queue_smaller_than_the_rings_is_refused() {
    assert!(queue_fits(8));
    assert!(queue_fits(256));
    assert!(!queue_fits(4));
}

#[test]
fn a_sector_request_is_whole_and_starts_unwritten() {
    assert_eq!(Block::request(9, SECTOR), Ok((Header { kind: IN, reserved: 0, sector: 9 }, 0xff)));
    assert_eq!(Block::request(9, 100), Err(Error::BadObject), "only a whole sector is read");
    let data = vec![1u8; SECTOR];
    let mut short = vec![0u8; 100];
    assert_eq!(Block::collect(0, &data, &mut short), Err(Error::BadObject));
    assert!(short.iter().all(|b| *b == 0));
}

#[test]
fn console_output_goes_a_bufferful_at_a_time() {
    assert_eq!(Console::chunk(600, 0), Some((0, CHUNK)));
    assert_eq!(Console::chunk(600, 512), Some((512, 88)));
    assert_eq!(Console::chunk(600, 600), None);
    assert_eq!(
        Console::descriptor(0x4000_0000, 88),
        Descriptor {
            address: 0x4000_0000,
            length: 88,
            flags: 0,
            next: 0
        }
    );
}

#[test]
fn the_handshake_accepts_version_one_and_reads_back_the_verdict() {
    let mut handshake = Negotiation::new();
    let mut made = Vec::new();
    while let Some(op) = handshake.next() {
        made.push(op);
        let read = match op {
            Mmio::Read(DEVICE_FEATURES) => 0b11,
            Mmio::Read(STATUS) => 0b1011,
            _ => 0,
        };
        handshake.advance(read);
    }
    assert_eq!(made.len(), 11);
    assert_eq!(made[0], Mmio::Write(STATUS, 0));
    assert_eq!(made[6], Mmio::Write(DRIVER_FEATURES, 1), "only VIRTIO_F_VERSION_1 is accepted");
    assert_eq!(made[9], Mmio::Write(STATUS, 0b1011));
    assert_eq!(handshake.settled(), Some(true));
    let mut refused = Negotiation::new();
    for _ in 0..11 {
        refused.advance(0);
    }
    assert_eq!(refused.settled(), Some(false));
}

#[test]
fn a_device_is_configured_only_after_it_agrees() {
    assert_eq!(Stage::Negotiating.after(true), Stage::Configuring);
    assert_eq!(Stage::Negotiating.after(false), Stage::Refused);
    assert_eq!(Stage::Configuring.after(true), Stage::Ready);
    assert_eq!(Stage::Configuring.after(false), Stage::Refused);
    assert_eq!(Stage::ready_status(), 15);
}

#[test]
fn a_write_goes_out_whole_and_in_order() {
    let mut pieces = Vec::new();
    let mut sent = 0;
    while let Some((start, len)) = Console::chunk(600, sent) {
        pieces.push((start, len));
        sent = start + len;
    }
    assert_eq!(pieces, [(0, 256), (256, 256), (512, 88)]);
    assert_eq!(Console::chunk(0, 0), None, "nothing to send is no piece");
}
