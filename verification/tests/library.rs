//! Concrete cases for the library's laws, edge cases and exact formats.

use mlos::abi::{Fields, ObjectClass, ObjectId};
use mlos::derive::from_events;
use mlos::objtab::{NextUse, SessionId};
use mlos::shell::{budget, dispatch, get, wants_all, Command, Line, Shell, CAPACITY, HELP};
use mlos::sim::foresight::{wanted_at, Foresight};
use mlos::snapshot;
use mlos::snapshot::{edges, nums, of, placed, row, rows, spaces, stored, strs, tail, text, Row};
use mlos::spaces::{object, NextUseText, Where};
use mlos::stream::Stream;
use mlos::synth::{activation, tile, weights, Disk};
use mlos::trace::{parse, render, Access, Error, Header};
use mlos::trap::{describe, Trap};
use mlos::virtio::{halves, Console, Device, Status, MAGIC, VERSION};
use mlos::workload::{block, Decode};

fn id(layer: u16, tensor: u16) -> ObjectId {
    ObjectId::new(
        ObjectClass::WeightTile,
        Fields {
            model: 1,
            layer,
            tensor,
            tile: 0,
        },
    )
}

#[test]
fn an_id_gives_back_its_class_and_fields() {
    let fields = Fields {
        model: 7,
        layer: 300,
        tensor: 65535,
        tile: 9,
    };
    let made = ObjectId::new(ObjectClass::Adapter, fields);
    assert_eq!(made.class(), Some(ObjectClass::Adapter));
    assert_eq!(made.fields(), fields);
    assert_eq!(ObjectId(0).class(), None);
}

#[test]
fn a_data_abort_is_described_in_full() {
    let trap = Trap {
        vector: 4,
        esr: 0x9600_0045,
        elr: 0xffff_0000_4000_1234,
        far: 0x10,
        spsr: 0x3c5,
    };
    assert_eq!(trap.exception_class(), 0x25);
    let mut out = String::new();
    describe(&trap, &mut out);
    assert_eq!(
        out,
        "\n!! trap 4 (CurrentSpx/sync)\n   esr  0x0000000096000045  ec 0x25\n   elr  0xffff000040001234\n   far  0x0000000000000010\n   spsr 0x00000000000003c5\n"
    );
}

#[test]
fn a_vector_past_the_table_is_a_question_mark() {
    let trap = Trap {
        vector: 16,
        esr: 0,
        elr: 0,
        far: 0,
        spsr: 0,
    };
    let mut out = String::new();
    describe(&trap, &mut out);
    assert!(out.starts_with("\n!! trap 16 (?)\n"), "{out}");
    let last = Trap { vector: 15, ..trap };
    let mut out = String::new();
    describe(&last, &mut out);
    assert!(out.starts_with("\n!! trap 15 (Lower32/serror)\n"), "{out}");
}

#[test]
fn a_line_holds_what_fits_and_gives_it_back() {
    let mut line = Line::default();
    assert!(!line.backspace(), "nothing to remove at the prompt");
    assert!(line.push(b'h'));
    assert!(line.push(b'i'));
    assert_eq!(line.as_str(), "hi");
    assert!(line.backspace());
    assert_eq!(line.as_str(), "h");
    for _ in 1..CAPACITY {
        assert!(line.push(b'x'));
    }
    assert!(!line.push(b'y'), "a full line refuses");
    assert_eq!(line.as_str().len(), CAPACITY);
}

#[test]
fn a_line_that_is_not_utf8_reads_as_empty() {
    let mut line = Line::default();
    line.push(0xff);
    assert_eq!(line.as_str(), "");
}

#[test]
fn the_shell_echoes_edits_and_hands_back_the_line() {
    let mut shell = Shell::default();
    let mut out = String::new();
    shell.prompt(&mut out);
    assert_eq!(out, "mlsh> ");
    let mut out = String::new();
    assert!(shell.feed(0x7f, false, &mut out).is_none());
    assert_eq!(out, "", "backspace at the prompt erases nothing");
    for byte in b"memx" {
        assert!(shell.feed(*byte, false, &mut out).is_none());
    }
    shell.feed(0x08, false, &mut out);
    shell.feed(0x01, false, &mut out);
    assert_eq!(out, "memx\x08 \x08");
    let (command, args) = shell.feed(b'\r', false, &mut out).expect("a command for the machine");
    assert_eq!((command, args.as_str()), (Command::Mem, ""));
    assert_eq!(out, "memx\x08 \x08\r\n");
    let mut out = String::new();
    assert!(shell.feed(b'\n', false, &mut out).is_none(), "an empty line runs nothing");
    assert_eq!(out, "\r\nmlsh> ");
}

#[test]
fn enter_runs_the_line_and_prompts_again() {
    let mut shell = Shell::default();
    let mut out = String::new();
    for byte in b"evict 3 7\r" {
        shell.feed(*byte, true, &mut out);
    }
    assert_eq!(out, "evict 3 7\r\n");
    let mut shell = Shell::default();
    let mut out = String::new();
    for byte in b"sweep" {
        shell.feed(*byte, false, &mut out);
    }
    assert!(shell.feed(b'\r', false, &mut out).is_none());
    assert_eq!(out, "sweep\r\n  no model registered (try `model`)\nmlsh> ");
    let mut shell = Shell::default();
    let mut out = String::new();
    for byte in b"stream 16" {
        shell.feed(*byte, true, &mut out);
    }
    let (command, args) = shell.feed(b'\n', true, &mut out).expect("a command for the machine");
    assert_eq!((command, args.as_str()), (Command::Stream, "16"));
}

#[test]
fn dispatch_answers_what_it_can_and_names_the_rest() {
    let mut out = String::new();
    assert_eq!(dispatch("  mem  ", false, &mut out), (Command::Mem, ""));
    assert_eq!(dispatch("get 3 7", true, &mut out), (Command::Get, "3 7"));
    assert_eq!(dispatch("model 8", false, &mut out), (Command::Model, "8"));
    assert_eq!(dispatch("evict 3 7", true, &mut out), (Command::Evict, "3 7"));
    assert_eq!(dispatch("evict 3 7", false, &mut out), (Command::Evict, "3 7"));
    assert_eq!(dispatch("stream", true, &mut out), (Command::Stream, ""));
    assert_eq!(out, "");
    assert_eq!(dispatch("", true, &mut out), (Command::Done, ""));
    assert_eq!(out, "");
    assert_eq!(dispatch("sweep", false, &mut out), (Command::Done, ""));
    assert_eq!(out, "  no model registered (try `model`)\n");
    let mut out = String::new();
    assert_eq!(dispatch("help", false, &mut out).0, Command::Done);
    assert_eq!(out, HELP);
    let mut out = String::new();
    assert_eq!(dispatch("ls -l", false, &mut out), (Command::Done, "-l"));
    assert_eq!(out, "no such command: ls   (try `help`)\n");
}

#[test]
fn get_takes_the_first_two_numbers() {
    let mut out = String::new();
    assert_eq!(get(&mut out, "3 7"), Some((3, 7)));
    assert_eq!(get(&mut out, " x 3\ty +7 9"), Some((3, 7)));
    assert_eq!(out, "");
    assert_eq!(get(&mut out, "3 70000"), None);
    assert_eq!(out, "  usage: get <layer> <tensor>\n");
}

#[test]
fn the_arguments_of_objs_and_model() {
    assert!(wants_all(" all"));
    assert!(!wants_all("al"));
    assert!(!wants_all(""));
    assert_eq!(budget("8", 4096), 8 * 1024);
    assert_eq!(budget("", 4096), 4096);
    assert_eq!(budget("eight", 4096), 4096);
}

#[test]
fn columns_are_json_arrays_one_pass_each() {
    let mut out = String::new();
    nums(&mut out, "n", &[1, 20, 300]);
    assert_eq!(out, "  \"n\": [1, 20, 300],\r\n");
    let mut out = String::new();
    nums(&mut out, "empty", &[]);
    assert_eq!(out, "  \"empty\": [],\r\n");
    let mut out = String::new();
    strs(&mut out, "s", &["a", "bc"]);
    assert_eq!(out, "  \"s\": [\"a\", \"bc\"],\r\n");
    let mut out = String::new();
    text(&mut out, "t", &[String::from("x y")]);
    assert_eq!(out, "  \"t\": [\"x y\"],\r\n");
    let mut out = String::new();
    snapshot::column(&mut out, "c", &[String::from("1"), String::from("true")]);
    assert_eq!(out, "  \"c\": [1, true],\r\n");
}

#[test]
fn the_spaces_are_the_disk_and_the_arena() {
    let mut out = String::new();
    spaces(&mut out, 131072, 40960);
    assert_eq!(
        out,
        "  \"spaces\": [\"disk\", \"dram\"],\r\n  \"space_name\": [\"virtio-blk model image\", \"object arena\"],\r\n  \"space_block\": [512, 16],\r\n  \"space_capacity\": [131072, 40960],\r\n"
    );
}

#[test]
fn every_edge_runs_from_the_disk_to_the_arena() {
    let meta = weights();
    let placed: Row = row(Where::Dram, id(3, 7), &meta, (0x400, 1024)).expect("a region");
    let stored: Row = row(Where::Disk, id(3, 7), &meta, (0, 1024)).expect("a region");
    let act: Row = row(Where::Dram, activation(3), &meta, (0x800, 2048)).expect("a region");
    let mut out = String::new();
    edges(&mut out, &[stored, placed, act]);
    let to = u64::from(placed.id);
    let from = u64::from(stored.id);
    assert_eq!(from >> 28, 1);
    assert_eq!(to >> 28, 2);
    assert_eq!(from & 0x0fff_ffff, to & 0x0fff_ffff);
    assert_eq!(
        out,
        format!("  \"rel_kind\": [\"backs\"],\r\n  \"rel_from\": [{from}],\r\n  \"rel_to\": [{to}],\r\n")
    );
}

#[test]
fn the_tail_is_the_free_end_of_the_arena() {
    let free = tail(1024, 4096);
    assert_eq!(free.length, 3072);
    assert_eq!(free.id, 0x2000_0000);
    assert_eq!(free.kind, "free");
    assert_eq!(tail(4096, 1024).length, 0);
}

#[test]
fn a_document_starts_with_its_format_and_ends_with_its_provenance() {
    let mut out = String::new();
    of(&mut out, &[], 0x4000_0000, 0, 4096, "abc123");
    assert!(out.starts_with("{\r\n  \"schema\": \"sw-ml-study.system-layout\",\r\n  \"version\": 1,\r\n\r\n"), "{out}");
    assert!(out.ends_with("\r\n  \"provenance\": { \"producer\": \"mlos\", \"revision\": \"abc123\" }\r\n}\r\n"), "{out}");
    assert!(out.contains("  \"region_name\": [\"free at 0x0\"],\r\n"), "{out}");
    assert!(out.contains("  \"rel_kind\": [],\r\n"), "{out}");
    let mut full = String::new();
    of(&mut full, &[], 0x4000_0000, 4096, 4096, "r");
    assert!(full.contains("  \"region_id\": [],\r\n"), "{full}");
}

#[test]
fn region_ids_keep_objects_apart() {
    let a = object(Where::Disk, id(1, 2)).expect("an id");
    let b = object(Where::Dram, id(1, 2)).expect("an id");
    let c = object(Where::Disk, id(2, 1)).expect("an id");
    assert_ne!(a, b);
    assert_ne!(a, c);
    assert_eq!(a, 0x1101_0200);
    assert_eq!(object(Where::Disk, id(256, 0)), None, "a layer past 255 has no id");
    assert_eq!(NextUseText(NextUse::At(42)).text(), "at 42");
    assert_eq!(NextUseText(NextUse::Never).text(), "never");
}

#[test]
fn virtio_decisions() {
    assert_eq!(Status::from_u8(0), Status::Done);
    assert_eq!(Status::from_u8(2), Status::Unsupported);
    assert_eq!(Status::from_u8(1), Status::Error);
    assert_eq!(halves(0x1234_5678_9abc_def0), (0x9abc_def0, 0x1234_5678));
    let (device, which) = Device::identify(0x0a00_0000, MAGIC, VERSION, 2).expect("a device");
    assert_eq!((device.base(), which), (0x0a00_0000, 2));
    assert!(Device::identify(0x0a00_0000, MAGIC, VERSION, 0).is_none(), "an empty slot");
    assert!(Device::identify(0x0a00_0000, 0, VERSION, 2).is_none(), "not virtio");
    assert_eq!(Console::bytes_for("a\nb"), b"a\r\nb".to_vec());
}

#[test]
fn a_tile_is_two_sectors_on_the_disk() {
    assert_eq!(Disk::sector_of(tile(0, 0)), 0);
    assert_eq!(Disk::sector_of(tile(1, 3)), 38);
}

#[test]
fn a_stream_position_lands_on_its_object() {
    let order: Vec<ObjectId> = (0..8).map(|n| id(0, n)).collect();
    let mut stream = Stream::empty();
    stream.declare(&order).expect("room");
    stream.advance(3);
    assert_eq!(stream.next_after(id(0, 5)), NextUse::At(5));
    assert_eq!(stream.next_after(id(0, 1)), NextUse::At(9));
}

#[test]
fn the_next_use_written_is_the_next_occurrence() {
    let held: Vec<Access> = [1u16, 2, 1]
        .iter()
        .map(|n| Access {
            session: SessionId(1),
            object: id(0, *n),
        })
        .collect();
    let seen = Foresight::read(&held);
    assert_eq!(wanted_at(&seen, 1), NextUse::At(3));
    assert_eq!(wanted_at(&seen, 2), NextUse::Never);
}

#[test]
fn sessions_finish_at_evenly_spread_lengths() {
    let decode = Decode::of(4, 40);
    assert_eq!(decode.length(0), 10);
    assert_eq!(decode.length(3), 40);
    assert_eq!(Decode::of(0, 40).length(5), 0);
    assert_eq!(decode.header().model, "synth-8x16+kv");
    let one = Decode::of(1, 2).trace();
    // Two rounds of one session: each layer's 16 tiles and its KV prefix.
    assert_eq!(one.len(), 8 * (16 + 1) + 8 * (16 + 2));
    assert_eq!(one[16].object, block(1, 0, 0));
    assert!(Decode::of(3, 0).trace().is_empty());
}

#[test]
fn a_header_missing_a_line_is_a_bad_header() {
    let mut room = [Access {
        session: SessionId(0),
        object: ObjectId(0),
    }];
    assert_eq!(
        parse("mlos-trace 1\nmodel m\naccesses 0\n", &mut room),
        Err(Error::BadHeader)
    );
}

#[test]
fn what_render_writes_parses_back() {
    let written = [Access {
        session: SessionId(65535),
        object: ObjectId(u64::MAX),
    }];
    let header = Header {
        model: "m",
        source: "s",
    };
    let mut text = String::new();
    render(&mut text, header, &written).expect("a String accepts writes");
    assert_eq!(text, "mlos-trace 1\nmodel m\nsource s\naccesses 1\n65535 ffffffffffffffff\n");
    let mut room = [Access {
        session: SessionId(0),
        object: ObjectId(0),
    }];
    let trace = parse(&text, &mut room).expect("parses");
    assert_eq!(trace.accesses, &written);
    assert_eq!(trace.header, header);
}

#[test]
fn an_event_that_is_not_one_is_a_bad_access() {
    let mut room = [Access {
        session: SessionId(0),
        object: ObjectId(0),
    }];
    assert_eq!(
        from_events("{\"seq\":1,\"event\":\"placed\",\"object\":\"x\",\"session\":1}", &mut room),
        Err(Error::BadAccess)
    );
}

#[test]
fn a_backspace_undoes_a_keystroke() {
    let mut shell = Shell::default();
    let mut out = String::new();
    shell.feed(b'a', false, &mut out);
    shell.feed(b'b', false, &mut out);
    shell.feed(0x7f, false, &mut out);
    assert_eq!(out, "ab\x08 \x08");
    assert!(shell.feed(b'\n', false, &mut out).is_none());
    assert_eq!(out, "ab\x08 \x08\r\nno such command: a   (try `help`)\nmlsh> ");
}

#[test]
fn a_resident_tile_is_on_the_disk_and_in_the_arena() {
    let base = 0x4000_0000;
    let mut resident = weights();
    resident.resident_at = base + 0x400;
    resident.reuse_count = 2;
    let mut far = weights();
    far.resident_at = 0;
    let table = [(tile(0, 1), resident), (tile(7, 15), far)];
    let on_disk = stored(&table);
    assert_eq!(on_disk.len(), 2);
    assert_eq!((on_disk[0].start, on_disk[0].length), (1024, 1024));
    assert_eq!(on_disk[1].start, (7 * 16 + 15) * 1024);
    assert_eq!(on_disk[0].state, "resident");
    assert_eq!(on_disk[1].state, "never");
    let in_arena = placed(&table, base);
    assert_eq!(in_arena.len(), 1, "the tile that is not resident is not in the arena");
    assert_eq!((in_arena[0].start, in_arena[0].length), (0x400, 1024));
    assert_eq!(in_arena[0].reuse, 2);
    let every = rows(&table, base, tail(0x800, 0x1000));
    assert_eq!(every.len(), 4);
    assert_eq!(every[3].kind, "free");
    let mut out = String::new();
    of(&mut out, &table, base, 0x800, 0x1000, "r");
    assert!(out.contains("  \"region_name\": [\"layer 0 tile 1\", \"layer 7 tile 15\", \"layer 0 tile 1\", \"free at 0x800\"],\r\n"), "{out}");
    assert!(out.contains("  \"region_state\": [\"resident\", \"never\", \"resident\", \"fixed\"],\r\n"), "{out}");
    assert!(out.contains("  \"rel_kind\": [\"backs\"],\r\n"), "{out}");
}
