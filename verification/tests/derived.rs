//! A trace built from a recording, not from a literal.

use mlos::abi::ObjectId;
use mlos::derive::from_events;
use mlos::objtab::SessionId;
use mlos::trace::{Access, Error};

/// Somewhere to parse into.
fn room(n: usize) -> Vec<Access> {
    vec![
        Access {
            session: SessionId(0),
            object: ObjectId(0)
        };
        n
    ]
}

/// One event line, as the event ring writes it once the marker is gone.
fn event(seq: u32, kind: &str, object: u64, session: u16) -> String {
    format!(
        "{{\"seq\":{seq},\"event\":\"{kind}\",\"region\":1,\"object\":\"{object}\",\
         \"session\":{session},\"offset\":0,\"bytes\":1024,\"cost\":3001024,\
         \"tier\":\"cold\",\"why\":\"\"}}"
    )
}

/// The ring's own bookkeeping line.
fn dropped(count: u32) -> String {
    format!(
        "{{\"seq\":0,\"event\":\"dropped\",\"region\":0,\"object\":\"0\",\"session\":0,\
         \"offset\":0,\"bytes\":{count},\"cost\":0,\"tier\":\"\",\"why\":\"\"}}"
    )
}

#[test]
fn every_kind_of_acquire_becomes_an_access() {
    let stream = [
        event(1, "placed", 100, 1),
        event(2, "hit", 100, 1),
        event(3, "refused", 200, 2),
        dropped(0),
    ]
    .join("\n");

    let mut into = room(8);
    let filled = from_events(&stream, &mut into).expect("a clean stream");
    assert_eq!(filled, 3);
    assert_eq!(into[0].object, ObjectId(100));
    assert_eq!(into[2].object, ObjectId(200));
}

#[test]
fn the_session_is_read_rather_than_assumed() {
    let stream = [event(1, "placed", 100, 7), dropped(0)].join("\n");
    let mut into = room(4);
    from_events(&stream, &mut into).expect("a clean stream");
    assert_eq!(into[0].session, SessionId(7));
}

#[test]
fn order_is_preserved() {
    let stream: Vec<String> = (1..=5)
        .map(|at| event(at, "placed", u64::from(at) * 10, 1))
        .chain([dropped(0)])
        .collect();
    let mut into = room(8);
    let filled = from_events(&stream.join("\n"), &mut into).expect("a clean stream");
    let ids: Vec<u64> = into[..filled].iter().map(|a| a.object.0).collect();
    assert_eq!(ids, [10, 20, 30, 40, 50]);
}

#[test]
fn a_stream_that_lost_events_is_refused() {
    let stream = [event(1, "placed", 100, 1), dropped(12)].join("\n");
    let mut into = room(8);
    assert_eq!(from_events(&stream, &mut into), Err(Error::TooFew));
}

#[test]
fn a_stream_bigger_than_the_buffer_is_refused() {
    let stream: Vec<String> = (1..=10).map(|at| event(at, "hit", 1, 1)).collect();
    let mut into = room(4);
    assert_eq!(
        from_events(&stream.join("\n"), &mut into),
        Err(Error::TooMany)
    );
}
