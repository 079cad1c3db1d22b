use decs_core::shards::handle_message;
use decs_core::store::Store;
use decs_core::types::{HandlerError, Message, Payload};

fn msg(subject: &str, reply_to: &str, body: &str) -> Message {
    Message {
        subject: subject.to_string(),
        reply_to: reply_to.to_string(),
        body: body.as_bytes().to_vec(),
    }
}

#[test]
fn empty_shards_get_creates_the_void() {
    let mut store = Store::new();
    let get = msg("get.decs.shards", "r1", "");
    let pubs = handle_message(&mut store, &get).unwrap();
    assert_eq!(pubs.len(), 2);
    assert_eq!(pubs[0].subject, "event.decs.shards.add");
    match &pubs[0].payload {
        Payload::Add { value, idx } => {
            assert_eq!(value.rid, "decs.shard.the_void");
            assert_eq!(*idx, 0);
        },
        other => panic!("unexpected payload {:?}", other),
    }
    assert_eq!(pubs[1].subject, "r1");
    match &pubs[1].payload {
        Payload::Collection { rids } => {
            assert_eq!(rids.len(), 1);
            assert_eq!(rids[0].rid, "decs.shard.the_void");
        },
        other => panic!("unexpected payload {:?}", other),
    }

    // the store now holds the default shard with capacity 1000, current 0
    let single = msg("get.decs.shard.the_void", "r2", "");
    let pubs = handle_message(&mut store, &single).unwrap();
    assert_eq!(pubs.len(), 1);
    match &pubs[0].payload {
        Payload::ShardModel { shard } => {
            assert_eq!(shard.name, "the_void");
            assert_eq!(shard.capacity, 1000);
            assert_eq!(shard.current, 0);
        },
        other => panic!("unexpected payload {:?}", other),
    }

    // a second registry read no longer creates anything
    let pubs = handle_message(&mut store, &get).unwrap();
    assert_eq!(pubs.len(), 1);
}

#[test]
fn set_then_change_then_incr() {
    let mut store = Store::new();
    let set = msg(
        "call.decs.shard.alpha.set",
        "",
        r#"{"params":{"name":"alpha","capacity":50,"current":0}}"#,
    );
    let pubs = handle_message(&mut store, &set).unwrap();
    assert_eq!(pubs.len(), 1);
    assert_eq!(pubs[0].subject, "event.decs.shards.add");

    // a second set of the same shard announces a change instead
    let pubs = handle_message(&mut store, &set).unwrap();
    assert_eq!(pubs.len(), 1);
    assert_eq!(pubs[0].subject, "event.decs.shard.alpha.change");

    // an increment adjusts the live count and announces the record
    let incr = msg(
        "call.decs.shard.alpha.incr",
        "",
        r#"{"params":{"amount":5}}"#,
    );
    let pubs = handle_message(&mut store, &incr).unwrap();
    assert_eq!(pubs.len(), 1);
    assert_eq!(pubs[0].subject, "event.decs.shard.alpha.change");
    match &pubs[0].payload {
        Payload::ShardChange { shard } => {
            assert_eq!(shard.name, "alpha");
            assert_eq!(shard.capacity, 50);
            assert_eq!(shard.current, 5);
        },
        other => panic!("unexpected payload {:?}", other),
    }

    // a zero amount is a no-op with no event
    let zero = msg(
        "call.decs.shard.alpha.incr",
        "",
        r#"{"params":{"amount":0}}"#,
    );
    let pubs = handle_message(&mut store, &zero).unwrap();
    assert_eq!(pubs.len(), 0);

    // the single-shard read reports the reconciled count
    let single = msg("get.decs.shard.alpha", "r2", "");
    let pubs = handle_message(&mut store, &single).unwrap();
    match &pubs[0].payload {
        Payload::ShardModel { shard } => assert_eq!(shard.current, 5),
        other => panic!("unexpected payload {:?}", other),
    }
}

#[test]
fn shard_error_cases() {
    let mut store = Store::new();
    // a single-shard get for an unknown shard replies not-found
    let single = msg("get.decs.shard.missing", "r1", "");
    let pubs = handle_message(&mut store, &single).unwrap();
    match &pubs[0].payload {
        Payload::ProtocolError { code, message } => {
            assert_eq!(code.code_str(), "system.notFound");
            assert_eq!(message, "No such component");
        },
        other => panic!("unexpected payload {:?}", other),
    }
    // a malformed single-shard subject is rejected
    let bad = msg("get.decs.shard.a.b", "r1", "");
    assert_eq!(handle_message(&mut store, &bad), Err(HandlerError::BadSubject));
    // an increment for a shard with no record fails after counting
    let incr = msg("call.decs.shard.ghost.incr", "", r#"{"params":{"amount":2}}"#);
    assert_eq!(handle_message(&mut store, &incr), Err(HandlerError::NotFound));
    // a set whose params cannot be decoded fails
    let bad_set = msg("call.decs.shard.alpha.set", "", r#"{"params":{"name":7}}"#);
    assert_eq!(handle_message(&mut store, &bad_set), Err(HandlerError::Decode));
    // an unknown call method is rejected
    let odd = msg("call.decs.shard.alpha.warp", "", "{}");
    assert_eq!(
        handle_message(&mut store, &odd),
        Err(HandlerError::UnknownRequest)
    );
}
