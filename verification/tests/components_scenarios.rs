use decs_core::components::{handle_call, handle_message};
use decs_core::store::Store;
use decs_core::types::{HandlerError, Message, Operation, Payload, Publication};

fn msg(subject: &str, reply_to: &str, body: &str) -> Message {
    Message {
        subject: subject.to_string(),
        reply_to: reply_to.to_string(),
        body: body.as_bytes().to_vec(),
    }
}

fn incr_amount(p: &Publication) -> Option<i32> {
    match p.payload {
        Payload::Incr { amount } => Some(amount),
        _ => None,
    }
}

#[test]
fn set_model_twice_then_delete() {
    let mut store = Store::new();
    let set = msg(
        "call.decs.components.shard1.e9.position.set",
        "",
        r#"{"params":{"x":1,"y":2},"token":null,"cid":"c1"}"#,
    );
    let pubs = handle_message(&mut store, &set).unwrap();
    assert_eq!(pubs.len(), 2);
    assert_eq!(pubs[0].subject, "call.decs.shard.shard1.incr");
    assert_eq!(incr_amount(&pubs[0]), Some(1));
    assert_eq!(pubs[1].subject, "event.decs.components.shard1.e9.position.change");
    match &pubs[1].payload {
        Payload::Change { values } => assert_eq!(values, r#"{"x":1,"y":2}"#),
        other => panic!("unexpected payload {:?}", other),
    }

    // the same value again: idempotent, no change event and no increment
    let pubs = handle_message(&mut store, &set).unwrap();
    assert_eq!(pubs.len(), 0);

    // a different value: a change event but still no increment
    let set2 = msg(
        "call.decs.components.shard1.e9.position.set",
        "",
        r#"{"params":{"x":3,"y":2},"token":null,"cid":"c1"}"#,
    );
    let pubs = handle_message(&mut store, &set2).unwrap();
    assert_eq!(pubs.len(), 1);
    assert_eq!(pubs[0].subject, "event.decs.components.shard1.e9.position.change");

    // delete: one decrement, and the value is gone
    let del = msg("call.decs.components.shard1.e9.position.delete", "", "{}");
    let pubs = handle_message(&mut store, &del).unwrap();
    assert_eq!(pubs.len(), 1);
    assert_eq!(incr_amount(&pubs[0]), Some(-1));

    let get = msg("get.decs.components.shard1.e9.position", "reply9", "");
    let pubs = handle_message(&mut store, &get).unwrap();
    assert_eq!(pubs.len(), 1);
    assert_eq!(pubs[0].subject, "reply9");
    match &pubs[0].payload {
        Payload::ProtocolError { code, message } => {
            assert_eq!(code.code_str(), "system.notFound");
            assert_eq!(message, "No such component");
        },
        other => panic!("unexpected payload {:?}", other),
    }
}

#[test]
fn get_model_returns_stored_value() {
    let mut store = Store::new();
    let set = msg(
        "call.decs.components.the_void.abc.position.set",
        "rs",
        r#"{"params":{"mag":20}}"#,
    );
    let pubs = handle_message(&mut store, &set).unwrap();
    // with a reply subject, the set also acknowledges
    assert!(matches!(pubs.last().unwrap().payload, Payload::Success));
    assert_eq!(pubs.last().unwrap().subject, "rs");

    let get = msg("get.decs.components.the_void.abc.position", "r1", "");
    let pubs = handle_message(&mut store, &get).unwrap();
    assert_eq!(pubs.len(), 1);
    match &pubs[0].payload {
        Payload::Model { model } => assert_eq!(model, r#"{"mag":20}"#),
        other => panic!("unexpected payload {:?}", other),
    }
}

#[test]
fn collection_lifecycle() {
    let mut store = Store::new();
    let parent = "decs.components.the_void.player1.radar_contacts";
    let new1 = msg(
        "call.decs.components.the_void.player1.radar_contacts.new",
        "r1",
        r#"{"params":{"foo":1}}"#,
    );
    let pubs = handle_message(&mut store, &new1).unwrap();
    assert_eq!(pubs.len(), 3);
    assert_eq!(pubs[0].subject, format!("event.{}.add", parent));
    match &pubs[0].payload {
        Payload::Add { value, idx } => {
            assert!(value.rid.ends_with(".1"));
            assert_eq!(*idx, 0);
        },
        other => panic!("unexpected payload {:?}", other),
    }
    assert_eq!(incr_amount(&pubs[1]), Some(1));
    assert_eq!(pubs[1].subject, "call.decs.shard.the_void.incr");
    let child1 = match &pubs[2].payload {
        Payload::NewItem { rid } => rid.rid.clone(),
        other => panic!("unexpected payload {:?}", other),
    };
    assert_eq!(child1, format!("{}.1", parent));

    let new2 = msg(
        "call.decs.components.the_void.player1.radar_contacts.new",
        "r2",
        r#"{"params":{"foo":2}}"#,
    );
    let pubs = handle_message(&mut store, &new2).unwrap();
    match &pubs[0].payload {
        Payload::Add { value, idx } => {
            assert!(value.rid.ends_with(".2"));
            assert_eq!(*idx, 1);
        },
        other => panic!("unexpected payload {:?}", other),
    }

    // reading the parent now yields the two children in order
    let get = msg(
        "get.decs.components.the_void.player1.radar_contacts",
        "r3",
        "",
    );
    let pubs = handle_message(&mut store, &get).unwrap();
    match &pubs[0].payload {
        Payload::Collection { rids } => {
            assert_eq!(rids.len(), 2);
            assert_eq!(rids[0].rid, format!("{}.1", parent));
            assert_eq!(rids[1].rid, format!("{}.2", parent));
        },
        other => panic!("unexpected payload {:?}", other),
    }

    // delete the first child through the parent
    let del = msg(
        "call.decs.components.the_void.player1.radar_contacts.delete",
        "",
        &format!(r#"{{"params":{{"rid":"{}"}}}}"#, child1),
    );
    let pubs = handle_message(&mut store, &del).unwrap();
    assert_eq!(pubs.len(), 2);
    assert_eq!(pubs[0].subject, format!("event.{}.remove", parent));
    match &pubs[0].payload {
        Payload::Remove { idx } => assert_eq!(*idx, 0),
        other => panic!("unexpected payload {:?}", other),
    }
    assert_eq!(incr_amount(&pubs[1]), Some(-1));

    // the child's value is gone; the second child remains at position 0
    let pubs = handle_message(&mut store, &get).unwrap();
    match &pubs[0].payload {
        Payload::Collection { rids } => {
            assert_eq!(rids.len(), 1);
            assert_eq!(rids[0].rid, format!("{}.2", parent));
        },
        other => panic!("unexpected payload {:?}", other),
    }
}

#[test]
fn access_is_granted() {
    let mut store = Store::new();
    let m = msg("access.decs.components.the_void.p1.position", "ra", "");
    let pubs = handle_message(&mut store, &m).unwrap();
    assert_eq!(pubs.len(), 1);
    assert_eq!(pubs[0].subject, "ra");
    assert!(matches!(pubs[0].payload, Payload::AccessGranted));
}

#[test]
fn component_error_cases() {
    let mut store = Store::new();
    // a body that is not JSON cannot be decoded
    let bad = msg("call.decs.components.s.e.c.set", "", "not json");
    assert_eq!(handle_message(&mut store, &bad), Err(HandlerError::Decode));
    // a resource id with too few tokens is a bad subject
    let short = msg("call.decs.position.set", "", r#"{"params":{}}"#);
    assert_eq!(handle_message(&mut store, &short), Err(HandlerError::BadSubject));
    // a custom method is not a component-manager request
    let custom = msg("call.decs.components.s.e.c.fire", "", "{}");
    assert_eq!(
        handle_message(&mut store, &custom),
        Err(HandlerError::UnknownRequest)
    );
}

#[test]
fn handle_call_dispatch() {
    let mut store = Store::new();
    let ok = handle_call(&mut store, Operation::HealthRequest, None).unwrap();
    assert_eq!(ok.len(), 0);
    assert_eq!(
        handle_call(&mut store, Operation::DeliverMessage, None),
        Err(HandlerError::MissingPayload)
    );
    assert_eq!(
        handle_call(&mut store, Operation::Other, None),
        Err(HandlerError::BadDispatch)
    );
}
