use decs_core::components::handle_message as component_message;
use decs_core::shards::handle_message as shard_message;
use decs_core::store::Store;
use decs_core::types::{Message, Payload};

fn msg(subject: &str, reply_to: &str, body: &str) -> Message {
    Message {
        subject: subject.to_string(),
        reply_to: reply_to.to_string(),
        body: body.as_bytes().to_vec(),
    }
}

/// Sends one request to the component manager and forwards every shard
/// increment it publishes to the shard manager, as the broker would.
fn component_call(store: &mut Store, subject: &str, body: &str) {
    let pubs = component_message(store, &msg(subject, "", body)).unwrap();
    for p in pubs {
        if let Payload::Incr { amount } = p.payload {
            let incr_body = format!(r#"{{"params":{{"amount":{}}}}}"#, amount);
            shard_message(store, &msg(&p.subject, "", &incr_body)).unwrap();
        }
    }
}

fn current_of(store: &mut Store, shard: &str) -> u32 {
    let pubs = shard_message(store, &msg(&format!("get.decs.shard.{}", shard), "r", "")).unwrap();
    match &pubs[0].payload {
        Payload::ShardModel { shard } => shard.current,
        other => panic!("unexpected payload {:?}", other),
    }
}

#[test]
fn count_accuracy_over_a_sequence() {
    let mut store = Store::new();
    shard_message(
        &mut store,
        &msg(
            "call.decs.shard.shard1.set",
            "",
            r#"{"params":{"name":"shard1","capacity":100,"current":0}}"#,
        ),
    )
    .unwrap();

    component_call(
        &mut store,
        "call.decs.components.shard1.e1.pos.set",
        r#"{"params":{"x":1}}"#,
    );
    assert_eq!(current_of(&mut store, "shard1"), 1);

    component_call(
        &mut store,
        "call.decs.components.shard1.e1.vel.set",
        r#"{"params":{"d":2}}"#,
    );
    assert_eq!(current_of(&mut store, "shard1"), 2);

    // overwriting an existing value adds nothing
    component_call(
        &mut store,
        "call.decs.components.shard1.e1.pos.set",
        r#"{"params":{"x":9}}"#,
    );
    assert_eq!(current_of(&mut store, "shard1"), 2);

    // a collection item counts as one component value
    component_call(
        &mut store,
        "call.decs.components.shard1.e1.contacts.new",
        r#"{"params":{"mag":3}}"#,
    );
    assert_eq!(current_of(&mut store, "shard1"), 3);

    // deleting a value gives its count back
    component_call(&mut store, "call.decs.components.shard1.e1.pos.delete", "{}");
    assert_eq!(current_of(&mut store, "shard1"), 2);

    // the count equals the total size of the membership sets:
    // vel has e1, contacts has e1, pos is empty again
    assert_eq!(store.kv_set_members("decs:shard1:vel:entities"), vec!["e1"]);
    assert_eq!(store.kv_set_members("decs:shard1:contacts:entities"), vec!["e1"]);
    assert_eq!(store.kv_set_members("decs:shard1:pos:entities"), Vec::<String>::new());
}

#[test]
fn type_tags_are_stable() {
    let mut store = Store::new();
    // first write declares the kind: a set makes a model ...
    component_message(
        &mut store,
        &msg("call.decs.components.s.e.position.set", "", r#"{"params":{"x":1}}"#),
    )
    .unwrap();
    // ... and a new makes a collection
    component_message(
        &mut store,
        &msg("call.decs.components.s.e.contacts.new", "", r#"{"params":{"m":1}}"#),
    )
    .unwrap();
    assert_eq!(store.kv_get_str("decs:components:s:e:position:type").unwrap(), "M");
    assert_eq!(store.kv_get_str("decs:components:s:e:contacts:type").unwrap(), "C");

    // later writes of the same kinds leave both tags as they were
    component_message(
        &mut store,
        &msg("call.decs.components.s.e.position.set", "", r#"{"params":{"x":2}}"#),
    )
    .unwrap();
    component_message(
        &mut store,
        &msg("call.decs.components.s.e.contacts.new", "", r#"{"params":{"m":2}}"#),
    )
    .unwrap();
    assert_eq!(store.kv_get_str("decs:components:s:e:position:type").unwrap(), "M");
    assert_eq!(store.kv_get_str("decs:components:s:e:contacts:type").unwrap(), "C");

    // the child items of the collection are models of their own
    assert_eq!(
        store.kv_get_str("decs:components:s:e:contacts:1:type").unwrap(),
        "M"
    );
}
