use decs_core::components::handle_message as component_message;
use decs_core::store::Store;
use decs_core::systems::{handle_message, handle_timer, system_modulus};
use decs_core::types::{Message, Payload, TimerTick};

fn msg(subject: &str, reply_to: &str, body: &str) -> Message {
    Message {
        subject: subject.to_string(),
        reply_to: reply_to.to_string(),
        body: body.as_bytes().to_vec(),
    }
}

/// Gives `entity` the component `component` in `shard`.
fn give_component(store: &mut Store, shard: &str, entity: &str, component: &str) {
    let set = msg(
        &format!("call.decs.components.{}.{}.{}.set", shard, entity, component),
        "",
        r#"{"params":{"v":1}}"#,
    );
    component_message(store, &set).unwrap();
}

fn register(store: &mut Store, name: &str, framerate: u32, components: &[&str]) -> Vec<decs_core::types::Publication> {
    let comps = components
        .iter()
        .map(|c| format!("\"{}\"", c))
        .collect::<Vec<_>>()
        .join(",");
    let body = format!(
        r#"{{"name":"{}","framerate":{},"components":[{}]}}"#,
        name, framerate, comps
    );
    handle_message(store, &msg("decs.system.registry.replies", "", &body)).unwrap()
}

fn tick_body(seq_no: u64, elapsed_ms: u32, shard: &str) -> String {
    format!(
        r#"{{"seq_no":{},"elapsed_ms":{},"shard":"{}"}}"#,
        seq_no, elapsed_ms, shard
    )
}

#[test]
fn test_modulus() {
    // At 1 FPS, with an elapsed of 100ms, modulus should be 10 (how many elapseds in the FPS)
    assert_eq!(10, system_modulus(1, 100));
    assert_eq!(1, system_modulus(10, 100));
    assert_eq!(1, system_modulus(1, 1000));
}

#[test]
fn frame_rate_gating() {
    let mut store = Store::new();
    give_component(&mut store, "s1", "e1", "pos");
    give_component(&mut store, "s1", "e1", "vel");
    register(&mut store, "physics", 10, &["pos", "vel"]);

    // modulus = 1000/100/10 = 1: a frame on every tick
    for seq in 1..=3u64 {
        let pubs = handle_message(&mut store, &msg("decs.s1.gameloop", "", &tick_body(seq, 100, "s1")))
            .unwrap();
        assert_eq!(pubs.len(), 1, "seq {}", seq);
        assert_eq!(pubs[0].subject, "decs.frames.s1.physics");
        match &pubs[0].payload {
            Payload::Frame { frame } => {
                assert_eq!(frame.seq_no, seq);
                assert_eq!(frame.elapsed_ms, 100);
                assert_eq!(frame.shard, "s1");
                assert_eq!(frame.entity_id, "e1");
            },
            other => panic!("unexpected payload {:?}", other),
        }
    }

    // change the frame rate to 1: modulus = 10, frames only when seq % 10 == 0
    register(&mut store, "physics", 1, &["pos", "vel"]);
    let pubs = handle_message(&mut store, &msg("decs.s1.gameloop", "", &tick_body(11, 100, "s1")))
        .unwrap();
    assert_eq!(pubs.len(), 0);
    let pubs = handle_message(&mut store, &msg("decs.s1.gameloop", "", &tick_body(20, 100, "s1")))
        .unwrap();
    assert_eq!(pubs.len(), 1);
    match &pubs[0].payload {
        // the reported elapsed time covers the ten skipped ticks
        Payload::Frame { frame } => assert_eq!(frame.elapsed_ms, 1000),
        other => panic!("unexpected payload {:?}", other),
    }
}

#[test]
fn entity_set_intersection() {
    let mut store = Store::new();
    give_component(&mut store, "s1", "e1", "pos");
    give_component(&mut store, "s1", "e1", "vel");
    give_component(&mut store, "s1", "e2", "pos");
    register(&mut store, "physics", 10, &["pos", "vel"]);

    let pubs = handle_message(&mut store, &msg("decs.s1.gameloop", "", &tick_body(1, 100, "s1")))
        .unwrap();
    // exactly one frame, for e1; e2 lacks vel and is excluded
    assert_eq!(pubs.len(), 1);
    match &pubs[0].payload {
        Payload::Frame { frame } => assert_eq!(frame.entity_id, "e1"),
        other => panic!("unexpected payload {:?}", other),
    }
}

#[test]
fn registry_ping_and_upsert() {
    // at seq_no 200 the manager pings the registry with a reply subject
    let pubs = handle_timer(&TimerTick { seq_no: 200, elapsed_ms: 16 });
    assert_eq!(pubs.len(), 1);
    assert_eq!(pubs[0].subject, "decs.system.registry");
    assert_eq!(pubs[0].reply_to.as_deref(), Some("decs.system.registry.replies"));
    assert!(matches!(pubs[0].payload, Payload::Ping));
    // on other ticks it stays silent
    assert_eq!(handle_timer(&TimerTick { seq_no: 201, elapsed_ms: 16 }).len(), 0);

    // the first reply announces the new system, later ones a change
    let mut store = Store::new();
    let pubs = register(&mut store, "combat", 5, &["hp"]);
    assert_eq!(pubs.len(), 1);
    assert_eq!(pubs[0].subject, "event.decs.systems.add");
    match &pubs[0].payload {
        Payload::Add { value, idx } => {
            assert_eq!(value.rid, "decs.system.combat");
            assert_eq!(*idx, 0);
        },
        other => panic!("unexpected payload {:?}", other),
    }
    let pubs = register(&mut store, "combat", 5, &["hp"]);
    assert_eq!(pubs.len(), 1);
    assert_eq!(pubs[0].subject, "event.decs.system.combat.change");
    match &pubs[0].payload {
        Payload::SystemChange { system } => {
            assert_eq!(system.name, "combat");
            assert_eq!(system.framerate, 5);
            assert_eq!(system.components, vec!["hp"]);
        },
        other => panic!("unexpected payload {:?}", other),
    }
}

#[test]
fn system_gets_and_pruning() {
    let mut store = Store::new();
    register(&mut store, "combat", 5, &["hp", "pos"]);
    register(&mut store, "radar", 2, &["pos"]);

    let pubs = handle_message(&mut store, &msg("get.decs.systems", "r1", "")).unwrap();
    match &pubs[0].payload {
        Payload::Collection { rids } => {
            assert_eq!(rids.len(), 2);
            assert_eq!(rids[0].rid, "decs.system.combat");
            assert_eq!(rids[1].rid, "decs.system.radar");
        },
        other => panic!("unexpected payload {:?}", other),
    }

    let pubs = handle_message(&mut store, &msg("get.decs.system.combat", "r2", "")).unwrap();
    match &pubs[0].payload {
        Payload::SystemModel { name, framerate, components } => {
            assert_eq!(name, "combat");
            assert_eq!(*framerate, 5);
            // the gateway allows only primitive members: names joined by commas
            assert_eq!(components, "hp,pos");
        },
        other => panic!("unexpected payload {:?}", other),
    }

    // expire radar's record; the next gameloop read prunes it from the list
    store.remove_entry("system:radar");
    handle_message(
        &mut store,
        &msg("decs.s1.gameloop", "", r#"{"seq_no":3,"elapsed_ms":100,"shard":"s1"}"#),
    )
    .unwrap();
    let pubs = handle_message(&mut store, &msg("get.decs.systems", "r3", "")).unwrap();
    match &pubs[0].payload {
        Payload::Collection { rids } => {
            assert_eq!(rids.len(), 1);
            assert_eq!(rids[0].rid, "decs.system.combat");
        },
        other => panic!("unexpected payload {:?}", other),
    }

    // the access subject grants read access
    let pubs = handle_message(&mut store, &msg("access.decs.system.combat", "r4", "")).unwrap();
    assert!(matches!(pubs[0].payload, Payload::AccessGetOnly));

    // an unknown single system propagates a failure, with no reply
    assert_eq!(
        handle_message(&mut store, &msg("get.decs.system.ghost", "r5", "")),
        Err(decs_core::types::HandlerError::NotFound)
    );
}
