use decs_core::gameloop::tick;
use decs_core::rest::QueryOperation;
use decs_core::store::Store;
use decs_core::timer::TimerConfig;
use decs_core::types::{error_invalid_params, error_not_found, model_result, success_response,
    ErrorCode, GameLoopTick, Payload, Shard, TimerTick};

#[test]
fn store_operations() {
    let mut store = Store::new();
    assert!(!store.kv_exists("k1"));
    store.kv_set_str("k1", "v1");
    assert!(store.kv_exists("k1"));
    assert_eq!(store.kv_get_str("k1").unwrap(), "v1");
    store.kv_set_str("k1", "v2");
    assert_eq!(store.kv_get_str("k1").unwrap(), "v2");
    store.remove_entry("k1");
    assert_eq!(store.kv_get_str("k1"), None);

    assert_eq!(store.kv_list_add("l", "a"), 1);
    assert_eq!(store.kv_list_add("l", "b"), 2);
    assert_eq!(store.kv_list_add("l", "a"), 3);
    assert_eq!(store.kv_list_all("l"), vec!["a", "b", "a"]);
    assert_eq!(store.kv_list_index_of("l", "b"), Some(1));
    assert_eq!(store.kv_list_index_of("l", "zz"), None);
    assert_eq!(store.kv_list_del_item("l", "a"), 2);
    assert_eq!(store.kv_list_all("l"), vec!["b"]);

    assert_eq!(store.kv_set_add("s", "x"), 1);
    assert_eq!(store.kv_set_add("s", "x"), 0);
    assert_eq!(store.kv_set_add("s", "y"), 1);
    assert_eq!(store.kv_set_members("s"), vec!["x", "y"]);
    assert!(store.kv_set_contains("s", "y"));
    assert_eq!(store.kv_set_remove("s", "x"), 1);
    assert_eq!(store.kv_set_remove("s", "x"), 0);
    assert_eq!(store.kv_set_members("s"), vec!["y"]);

    assert_eq!(store.kv_atomic_add("n", 41), Some(41));
    assert_eq!(store.kv_atomic_add("n", 1), Some(42));
    assert_eq!(store.kv_get_num("n"), 42);
    assert_eq!(store.kv_get_num("absent"), 0);
}

#[test]
fn atomic_add_overflow_is_refused() {
    let mut store = Store::new();
    assert_eq!(store.kv_atomic_add("n", i64::MAX), Some(i64::MAX));
    assert_eq!(store.kv_atomic_add("n", 1), None);
    // the counter is untouched by the refused addition
    assert_eq!(store.kv_get_num("n"), i64::MAX);
}

#[test]
fn set_intersection() {
    let mut store = Store::new();
    store.kv_set_add("sa", "e1");
    store.kv_set_add("sa", "e2");
    store.kv_set_add("sa", "e3");
    store.kv_set_add("sb", "e3");
    store.kv_set_add("sb", "e1");
    let keys = vec!["sa".to_string(), "sb".to_string()];
    assert_eq!(store.kv_set_intersect(&keys), vec!["e1", "e3"]);
    assert_eq!(store.kv_set_intersect(&Vec::new()), Vec::<String>::new());
}

#[test]
fn ticker_fans_out_per_shard() {
    let mut store = Store::new();
    store.kv_set_add("decs:shards", "alpha");
    store.kv_set_add("decs:shards", "beta");
    let pubs = tick(&store, &TimerTick { seq_no: 4, elapsed_ms: 250 });
    assert_eq!(pubs.len(), 2);
    assert_eq!(pubs[0].subject, "decs.alpha.gameloop");
    assert_eq!(pubs[1].subject, "decs.beta.gameloop");
    match &pubs[0].payload {
        Payload::Tick { tick } => {
            assert_eq!(tick.seq_no, 4);
            assert_eq!(tick.elapsed_ms, 250);
            assert_eq!(tick.shard, "alpha");
        },
        other => panic!("unexpected payload {:?}", other),
    }
}

#[test]
fn test_delay_default() {
    let t = TimerConfig::new(None, None);
    assert_eq!(t.get_delay_ms(), 1000);
}

#[test]
fn test_explicit_delay() {
    // ask for 4 FPS
    let t = TimerConfig::new(Some(4), None);
    assert_eq!(t.get_delay_ms(), 250);
}

#[test]
fn test_limited_delay() {
    // ask for 15, which exceeds the cap
    let t = TimerConfig::new(Some(15), None);
    assert_eq!(t.get_delay_ms(), 100);
}

#[test]
fn test_queryop_parse() {
    assert_eq!(
        QueryOperation::from("/system/system-12"),
        QueryOperation::GetSystem("system-12".to_string())
    );
    assert_eq!(
        QueryOperation::from("system/system-12"),
        QueryOperation::GetSystem("system-12".to_string())
    );

    assert_eq!(
        QueryOperation::from("systems"),
        QueryOperation::GetAllSystems
    );

    assert_eq!(
        QueryOperation::from("flooferdoof"),
        QueryOperation::NotValid
    );

    assert_eq!(
        QueryOperation::from("systems/system20"),
        QueryOperation::NotValid
    );
}

#[test]
fn codec_types() {
    let v = Shard::the_void();
    assert_eq!(v.name, "the_void");
    assert_eq!(v.capacity, 1000);
    assert_eq!(v.current, 0);
    let g = GameLoopTick::from_tick(&TimerTick { seq_no: 9, elapsed_ms: 16 }, "alpha");
    assert_eq!(g.seq_no, 9);
    assert_eq!(g.elapsed_ms, 16);
    assert_eq!(g.shard, "alpha");
}

#[test]
fn gateway_responses() {
    assert!(matches!(success_response(), Payload::Success));
    match model_result("{}".to_string()) {
        Payload::Model { model } => assert_eq!(model, "{}"),
        other => panic!("unexpected payload {:?}", other),
    }
    match error_not_found("gone") {
        Payload::ProtocolError { code, message } => {
            assert_eq!(code, ErrorCode::NotFound);
            assert_eq!(code.code_str(), "system.notFound");
            assert_eq!(message, "gone");
        },
        other => panic!("unexpected payload {:?}", other),
    }
    match error_invalid_params("why") {
        Payload::ProtocolError { code, message } => {
            assert_eq!(code.code_str(), "system.invalidParams");
            assert_eq!(message, "why");
        },
        other => panic!("unexpected payload {:?}", other),
    }
}
