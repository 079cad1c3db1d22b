use decs_core::json::{
    extract_gameloop_tick, extract_params, extract_params_amount, extract_params_rid,
    extract_params_shard, extract_system,
};

#[test]
fn test_extract_from_set() {
    let set_payload = br#"
        {
            "params": {
                "mag": 20
            },
            "token": null,
            "cid": "bm3a0mhcl5cuoia4aju0"
        }
        "#;

    let val = extract_params(set_payload).unwrap();
    assert_eq!(val, r#"{"mag":20}"#);
}

#[test]
fn extract_params_cases() {
    assert_eq!(extract_params(b"not json"), None);
    // a well-formed envelope without params re-serializes it as null
    assert_eq!(extract_params(br#"{"token":null}"#).unwrap(), "null");
}

#[test]
fn extract_rid_and_amount() {
    let body = br#"{"params":{"rid":"a.b.c","amount":-3}}"#;
    assert_eq!(extract_params_rid(body).unwrap(), "a.b.c");
    assert_eq!(extract_params_amount(body).unwrap(), -3);
    // a missing amount counts as zero; a missing rid as absent
    let empty = br#"{"params":{}}"#;
    assert_eq!(extract_params_amount(empty).unwrap(), 0);
    assert_eq!(extract_params_rid(empty), None);
    assert_eq!(extract_params_amount(b"no"), None);
}

#[test]
fn extract_shard_record() {
    let body = br#"{"params":{"name":"alpha","capacity":50}}"#;
    let s = extract_params_shard(body).unwrap();
    assert_eq!(s.name, "alpha");
    assert_eq!(s.capacity, 50);
    // the current count defaults to zero on deserialize
    assert_eq!(s.current, 0);
    assert!(extract_params_shard(br#"{"params":{"capacity":50}}"#).is_none());
}

#[test]
fn extract_system_record() {
    let body = br#"{"name":"physics","framerate":10,"components":["pos","vel"]}"#;
    let s = extract_system(body).unwrap();
    assert_eq!(s.name, "physics");
    assert_eq!(s.framerate, 10);
    assert_eq!(s.components, vec!["pos", "vel"]);
    assert!(extract_system(br#"{"name":"x","framerate":10}"#).is_none());
}

#[test]
fn extract_tick() {
    let body = br#"{"seq_no":7,"elapsed_ms":100,"shard":"s1"}"#;
    let t = extract_gameloop_tick(body).unwrap();
    assert_eq!(t.seq_no, 7);
    assert_eq!(t.elapsed_ms, 100);
    assert_eq!(t.shard, "s1");
    assert!(extract_gameloop_tick(br#"{"seq_no":7}"#).is_none());
}
