use decs_core::keys::{
    change_subject, component_entities_key, component_key, count_key, entities_key, gameloop_subject,
    id_key, incr_subject, rid_key, shard_key, shard_rid, system_key, type_key,
};
use decs_core::text::{
    contains_str, ends_with, i64_to_string, join_strings, replace_char, split_str, starts_with,
    str_eq, u64_to_string,
};

fn tokens_of(subject: &str) -> Vec<String> {
    subject.split('.').map(|s| s.to_string()).collect()
}

#[test]
fn test_entities_key_extraction() {
    let subject = "decs.components.the_void.abc1234.position";
    let tokens = tokens_of(subject);
    assert_eq!(
        "decs:the_void:position:entities",
        component_entities_key(&tokens)
    )
}

#[test]
fn test_key_extraction() {
    let subject1 = "decs.components.the_void.abc1234.position";
    let subject3 = "decs.components.the_void.abc1234.radar_contacts";
    let tokens = tokens_of(subject1);
    let tokens3 = tokens_of(subject3);

    assert_eq!(
        "decs:components:the_void:abc1234:position",
        component_key(&tokens)
    );

    assert_eq!(
        "decs:components:the_void:abc1234:radar_contacts",
        component_key(&tokens3)
    );
}

#[test]
fn derived_keys_and_subjects() {
    assert_eq!(rid_key("decs.shard.alpha"), "decs:shard:alpha");
    assert_eq!(type_key("a.b"), "a:b:type");
    assert_eq!(id_key("a.b"), "a:b:id");
    assert_eq!(entities_key("s1", "pos"), "decs:s1:pos:entities");
    assert_eq!(shard_key("s1"), "decs:shard:s1");
    assert_eq!(count_key("s1"), "decs:shard:s1:count");
    assert_eq!(system_key("physics"), "system:physics");
    assert_eq!(shard_rid("s1"), "decs.shard.s1");
    assert_eq!(change_subject("decs.shard.s1"), "event.decs.shard.s1.change");
    assert_eq!(incr_subject("s1"), "call.decs.shard.s1.incr");
    assert_eq!(gameloop_subject("s1"), "decs.s1.gameloop");
}

#[test]
fn text_utilities() {
    assert!(starts_with("get.decs.shards", "get."));
    assert!(!starts_with("get", "get."));
    assert!(ends_with("decs.a.gameloop", ".gameloop"));
    assert!(!ends_with("loop", ".gameloop"));
    assert!(str_eq("abc", "abc"));
    assert!(!str_eq("abc", "abd"));
    assert!(contains_str("/system/one", "system"));
    assert!(!contains_str("/sys/one", "system"));
    assert_eq!(replace_char("a.b.c", '.', ':'), "a:b:c");
    let parts = split_str("a.b..c", '.');
    assert_eq!(parts, vec!["a", "b", "", "c"]);
    assert_eq!(split_str("", '.'), vec![""]);
    let joined = join_strings(&vec!["a".to_string(), "b".to_string()], ":");
    assert_eq!(joined, "a:b");
    assert_eq!(u64_to_string(0), "0");
    assert_eq!(u64_to_string(90210), "90210");
    assert_eq!(i64_to_string(-7), "-7");
    assert_eq!(i64_to_string(1), "1");
}
