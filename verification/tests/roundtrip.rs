use decs_core::subject::ResProtocolRequest;

#[test]
fn test_resprotocol_roundtrip() {
    let mut subject = "call.decs.components.the_void.player1.radar_contacts.new";
    let mut req = ResProtocolRequest::from(subject);
    assert_eq!(
        req,
        ResProtocolRequest::New("decs.components.the_void.player1.radar_contacts".into())
    );
    assert_eq!(
        req.to_string(),
        "call.decs.components.the_void.player1.radar_contacts.new"
    );

    subject = "call.decs.components.the_void.player1.radar_contacts.delete";
    req = ResProtocolRequest::from(subject);
    assert_eq!(
        req,
        ResProtocolRequest::Delete("decs.components.the_void.player1.radar_contacts".into())
    );
    assert_eq!(
        req.to_string(),
        "call.decs.components.the_void.player1.radar_contacts.delete"
    );

    subject = "get.decs.components.the_void.player1.radar_contacts.1";
    req = ResProtocolRequest::from(subject);
    assert_eq!(
        req,
        ResProtocolRequest::Get("decs.components.the_void.player1.radar_contacts.1".into())
    );
    assert_eq!(
        req.to_string(),
        "get.decs.components.the_void.player1.radar_contacts.1"
    );

    subject = "call.decs.components.the_void.player1.position.set";
    req = ResProtocolRequest::from(subject);
    assert_eq!(
        req,
        ResProtocolRequest::SetValue("decs.components.the_void.player1.position".into())
    );
    assert_eq!(
        req.to_string(),
        "call.decs.components.the_void.player1.position.set"
    );

    subject = "access.decs.components.the_void.player1.radar_contacts.1";
    req = ResProtocolRequest::from(subject);
    assert_eq!(
        req,
        ResProtocolRequest::Access("decs.components.the_void.player1.radar_contacts.1".into())
    );
    assert_eq!(
        req.to_string(),
        "access.decs.components.the_void.player1.radar_contacts.1"
    );

    subject = "call.decs.shard.the_void.set";
    req = ResProtocolRequest::from(subject);
    assert_eq!(req, ResProtocolRequest::SetValue("decs.shard.the_void".into()));
    assert_eq!(req.to_string(), "call.decs.shard.the_void.set");

    subject = "call.decs.shard.the_void.incr";
    req = ResProtocolRequest::from(subject);
    assert_eq!(
        req,
        ResProtocolRequest::Call("decs.shard.the_void".into(), "incr".into())
    );
    assert_eq!(req.to_string(), "call.decs.shard.the_void.incr");
}

#[test]
fn lib_test_resprotocol_roundtrip() {
    let mut subject = "call.decs.components.the_void.player1.radar_contacts.new";
    let mut req = ResProtocolRequest::from(subject);
    assert_eq!(
        req,
        ResProtocolRequest::New("decs.components.the_void.player1.radar_contacts".into())
    );
    assert_eq!(
        req.to_string(),
        "call.decs.components.the_void.player1.radar_contacts.new"
    );

    subject = "call.decs.components.the_void.player1.radar_contacts.delete";
    req = ResProtocolRequest::from(subject);
    assert_eq!(
        req,
        ResProtocolRequest::Delete("decs.components.the_void.player1.radar_contacts".into())
    );
    assert_eq!(
        req.to_string(),
        "call.decs.components.the_void.player1.radar_contacts.delete"
    );

    subject = "get.decs.components.the_void.player1.radar_contacts.1";
    req = ResProtocolRequest::from(subject);
    assert_eq!(
        req,
        ResProtocolRequest::Get("decs.components.the_void.player1.radar_contacts.1".into())
    );
    assert_eq!(
        req.to_string(),
        "get.decs.components.the_void.player1.radar_contacts.1"
    );

    subject = "call.decs.components.the_void.player1.position.set";
    req = ResProtocolRequest::from(subject);
    assert_eq!(
        req,
        ResProtocolRequest::SetValue("decs.components.the_void.player1.position".into())
    );
    assert_eq!(
        req.to_string(),
        "call.decs.components.the_void.player1.position.set"
    );

    subject = "access.decs.components.the_void.player1.radar_contacts.1";
    req = ResProtocolRequest::from(subject);
    assert_eq!(
        req,
        ResProtocolRequest::Access("decs.components.the_void.player1.radar_contacts.1".into())
    );
    assert_eq!(
        req.to_string(),
        "access.decs.components.the_void.player1.radar_contacts.1"
    );

    subject = "call.decs.shard.the_void.set";
    req = ResProtocolRequest::from(subject);
    assert_eq!(req, ResProtocolRequest::SetValue("decs.shard.the_void".into()));
    assert_eq!(req.to_string(), "call.decs.shard.the_void.set");

    subject = "call.decs.shard.the_void.incr";
    req = ResProtocolRequest::from(subject);
    assert_eq!(
        req,
        ResProtocolRequest::Call("decs.shard.the_void".into(), "incr".into())
    );
    assert_eq!(req.to_string(), "call.decs.shard.the_void.incr");
}

#[test]
fn roundtrip_of_unknown_subject() {
    let req = ResProtocolRequest::from("ping.decs.shards");
    assert_eq!(req, ResProtocolRequest::Unknown);
    assert_eq!(req.to_string(), "??");
}

#[test]
fn subject_grammar_edges() {
    // a two-token custom call has an empty resource id and cannot round trip
    assert_eq!(ResProtocolRequest::from("call.a"), ResProtocolRequest::Unknown);
    // the verb suffixes need a resource id of their own to count
    assert_eq!(ResProtocolRequest::from("call.new"), ResProtocolRequest::Unknown);
    assert_eq!(
        ResProtocolRequest::from("call.x.set"),
        ResProtocolRequest::SetValue("x".into())
    );
    // a custom method may sit on a dotted resource id
    assert_eq!(
        ResProtocolRequest::from("call.a.b.c"),
        ResProtocolRequest::Call("a.b".into(), "c".into())
    );
    assert_eq!(ResProtocolRequest::from("get."), ResProtocolRequest::Get("".into()));
}
