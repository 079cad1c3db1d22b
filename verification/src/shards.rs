//! The shard manager: maintains the shard registry, serves `decs.shards`
//! and `decs.shard.*` resource requests, and reconciles each shard's live
//! component count through an atomic increment endpoint.

use vstd::prelude::*;
use vstd::string::*;

use crate::json::{extract_params_amount, extract_params_shard, params_amount_of, params_shard_of};
use crate::keys::{
    count_key, shard_key, shard_rid, spec_count_key, spec_shard_key, spec_shard_rid,
    spec_shards_key, spec_type_key,
};
use crate::store::{num_at, shard_at, spec_index_of, str_at, uniq_at, vec_index_of, EntryV, Store};
use crate::subject::{spec_parse, ReqV, ResProtocolRequest};
use crate::text::{ends_with, spec_ends_with, spec_split, split_str, str_eq};
use crate::types::{
    error_not_found, is_access_reply, is_add_pub, is_collection_reply, is_error_reply,
    reply_publication, ErrorCode, HandlerError, Message, Payload, Publication, Shard, ShardV,
};
use crate::components::map_set_add;

verus! {

/// `p` publishes a change event for shard `name` carrying the record `s`.
pub open spec fn is_shard_change_pub(p: Publication, name: Seq<char>, s: ShardV) -> bool {
    p.subject@ == crate::keys::spec_change_subject(spec_shard_rid(name)) && p.reply_to is None && (
    p.payload matches Payload::ShardChange { shard } && shard@ == s)
}

/// `p` replies on `subject` with the shard record `s` as a model.
pub open spec fn is_shard_model_reply(p: Publication, subject: Seq<char>, s: ShardV) -> bool {
    p.subject@ == subject && p.reply_to is None && (p.payload matches Payload::ShardModel {
        shard,
    } && shard@ == s)
}

/// The registry position a shard upsert reports: the shard's place in the
/// registry set, existing or appended.
pub open spec fn shard_pos(pre: Map<Seq<char>, EntryV>, name: Seq<char>) -> int {
    let names = uniq_at(pre, spec_shards_key());
    if names.contains(name) {
        spec_index_of(names, name) as int
    } else {
        names.len() as int
    }
}

/// The store after a shard upsert: the name added to the registry set, the
/// record written.
pub open spec fn set_shard_post(
    pre: Map<Seq<char>, EntryV>,
    post: Map<Seq<char>, EntryV>,
    s: ShardV,
) -> bool {
    post == map_set_add(pre, spec_shards_key(), s.name).insert(
        spec_shard_key(s.name),
        EntryV::ShardRec(s),
    )
}

/// What a shard upsert publishes: an add event on the registry for a new
/// shard, a change event for an existing one.
pub open spec fn set_shard_pubs(
    pre: Map<Seq<char>, EntryV>,
    pubs: Seq<Publication>,
    s: ShardV,
) -> bool {
    let existed = uniq_at(pre, spec_shards_key()).contains(s.name);
    &&& pubs.len() == 1
    &&& (!existed ==> is_add_pub(pubs[0], "decs.shards"@, spec_shard_rid(s.name), shard_pos(
        pre,
        s.name,
    )))
    &&& (existed ==> is_shard_change_pub(pubs[0], s.name, s))
}

/// Creates or updates a shard record and announces it.
pub fn set_shard(store: &mut Store, shard: Shard) -> (r: Vec<Publication>)
    requires
        old(store).wf(),
    ensures
        final(store).wf(),
        set_shard_post(old(store)@, final(store)@, shard@),
        set_shard_pubs(old(store)@, r@, shard@),
{
    let name = shard.name.clone();
    let capacity = shard.capacity;
    let current = shard.current;
    let added = store.kv_set_add("decs:shards", name.as_str());
    let existed = added == 0;
    let members = store.kv_set_members("decs:shards");
    let pos = match vec_index_of(&members, name.as_str()) {
        Some(i) => i,
        None => 0,
    };
    proof {
        let names = uniq_at(old(store)@, spec_shards_key());
        if !names.contains(name@) {
            crate::store::lemma_index_of_unique(names.push(name@), name@, names.len() as int);
        }
    }
    let skey = shard_key(name.as_str());
    store.kv_set_shard(skey.as_str(), shard);
    let mut pubs: Vec<Publication> = Vec::new();
    if !existed {
        pubs.push(
            Publication {
                subject: crate::keys::add_subject("decs.shards"),
                reply_to: None,
                payload: Payload::Add {
                    value: crate::types::ResourceIdentifier { rid: shard_rid(name.as_str()) },
                    idx: pos,
                },
            },
        );
    } else {
        pubs.push(
            Publication {
                subject: crate::keys::change_subject(shard_rid(name.as_str()).as_str()),
                reply_to: None,
                payload: Payload::ShardChange {
                    shard: Shard { name: name.clone(), capacity, current },
                },
            },
        );
    }
    pubs
}

/// Replies on `reply_to` that all access is granted.
pub fn handle_access(reply_to: &str) -> (r: Vec<Publication>)
    ensures
        r@.len() == 1,
        is_access_reply(r@[0], reply_to@),
{
    let mut r: Vec<Publication> = Vec::new();
    r.push(reply_publication(reply_to, Payload::AccessGranted));
    r
}

/// Upserts the shard carried in the `params` member of the body.
pub fn handle_set(store: &mut Store, body: &[u8]) -> (r: Result<Vec<Publication>, HandlerError>)
    requires
        old(store).wf(),
    ensures
        final(store).wf(),
        match r {
            Ok(pubs) => params_shard_of(body@) matches Some((name, capacity, current)) && {
                let s = ShardV { name, capacity, current };
                set_shard_post(old(store)@, final(store)@, s) && set_shard_pubs(
                    old(store)@,
                    pubs@,
                    s,
                )
            },
            Err(e) => final(store)@ == old(store)@ && params_shard_of(body@) is None
                && e is Decode,
        },
{
    let shard = match extract_params_shard(body) {
        Some(s) => s,
        None => {
            return Err(HandlerError::Decode);
        },
    };
    Ok(set_shard(store, shard))
}

/// The names in the shard registry, as shard resource ids.
pub open spec fn shard_rids(names: Seq<Seq<char>>) -> Seq<Seq<char>> {
    names.map(|_i: int, n: Seq<char>| spec_shard_rid(n))
}

/// What a registry read does: with a non-empty registry, one collection
/// reply listing the shards; with an empty one, the default shard
/// `the_void` is created and announced first, then listed.
pub open spec fn get_shards_contract(
    pre: Map<Seq<char>, EntryV>,
    post: Map<Seq<char>, EntryV>,
    pubs: Seq<Publication>,
    reply: Seq<char>,
) -> bool {
    let names = uniq_at(pre, spec_shards_key());
    if names.len() == 0 {
        let v = ShardV { name: "the_void"@, capacity: 1000, current: 0 };
        &&& set_shard_post(pre, post, v)
        &&& pubs.len() == 2
        &&& set_shard_pubs(pre, pubs.subrange(0, 1), v)
        &&& is_collection_reply(pubs[1], reply, seq![spec_shard_rid("the_void"@)])
    } else {
        &&& post == pre
        &&& pubs.len() == 1
        &&& is_collection_reply(pubs[0], reply, shard_rids(names))
    }
}

/// Serves `get.decs.shards`: lists the registry, creating the default
/// shard when the registry is empty.
pub fn handle_get_collection(store: &mut Store, reply_to: &str) -> (r: Vec<Publication>)
    requires
        old(store).wf(),
    ensures
        final(store).wf(),
        get_shards_contract(old(store)@, final(store)@, r@, reply_to@),
{
    let names = store.kv_set_members("decs:shards");
    if names.len() == 0 {
        let thevoid = Shard::the_void();
        let mut pubs = set_shard(store, thevoid);
        let mut rids: Vec<crate::types::ResourceIdentifier> = Vec::new();
        rids.push(crate::types::ResourceIdentifier { rid: shard_rid("the_void") });
        proof {
            assert(crate::types::rids_of(rids@) =~= seq![spec_shard_rid("the_void"@)]);
        }
        let ghost first = pubs@;
        pubs.push(reply_publication(reply_to, Payload::Collection { rids }));
        proof {
            assert(pubs@.subrange(0, 1) =~= first);
        }
        pubs
    } else {
        let mut rids: Vec<crate::types::ResourceIdentifier> = Vec::new();
        let mut i: usize = 0;
        while i < names.len()
            invariant
                i <= names@.len(),
                rids@.len() == i,
                crate::types::rids_of(rids@) =~= shard_rids(
                    names.deep_view().subrange(0, i as int),
                ),
            decreases names@.len() - i,
        {
            let ghost prev = rids@;
            rids.push(crate::types::ResourceIdentifier { rid: shard_rid(names[i].as_str()) });
            proof {
                assert forall|t: int| 0 <= t < rids@.len() implies crate::types::rids_of(rids@)[t]
                    == shard_rids(names.deep_view().subrange(0, i + 1 as int))[t] by {
                    if t < i {
                        assert(rids@[t] == prev[t]);
                        assert(crate::types::rids_of(prev)[t] == shard_rids(
                            names.deep_view().subrange(0, i as int),
                        )[t]);
                    } else {
                        assert(rids@[t].rid@ == spec_shard_rid(names.deep_view()[t]));
                    }
                }
                assert(crate::types::rids_of(rids@) =~= shard_rids(
                    names.deep_view().subrange(0, i + 1 as int),
                ));
            }
            i += 1;
        }
        proof {
            assert(names.deep_view().subrange(0, names@.len() as int) =~= names.deep_view());
        }
        let mut pubs: Vec<Publication> = Vec::new();
        pubs.push(reply_publication(reply_to, Payload::Collection { rids }));
        pubs
    }
}

/// What a single-shard read replies: the record with its live count read
/// from the counter key, or a not-found error.
pub open spec fn get_single_pubs(
    pre: Map<Seq<char>, EntryV>,
    pubs: Seq<Publication>,
    name: Seq<char>,
    reply: Seq<char>,
) -> bool {
    match shard_at(pre, spec_shard_key(name)) {
        Some(rec) => pubs.len() == 1 && is_shard_model_reply(
            pubs[0],
            reply,
            ShardV {
                name: rec.name,
                capacity: rec.capacity,
                current: num_at(pre, spec_count_key(name)) as u32,
            },
        ),
        None => pubs.len() == 1 && is_error_reply(
            pubs[0],
            reply,
            ErrorCode::NotFound,
            "No such component"@,
        ),
    }
}

/// Serves `get.decs.shard.<name>`.
pub fn handle_get_single(store: &Store, subject: &str, reply_to: &str) -> (r: Result<
    Vec<Publication>,
    HandlerError,
>)
    requires
        store.wf(),
    ensures
        match r {
            Ok(pubs) => spec_split(subject@, '.').len() == 4 && get_single_pubs(
                store@,
                pubs@,
                spec_split(subject@, '.')[3],
                reply_to@,
            ),
            Err(e) => spec_split(subject@, '.').len() != 4 && e is BadSubject,
        },
{
    let tokens = split_str(subject, '.');
    if tokens.len() != 4 {
        return Err(HandlerError::BadSubject);
    }
    let name: &String = &tokens[3];
    let skey = shard_key(name.as_str());
    let mut pubs: Vec<Publication> = Vec::new();
    match store.kv_get_shard(skey.as_str()) {
        Some(rec) => {
            let ck = count_key(name.as_str());
            let current = store.kv_get_num(ck.as_str());
            pubs.push(
                reply_publication(
                    reply_to,
                    Payload::ShardModel {
                        shard: Shard {
                            name: rec.name,
                            capacity: rec.capacity,
                            current: #[verifier::truncate] (current as u32),
                        },
                    },
                ),
            );
        },
        None => {
            pubs.push(reply_publication(reply_to, error_not_found("No such component")));
        },
    }
    Ok(pubs)
}

/// What an increment does: adds the amount to the shard's counter and
/// announces the record with the new count; a zero amount is a no-op.
pub open spec fn incr_contract(
    pre: Map<Seq<char>, EntryV>,
    post: Map<Seq<char>, EntryV>,
    subject: Seq<char>,
    body: Seq<u8>,
    r: Result<Vec<Publication>, HandlerError>,
) -> bool {
    match params_amount_of(body) {
        Some(a) => {
            let amt = a as i32;
            let toks = spec_split(subject, '.');
            let name = toks[3];
            let ck = spec_count_key(name);
            let base = num_at(pre, ck);
            if amt == 0 {
                post == pre && (r matches Ok(pubs) && pubs@.len() == 0)
            } else if toks.len() < 4 {
                post == pre && (r matches Err(e) && e is BadSubject)
            } else if !(i64::MIN <= base + amt as i64 <= i64::MAX) {
                post == pre && (r matches Err(e) && e is Overflow)
            } else {
                match shard_at(pre, spec_shard_key(name)) {
                    Some(rec) => post == pre.insert(ck, EntryV::Num(base + amt as i64)) && (
                    r matches Ok(pubs) && pubs@.len() == 1 && is_shard_change_pub(
                        pubs@[0],
                        rec.name,
                        ShardV {
                            name: rec.name,
                            capacity: rec.capacity,
                            current: (base + amt as i64) as u32,
                        },
                    )),
                    None => post == pre.insert(ck, EntryV::Num(base + amt as i64)) && (
                    r matches Err(e) && e is NotFound),
                }
            }
        },
        None => post == pre && (r matches Err(e) && e is Decode),
    }
}

/// Serves `call.decs.shard.<name>.incr`: the component manager calls this
/// when it adds or removes a component value; the atomic counter keeps the
/// count accurate under concurrent writes.
pub fn handle_incr(store: &mut Store, subject: &str, body: &[u8]) -> (r: Result<
    Vec<Publication>,
    HandlerError,
>)
    requires
        old(store).wf(),
    ensures
        final(store).wf(),
        incr_contract(old(store)@, final(store)@, subject@, body@, r),
{
    let a = match extract_params_amount(body) {
        Some(a) => a,
        None => {
            return Err(HandlerError::Decode);
        },
    };
    let amt: i32 = #[verifier::truncate] (a as i32);
    if amt == 0 {
        return Ok(Vec::new());
    }
    let tokens = split_str(subject, '.');
    if tokens.len() < 4 {
        return Err(HandlerError::BadSubject);
    }
    let name: &String = &tokens[3];
    let ck = count_key(name.as_str());
    let res = match store.kv_atomic_add(ck.as_str(), amt as i64) {
        Some(res) => res,
        None => {
            return Err(HandlerError::Overflow);
        },
    };
    let skey = shard_key(name.as_str());
    proof {
        reveal_strlit("decs:shard:");
        reveal_strlit(":count");
        assert(spec_count_key(name@).len() == spec_shard_key(name@).len() + 6);
    }
    match store.kv_get_shard(skey.as_str()) {
        Some(rec) => {
            let rid = shard_rid(rec.name.as_str());
            let mut pubs: Vec<Publication> = Vec::new();
            pubs.push(
                Publication {
                    subject: crate::keys::change_subject(rid.as_str()),
                    reply_to: None,
                    payload: Payload::ShardChange {
                        shard: Shard {
                            name: rec.name,
                            capacity: rec.capacity,
                            current: #[verifier::truncate] (res as u32),
                        },
                    },
                },
            );
            Ok(pubs)
        },
        None => Err(HandlerError::NotFound),
    }
}

/// What handling one broker delivery does, by the request its subject
/// describes.
pub open spec fn message_contract(
    pre: Map<Seq<char>, EntryV>,
    post: Map<Seq<char>, EntryV>,
    subject: Seq<char>,
    reply: Seq<char>,
    body: Seq<u8>,
    r: Result<Vec<Publication>, HandlerError>,
) -> bool {
    match spec_parse(subject) {
        ReqV::Get(rid) => if spec_ends_with(subject, "shards"@) {
            r matches Ok(pubs) && get_shards_contract(pre, post, pubs@, reply)
        } else {
            post == pre && match r {
                Ok(pubs) => spec_split(subject, '.').len() == 4 && get_single_pubs(
                    pre,
                    pubs@,
                    spec_split(subject, '.')[3],
                    reply,
                ),
                Err(e) => spec_split(subject, '.').len() != 4 && e is BadSubject,
            }
        },
        ReqV::SetValue(rid) => match r {
            Ok(pubs) => params_shard_of(body) matches Some((name, capacity, current)) && {
                let s = ShardV { name, capacity, current };
                set_shard_post(pre, post, s) && set_shard_pubs(pre, pubs@, s)
            },
            Err(e) => post == pre && params_shard_of(body) is None && e is Decode,
        },
        ReqV::Access(rid) => post == pre && (r matches Ok(pubs) && pubs@.len() == 1
            && is_access_reply(pubs@[0], reply)),
        ReqV::Call(rid, method) => if method == "incr"@ {
            incr_contract(pre, post, subject, body, r)
        } else {
            post == pre && (r matches Err(e) && e is UnknownRequest)
        },
        _ => post == pre && (r matches Err(e) && e is UnknownRequest),
    }
}

/// Examines the subject of one broker delivery and serves the request it
/// describes.
pub fn handle_message(store: &mut Store, msg: &Message) -> (r: Result<
    Vec<Publication>,
    HandlerError,
>)
    requires
        old(store).wf(),
    ensures
        final(store).wf(),
        message_contract(old(store)@, final(store)@, msg.subject@, msg.reply_to@, msg.body@, r),
{
    match ResProtocolRequest::from(msg.subject.as_str()) {
        ResProtocolRequest::Get(_rid) => {
            if ends_with(msg.subject.as_str(), "shards") {
                Ok(handle_get_collection(store, msg.reply_to.as_str()))
            } else {
                handle_get_single(store, msg.subject.as_str(), msg.reply_to.as_str())
            }
        },
        ResProtocolRequest::SetValue(_rid) => handle_set(store, msg.body.as_slice()),
        ResProtocolRequest::Access(_rid) => Ok(handle_access(msg.reply_to.as_str())),
        ResProtocolRequest::Call(_rid, method) => {
            if str_eq(method.as_str(), "incr") {
                handle_incr(store, msg.subject.as_str(), msg.body.as_slice())
            } else {
                Err(HandlerError::UnknownRequest)
            }
        },
        _ => Err(HandlerError::UnknownRequest),
    }
}

} // verus!
