//! The component manager: translates resource protocol requests over
//! `decs.components.{shard}.{entity}.{component}` resource ids into store
//! mutations, emits the corresponding change events, and asks the shard
//! manager to reconcile the shard's live component count.

use vstd::prelude::*;
use vstd::string::*;

use crate::json::{extract_params, extract_params_rid, params_rid_of, params_text_of};
use crate::keys::{
    component_entities_key, entity_id, id_key, incr_subject, rid_key, shard_from_tokens,
    spec_entities_key, spec_id_key, spec_rid_key, spec_type_key, type_key,
};
use crate::store::{list_at, num_at, spec_index_of, spec_remove_all, str_at, uniq_at, EntryV,
    Store};
use crate::subject::{spec_parse, ReqV, ResProtocolRequest};
use crate::text::{i64_to_string, spec_dec_int, spec_split, split_str, str_eq};
use crate::types::{
    error_not_found, is_access_reply, is_add_pub, is_change_pub, is_collection_reply,
    is_error_reply, is_incr_pub, is_model_reply, is_new_item_reply, is_remove_pub,
    is_success_reply, model_result, reply_publication, success_response, to_rids, ErrorCode,
    HandlerError, Message, Operation, Payload, Publication, ResourceIdentifier,
};

verus! {

/// The dot-separated tokens of a resource id.
pub open spec fn rid_tokens(rid: Seq<char>) -> Seq<Seq<char>> {
    spec_split(rid, '.')
}

/// The shard name inside a component resource id.
pub open spec fn rid_shard(rid: Seq<char>) -> Seq<char> {
    rid_tokens(rid)[2]
}

/// The entity id inside a component resource id.
pub open spec fn rid_entity(rid: Seq<char>) -> Seq<char> {
    rid_tokens(rid)[3]
}

/// The component name inside a component resource id.
pub open spec fn rid_component(rid: Seq<char>) -> Seq<char> {
    rid_tokens(rid)[4]
}

/// The membership-set key of a component resource id.
pub open spec fn rid_ek(rid: Seq<char>) -> Seq<char> {
    spec_entities_key(rid_shard(rid), rid_component(rid))
}

/// `m` after adding `x` to the set at `k` (the effect of
/// [`Store::kv_set_add`]).
pub open spec fn map_set_add(
    m: Map<Seq<char>, EntryV>,
    k: Seq<char>,
    x: Seq<char>,
) -> Map<Seq<char>, EntryV> {
    if uniq_at(m, k).contains(x) {
        m
    } else {
        m.insert(k, EntryV::Uniq(uniq_at(m, k).push(x)))
    }
}

/// `m` after removing `x` from the set at `k` (the effect of
/// [`Store::kv_set_remove`]).
pub open spec fn map_set_remove(
    m: Map<Seq<char>, EntryV>,
    k: Seq<char>,
    x: Seq<char>,
) -> Map<Seq<char>, EntryV> {
    if uniq_at(m, k).contains(x) {
        m.insert(k, EntryV::Uniq(spec_remove_all(uniq_at(m, k), x)))
    } else {
        m
    }
}

/// Whether `rid`'s type tag declares it a collection.
pub open spec fn is_collection(m: Map<Seq<char>, EntryV>, rid: Seq<char>) -> bool {
    str_at(m, spec_type_key(rid)) == Some("C"@)
}

/// The resource id of the collection child with counter value `id`.
pub open spec fn child_rid(rid: Seq<char>, id: int) -> Seq<char> {
    rid + "."@ + spec_dec_int(id)
}

/// The kind a resource id is declared as by its type tag: `Model` unless
/// the tag is present and names a collection.
#[derive(Debug, PartialEq, Eq, Structural)]
pub enum ComponentType {
    Collection,
    Model,
}

/// Examines the type tag of `rid`.
pub fn component_type(store: &Store, rid: &str) -> (r: ComponentType)
    requires
        store.wf(),
    ensures
        r is Collection <==> is_collection(store@, rid@),
{
    let tk = type_key(rid);
    match store.kv_get_str(tk.as_str()) {
        Some(v) => {
            if str_eq(v.as_str(), "C") {
                ComponentType::Collection
            } else {
                ComponentType::Model
            }
        },
        None => ComponentType::Model,
    }
}

/// Replies on `reply_to` that all access is granted.
pub fn handle_access(reply_to: &str) -> (r: Vec<Publication>)
    ensures
        r@.len() == 1,
        is_access_reply(r@[0], reply_to@),
{
    let mut r: Vec<Publication> = Vec::new();
    r.push(reply_publication(reply_to, Payload::AccessGranted));
    r
}

/// The reply a get of a model resource produces: the stored value, or a
/// not-found error.
pub open spec fn get_model_pubs(
    m: Map<Seq<char>, EntryV>,
    pubs: Seq<Publication>,
    rid: Seq<char>,
    reply: Seq<char>,
) -> bool {
    match str_at(m, spec_rid_key(rid)) {
        Some(v) => pubs.len() == 1 && is_model_reply(pubs[0], reply, v),
        None => pubs.len() == 1 && is_error_reply(
            pubs[0],
            reply,
            ErrorCode::NotFound,
            "No such component"@,
        ),
    }
}

/// The reply a get of a collection resource produces: the stored child
/// resource ids, in order.
pub open spec fn get_collection_pubs(
    m: Map<Seq<char>, EntryV>,
    pubs: Seq<Publication>,
    rid: Seq<char>,
    reply: Seq<char>,
) -> bool {
    pubs.len() == 1 && is_collection_reply(pubs[0], reply, list_at(m, spec_rid_key(rid)))
}

/// What a get of `rid` replies, by the resource's declared kind.
pub open spec fn get_pubs(
    m: Map<Seq<char>, EntryV>,
    pubs: Seq<Publication>,
    rid: Seq<char>,
    reply: Seq<char>,
) -> bool {
    if is_collection(m, rid) {
        get_collection_pubs(m, pubs, rid, reply)
    } else {
        get_model_pubs(m, pubs, rid, reply)
    }
}

/// Replies with the model value stored at `rid`, or a not-found error when
/// there is none.
pub fn handle_single_get(store: &Store, rid: &str, reply_to: &str) -> (r: Vec<Publication>)
    requires
        store.wf(),
    ensures
        get_model_pubs(store@, r@, rid@, reply_to@),
{
    let k = rid_key(rid);
    let mut r: Vec<Publication> = Vec::new();
    match store.kv_get_str(k.as_str()) {
        Some(v) => {
            r.push(reply_publication(reply_to, model_result(v)));
        },
        None => {
            r.push(reply_publication(reply_to, error_not_found("No such component")));
        },
    }
    r
}

/// Replies with the collection of child resource ids stored at `rid`.
pub fn handle_collection_get(store: &Store, rid: &str, reply_to: &str) -> (r: Vec<Publication>)
    requires
        store.wf(),
    ensures
        get_collection_pubs(store@, r@, rid@, reply_to@),
{
    let k = rid_key(rid);
    let rids = store.kv_list_all(k.as_str());
    let refs = to_rids(&rids);
    let mut r: Vec<Publication> = Vec::new();
    r.push(reply_publication(reply_to, Payload::Collection { rids: refs }));
    r
}

/// Answers a get request for a model or a collection, by the resource's
/// declared kind.
pub fn handle_get(store: &Store, rid: &str, reply_to: &str) -> (r: Vec<Publication>)
    requires
        store.wf(),
    ensures
        get_pubs(store@, r@, rid@, reply_to@),
{
    match component_type(store, rid) {
        ComponentType::Model => handle_single_get(store, rid, reply_to),
        ComponentType::Collection => handle_collection_get(store, rid, reply_to),
    }
}

/// The store after a model set: the type tag stamped `M`, the entity added
/// to the membership set, the value written.
pub open spec fn model_set_post(
    pre: Map<Seq<char>, EntryV>,
    post: Map<Seq<char>, EntryV>,
    rid: Seq<char>,
    p: Seq<char>,
) -> bool {
    post == map_set_add(
        pre.insert(spec_type_key(rid), EntryV::Text("M"@)),
        rid_ek(rid),
        rid_entity(rid),
    ).insert(spec_rid_key(rid), EntryV::Text(p))
}

/// What a model set publishes: a shard increment when the resource is new,
/// a change event unless the stored value already equals the new one, and
/// a success reply when one is asked for.
pub open spec fn model_set_pubs(
    pre: Map<Seq<char>, EntryV>,
    pubs: Seq<Publication>,
    rid: Seq<char>,
    p: Seq<char>,
    reply: Seq<char>,
) -> bool {
    let k = spec_rid_key(rid);
    let existed = pre.contains_key(k);
    let unchanged = existed && str_at(pre, k) == Some(p);
    let n_incr: int = if existed {
        0
    } else {
        1
    };
    let n_change: int = if unchanged {
        0
    } else {
        1
    };
    let n_reply: int = if reply.len() > 0 {
        1
    } else {
        0
    };
    &&& pubs.len() == n_incr + n_change + n_reply
    &&& (!existed ==> is_incr_pub(pubs[0], rid_shard(rid), 1))
    &&& (!unchanged ==> is_change_pub(pubs[n_incr], rid, p))
    &&& (reply.len() > 0 ==> is_success_reply(pubs[n_incr + n_change], reply))
}

/// Upserts the model at `rid` with the `params` value of the request body.
pub fn handle_model_set(store: &mut Store, rid: &str, reply_to: &str, body: &[u8]) -> (r: Result<
    Vec<Publication>,
    HandlerError,
>)
    requires
        old(store).wf(),
    ensures
        final(store).wf(),
        match r {
            Ok(pubs) => params_text_of(body@) matches Some(p) && rid_tokens(rid@).len() >= 5
                && model_set_post(old(store)@, final(store)@, rid@, p) && model_set_pubs(
                old(store)@,
                pubs@,
                rid@,
                p,
                reply_to@,
            ),
            Err(e) => final(store)@ == old(store)@ && (if params_text_of(body@) is None {
                e is Decode
            } else {
                rid_tokens(rid@).len() < 5 && e is BadSubject
            }),
        },
{
    let p = match extract_params(body) {
        Some(p) => p,
        None => {
            return Err(HandlerError::Decode);
        },
    };
    let tokens = split_str(rid, '.');
    if tokens.len() < 5 {
        return Err(HandlerError::BadSubject);
    }
    let k = rid_key(rid);
    let tk = type_key(rid);
    let ek = component_entities_key(&tokens);
    let entity = entity_id(&tokens);
    let shard = shard_from_tokens(&tokens);
    let existed = store.kv_exists(k.as_str());
    let stored = store.kv_get_str(k.as_str());
    let unchanged = existed && (match &stored {
        Some(s) => str_eq(s.as_str(), p.as_str()),
        None => false,
    });
    store.kv_set_str(tk.as_str(), "M");
    store.kv_set_add(ek.as_str(), entity.as_str());
    store.kv_set_str(k.as_str(), p.as_str());
    let mut pubs: Vec<Publication> = Vec::new();
    if !existed {
        pubs.push(
            Publication {
                subject: incr_subject(shard.as_str()),
                reply_to: None,
                payload: Payload::Incr { amount: 1 },
            },
        );
    }
    if !unchanged {
        pubs.push(
            Publication {
                subject: crate::keys::change_subject(rid),
                reply_to: None,
                payload: Payload::Change { values: p },
            },
        );
    }
    if reply_to.unicode_len() > 0 {
        pubs.push(reply_publication(reply_to, success_response()));
    }
    Ok(pubs)
}

/// The store after a model delete: the type tag and the value gone, the
/// entity removed from the membership set.
pub open spec fn model_delete_post(
    pre: Map<Seq<char>, EntryV>,
    post: Map<Seq<char>, EntryV>,
    rid: Seq<char>,
) -> bool {
    post == map_set_remove(
        pre.remove(spec_type_key(rid)),
        rid_ek(rid),
        rid_entity(rid),
    ).remove(spec_rid_key(rid))
}

/// What a model delete publishes: a shard decrement, and a success reply
/// when one is asked for.
pub open spec fn model_delete_pubs(
    pubs: Seq<Publication>,
    rid: Seq<char>,
    reply: Seq<char>,
) -> bool {
    let n_reply: int = if reply.len() > 0 {
        1
    } else {
        0
    };
    &&& pubs.len() == 1 + n_reply
    &&& is_incr_pub(pubs[0], rid_shard(rid), -1i32)
    &&& (reply.len() > 0 ==> is_success_reply(pubs[1], reply))
}

/// Deletes the model at `rid`.
pub fn handle_model_delete(store: &mut Store, rid: &str, reply_to: &str) -> (r: Result<
    Vec<Publication>,
    HandlerError,
>)
    requires
        old(store).wf(),
    ensures
        final(store).wf(),
        match r {
            Ok(pubs) => rid_tokens(rid@).len() >= 5 && model_delete_post(
                old(store)@,
                final(store)@,
                rid@,
            ) && model_delete_pubs(pubs@, rid@, reply_to@),
            Err(e) => final(store)@ == old(store)@ && rid_tokens(rid@).len() < 5
                && e is BadSubject,
        },
{
    let tokens = split_str(rid, '.');
    if tokens.len() < 5 {
        return Err(HandlerError::BadSubject);
    }
    let k = rid_key(rid);
    let tk = type_key(rid);
    let ek = component_entities_key(&tokens);
    let entity = entity_id(&tokens);
    let shard = shard_from_tokens(&tokens);
    store.remove_entry(tk.as_str());
    store.kv_set_remove(ek.as_str(), entity.as_str());
    store.remove_entry(k.as_str());
    let mut pubs: Vec<Publication> = Vec::new();
    pubs.push(
        Publication {
            subject: incr_subject(shard.as_str()),
            reply_to: None,
            payload: Payload::Incr { amount: -1 },
        },
    );
    if reply_to.unicode_len() > 0 {
        pubs.push(reply_publication(reply_to, success_response()));
    }
    Ok(pubs)
}

/// The store after a collection item delete: the item gone from the
/// parent's list, the item's value and type tag gone.
pub open spec fn collection_delete_post(
    pre: Map<Seq<char>, EntryV>,
    post: Map<Seq<char>, EntryV>,
    rid: Seq<char>,
    item: Seq<char>,
) -> bool {
    let k = spec_rid_key(rid);
    let m1 = if pre.contains_key(k) && pre[k] is List {
        pre.insert(k, EntryV::List(spec_remove_all(list_at(pre, k), item)))
    } else {
        pre
    };
    post == m1.remove(spec_rid_key(item)).remove(spec_type_key(item))
}

/// The position a collection item delete reports: the item's position in
/// the parent's list, or zero when it is absent.
pub open spec fn delete_idx(pre: Map<Seq<char>, EntryV>, rid: Seq<char>, item: Seq<char>) -> int {
    let l = list_at(pre, spec_rid_key(rid));
    if spec_index_of(l, item) < l.len() {
        spec_index_of(l, item) as int
    } else {
        0
    }
}

/// What a collection item delete publishes: the remove event with the
/// item's position, a shard decrement, and a success reply when one is
/// asked for.
pub open spec fn collection_delete_pubs(
    pre: Map<Seq<char>, EntryV>,
    pubs: Seq<Publication>,
    rid: Seq<char>,
    item: Seq<char>,
    reply: Seq<char>,
) -> bool {
    let n_reply: int = if reply.len() > 0 {
        1
    } else {
        0
    };
    &&& pubs.len() == 2 + n_reply
    &&& is_remove_pub(pubs[0], rid, delete_idx(pre, rid, item))
    &&& is_incr_pub(pubs[1], rid_shard(rid), -1i32)
    &&& (reply.len() > 0 ==> is_success_reply(pubs[2], reply))
}

/// Deletes the collection item named by `params.rid` from the collection
/// at `rid`.
pub fn handle_collection_delete_item(
    store: &mut Store,
    rid: &str,
    reply_to: &str,
    body: &[u8],
) -> (r: Result<Vec<Publication>, HandlerError>)
    requires
        old(store).wf(),
    ensures
        final(store).wf(),
        match r {
            Ok(pubs) => params_rid_of(body@) matches Some(item) && rid_tokens(rid@).len() >= 3
                && collection_delete_post(old(store)@, final(store)@, rid@, item)
                && collection_delete_pubs(old(store)@, pubs@, rid@, item, reply_to@),
            Err(e) => final(store)@ == old(store)@ && (if params_rid_of(body@) is None {
                e is Decode
            } else {
                rid_tokens(rid@).len() < 3 && e is BadSubject
            }),
        },
{
    let item = match extract_params_rid(body) {
        Some(item) => item,
        None => {
            return Err(HandlerError::Decode);
        },
    };
    let tokens = split_str(rid, '.');
    if tokens.len() < 3 {
        return Err(HandlerError::BadSubject);
    }
    let k = rid_key(rid);
    let shard = shard_from_tokens(&tokens);
    let pos = store.kv_list_index_of(k.as_str(), item.as_str());
    let idx = match pos {
        Some(i) => i,
        None => 0,
    };
    store.kv_list_del_item(k.as_str(), item.as_str());
    let item_key = rid_key(item.as_str());
    let item_tk = type_key(item.as_str());
    store.remove_entry(item_key.as_str());
    store.remove_entry(item_tk.as_str());
    let mut pubs: Vec<Publication> = Vec::new();
    pubs.push(
        Publication {
            subject: crate::keys::remove_subject(rid),
            reply_to: None,
            payload: Payload::Remove { idx },
        },
    );
    pubs.push(
        Publication {
            subject: incr_subject(shard.as_str()),
            reply_to: None,
            payload: Payload::Incr { amount: -1 },
        },
    );
    if reply_to.unicode_len() > 0 {
        pubs.push(reply_publication(reply_to, success_response()));
    }
    Ok(pubs)
}

/// Deletes a model or a collection item, by the resource's declared kind.
pub fn handle_delete(store: &mut Store, rid: &str, reply_to: &str, body: &[u8]) -> (r: Result<
    Vec<Publication>,
    HandlerError,
>)
    requires
        old(store).wf(),
    ensures
        final(store).wf(),
        if is_collection(old(store)@, rid@) {
            match r {
                Ok(pubs) => params_rid_of(body@) matches Some(item) && rid_tokens(rid@).len() >= 3
                    && collection_delete_post(old(store)@, final(store)@, rid@, item)
                    && collection_delete_pubs(old(store)@, pubs@, rid@, item, reply_to@),
                Err(e) => final(store)@ == old(store)@ && (if params_rid_of(body@) is None {
                    e is Decode
                } else {
                    rid_tokens(rid@).len() < 3 && e is BadSubject
                }),
            }
        } else {
            match r {
                Ok(pubs) => rid_tokens(rid@).len() >= 5 && model_delete_post(
                    old(store)@,
                    final(store)@,
                    rid@,
                ) && model_delete_pubs(pubs@, rid@, reply_to@),
                Err(e) => final(store)@ == old(store)@ && rid_tokens(rid@).len() < 5
                    && e is BadSubject,
            }
        },
{
    match component_type(store, rid) {
        ComponentType::Model => handle_model_delete(store, rid, reply_to),
        ComponentType::Collection => handle_collection_delete_item(store, rid, reply_to, body),
    }
}

/// The store after a collection new: the child-id counter bumped, the
/// parent stamped a collection, the child appended to the parent's list,
/// the child written and stamped a model, the entity added to the
/// membership set.
pub open spec fn collection_new_post(
    pre: Map<Seq<char>, EntryV>,
    post: Map<Seq<char>, EntryV>,
    rid: Seq<char>,
    p: Seq<char>,
) -> bool {
    let idk = spec_id_key(rid);
    let id = num_at(pre, idk) + 1;
    let child = child_rid(rid, id);
    let k = spec_rid_key(rid);
    let m1 = pre.insert(idk, EntryV::Num(id));
    let m2 = m1.insert(spec_type_key(rid), EntryV::Text("C"@));
    let m3 = m2.insert(k, EntryV::List(list_at(m2, k).push(child)));
    let m4 = m3.insert(spec_rid_key(child), EntryV::Text(p));
    let m5 = m4.insert(spec_type_key(child), EntryV::Text("M"@));
    post == map_set_add(m5, rid_ek(rid), rid_entity(rid))
}

/// What a collection new publishes: the add event with the child's id and
/// its position, a shard increment, and the child's resource id as the
/// reply when one is asked for.
pub open spec fn collection_new_pubs(
    pre: Map<Seq<char>, EntryV>,
    pubs: Seq<Publication>,
    rid: Seq<char>,
    reply: Seq<char>,
) -> bool {
    let idk = spec_id_key(rid);
    let id = num_at(pre, idk) + 1;
    let child = child_rid(rid, id);
    let k = spec_rid_key(rid);
    let m2 = pre.insert(idk, EntryV::Num(id)).insert(spec_type_key(rid), EntryV::Text("C"@));
    let idx = list_at(m2, k).len() as int;
    let n_reply: int = if reply.len() > 0 {
        1
    } else {
        0
    };
    &&& pubs.len() == 2 + n_reply
    &&& is_add_pub(pubs[0], rid, child, idx)
    &&& is_incr_pub(pubs[1], rid_shard(rid), 1)
    &&& (reply.len() > 0 ==> is_new_item_reply(pubs[2], reply, child))
}

/// Appends a new item holding the `params` value to the collection at
/// `rid`.
pub fn handle_collection_new(store: &mut Store, rid: &str, reply_to: &str, body: &[u8]) -> (r:
    Result<Vec<Publication>, HandlerError>)
    requires
        old(store).wf(),
    ensures
        final(store).wf(),
        match r {
            Ok(pubs) => params_text_of(body@) matches Some(p) && rid_tokens(rid@).len() >= 5 && (
            i64::MIN <= num_at(old(store)@, spec_id_key(rid@)) + 1 <= i64::MAX)
                && collection_new_post(old(store)@, final(store)@, rid@, p)
                && collection_new_pubs(old(store)@, pubs@, rid@, reply_to@),
            Err(e) => final(store)@ == old(store)@ && (if params_text_of(body@) is None {
                e is Decode
            } else if rid_tokens(rid@).len() < 5 {
                e is BadSubject
            } else {
                !(i64::MIN <= num_at(old(store)@, spec_id_key(rid@)) + 1 <= i64::MAX)
                    && e is Overflow
            }),
        },
{
    let p = match extract_params(body) {
        Some(p) => p,
        None => {
            return Err(HandlerError::Decode);
        },
    };
    let tokens = split_str(rid, '.');
    if tokens.len() < 5 {
        return Err(HandlerError::BadSubject);
    }
    let k = rid_key(rid);
    let tk = type_key(rid);
    let idk = id_key(rid);
    let ek = component_entities_key(&tokens);
    let entity = entity_id(&tokens);
    let shard = shard_from_tokens(&tokens);
    let id = match store.kv_atomic_add(idk.as_str(), 1) {
        Some(id) => id,
        None => {
            return Err(HandlerError::Overflow);
        },
    };
    let mut child = rid.to_owned();
    child.append(".");
    let ds = i64_to_string(id);
    child.append(ds.as_str());
    proof {
        assert(child@ == child_rid(rid@, id as int));
    }
    store.kv_set_str(tk.as_str(), "C");
    let n = store.kv_list_add(k.as_str(), child.as_str());
    let idx = n - 1;
    let child_key = rid_key(child.as_str());
    let child_tk = type_key(child.as_str());
    store.kv_set_str(child_key.as_str(), p.as_str());
    store.kv_set_str(child_tk.as_str(), "M");
    store.kv_set_add(ek.as_str(), entity.as_str());
    let mut pubs: Vec<Publication> = Vec::new();
    pubs.push(
        Publication {
            subject: crate::keys::add_subject(rid),
            reply_to: None,
            payload: Payload::Add { value: ResourceIdentifier { rid: child.clone() }, idx },
        },
    );
    pubs.push(
        Publication {
            subject: incr_subject(shard.as_str()),
            reply_to: None,
            payload: Payload::Incr { amount: 1 },
        },
    );
    if reply_to.unicode_len() > 0 {
        pubs.push(
            reply_publication(reply_to, Payload::NewItem { rid: ResourceIdentifier { rid: child } }),
        );
    }
    Ok(pubs)
}

/// What handling one broker delivery does, by the request its subject
/// describes.
pub open spec fn message_contract(
    pre: Map<Seq<char>, EntryV>,
    post: Map<Seq<char>, EntryV>,
    subject: Seq<char>,
    reply: Seq<char>,
    body: Seq<u8>,
    r: Result<Vec<Publication>, HandlerError>,
) -> bool {
    match spec_parse(subject) {
        ReqV::Access(rid) => post == pre && (r matches Ok(pubs) && pubs@.len() == 1
            && is_access_reply(pubs@[0], reply)),
        ReqV::Get(rid) => post == pre && (r matches Ok(pubs) && get_pubs(pre, pubs@, rid, reply)),
        ReqV::SetValue(rid) => match r {
            Ok(pubs) => params_text_of(body) matches Some(p) && rid_tokens(rid).len() >= 5
                && model_set_post(pre, post, rid, p) && model_set_pubs(pre, pubs@, rid, p, reply),
            Err(e) => post == pre && (if params_text_of(body) is None {
                e is Decode
            } else {
                rid_tokens(rid).len() < 5 && e is BadSubject
            }),
        },
        ReqV::New(rid) => match r {
            Ok(pubs) => params_text_of(body) matches Some(p) && rid_tokens(rid).len() >= 5 && (
            i64::MIN <= num_at(pre, spec_id_key(rid)) + 1 <= i64::MAX) && collection_new_post(
                pre,
                post,
                rid,
                p,
            ) && collection_new_pubs(pre, pubs@, rid, reply),
            Err(e) => post == pre && (if params_text_of(body) is None {
                e is Decode
            } else if rid_tokens(rid).len() < 5 {
                e is BadSubject
            } else {
                !(i64::MIN <= num_at(pre, spec_id_key(rid)) + 1 <= i64::MAX) && e is Overflow
            }),
        },
        ReqV::Delete(rid) => if is_collection(pre, rid) {
            match r {
                Ok(pubs) => params_rid_of(body) matches Some(item) && rid_tokens(rid).len() >= 3
                    && collection_delete_post(pre, post, rid, item) && collection_delete_pubs(
                    pre,
                    pubs@,
                    rid,
                    item,
                    reply,
                ),
                Err(e) => post == pre && (if params_rid_of(body) is None {
                    e is Decode
                } else {
                    rid_tokens(rid).len() < 3 && e is BadSubject
                }),
            }
        } else {
            match r {
                Ok(pubs) => rid_tokens(rid).len() >= 5 && model_delete_post(pre, post, rid)
                    && model_delete_pubs(pubs@, rid, reply),
                Err(e) => post == pre && rid_tokens(rid).len() < 5 && e is BadSubject,
            }
        },
        _ => post == pre && (r matches Err(e) && e is UnknownRequest),
    }
}

/// Examines the subject of one broker delivery and serves the request it
/// describes.
pub fn handle_message(store: &mut Store, msg: &Message) -> (r: Result<
    Vec<Publication>,
    HandlerError,
>)
    requires
        old(store).wf(),
    ensures
        final(store).wf(),
        message_contract(old(store)@, final(store)@, msg.subject@, msg.reply_to@, msg.body@, r),
{
    match ResProtocolRequest::from(msg.subject.as_str()) {
        ResProtocolRequest::Access(_rid) => Ok(handle_access(msg.reply_to.as_str())),
        ResProtocolRequest::Get(rid) => Ok(
            handle_get(store, rid.as_str(), msg.reply_to.as_str()),
        ),
        ResProtocolRequest::SetValue(rid) => handle_model_set(
            store,
            rid.as_str(),
            msg.reply_to.as_str(),
            msg.body.as_slice(),
        ),
        ResProtocolRequest::New(rid) => handle_collection_new(
            store,
            rid.as_str(),
            msg.reply_to.as_str(),
            msg.body.as_slice(),
        ),
        ResProtocolRequest::Delete(rid) => handle_delete(
            store,
            rid.as_str(),
            msg.reply_to.as_str(),
            msg.body.as_slice(),
        ),
        _ => Err(HandlerError::UnknownRequest),
    }
}

/// The component manager's host entry point: broker deliveries are served,
/// health probes succeed, anything else is a bad dispatch.
pub fn handle_call(store: &mut Store, op: Operation, msg: Option<&Message>) -> (r: Result<
    Vec<Publication>,
    HandlerError,
>)
    requires
        old(store).wf(),
    ensures
        final(store).wf(),
        match op {
            Operation::DeliverMessage => match msg {
                Some(m) => message_contract(
                    old(store)@,
                    final(store)@,
                    m.subject@,
                    m.reply_to@,
                    m.body@,
                    r,
                ),
                None => final(store)@ == old(store)@ && (r matches Err(e)
                    && e is MissingPayload),
            },
            Operation::HealthRequest => final(store)@ == old(store)@ && (r matches Ok(pubs)
                && pubs@.len() == 0),
            _ => final(store)@ == old(store)@ && (r matches Err(e) && e is BadDispatch),
        },
{
    match op {
        Operation::DeliverMessage => match msg {
            Some(m) => handle_message(store, m),
            None => Err(HandlerError::MissingPayload),
        },
        Operation::HealthRequest => Ok(Vec::new()),
        _ => Err(HandlerError::BadDispatch),
    }
}

} // verus!
