//! The system manager: keeps the live-system registry through a
//! ping/reply heartbeat, serves `decs.systems` and `decs.system.*`
//! resource requests, and on every game-loop tick dispatches one frame per
//! interested entity to every system whose frame-rate clock aligns with
//! the tick.

use vstd::prelude::*;
use vstd::string::*;
use vstd::arithmetic::div_mod::{
    lemma_div_basics, lemma_div_is_ordered_by_denominator, lemma_div_pos_is_pos,
    lemma_fundamental_div_mod,
};
use vstd::arithmetic::mul::lemma_mul_inequality;

use crate::json::{extract_gameloop_tick, extract_system, system_of, tick_of};
use crate::keys::{
    spec_entities_key, spec_frames_subject, spec_system_key, spec_system_rid, spec_systems_key,
    system_key, system_rid,
};
use crate::store::{
    in_all_sets, list_at, spec_intersect, spec_remove_all, system_at, vec_index_of, EntryV, Store,
};
use crate::text::{ends_with, join_strings, spec_ends_with, spec_join, spec_split,
    spec_starts_with, split_str, starts_with, str_eq};
use crate::types::{
    is_access_get_reply, is_add_pub, is_collection_reply, reply_publication, EntityFrame,
    GameLoopTick, HandlerError, Message, Operation, Payload, Publication, ResourceIdentifier,
    System, SystemV, TimerTick,
};

verus! {

/// How many timer ticks pass between two registry pings.
pub const PING_EVERY_TICKS: i64 = 200;

/// `p` is the empty registry ping, asking live systems to reply with their
/// records.
pub open spec fn is_ping_pub(p: Publication) -> bool {
    &&& p.subject@ == "decs.system.registry"@
    &&& (p.reply_to matches Some(rt) && rt@ == "decs.system.registry.replies"@)
    &&& p.payload is Ping
}

/// Publishes the registry ping.
pub fn emit_ping() -> (r: Vec<Publication>)
    ensures
        r@.len() == 1,
        is_ping_pub(r@[0]),
{
    let mut r: Vec<Publication> = Vec::new();
    r.push(
        Publication {
            subject: "decs.system.registry".to_owned(),
            reply_to: Some("decs.system.registry.replies".to_owned()),
            payload: Payload::Ping,
        },
    );
    r
}

/// On every `PING_EVERY_TICKS`-th tick, pings the registry; otherwise does
/// nothing.
pub fn handle_timer(tick: &TimerTick) -> (r: Vec<Publication>)
    ensures
        tick.seq_no as int % 200 == 0 ==> r@.len() == 1 && is_ping_pub(r@[0]),
        tick.seq_no as int % 200 != 0 ==> r@.len() == 0,
{
    if tick.seq_no % PING_EVERY_TICKS == 0 {
        emit_ping()
    } else {
        Vec::new()
    }
}

/// `p` publishes a change event for system `name` carrying the record `s`.
pub open spec fn is_system_change_pub(p: Publication, name: Seq<char>, s: SystemV) -> bool {
    p.subject@ == crate::keys::spec_change_subject(spec_system_rid(name)) && p.reply_to is None && (
    p.payload matches Payload::SystemChange { system } && system@ == s)
}

/// `p` replies on `subject` with the system record: name, frame rate, and
/// the component names joined with commas (the gateway allows only
/// primitive member values).
pub open spec fn is_system_model_reply(p: Publication, subject: Seq<char>, s: SystemV) -> bool {
    p.subject@ == subject && p.reply_to is None && (p.payload matches Payload::SystemModel {
        name,
        framerate,
        components,
    } && name@ == s.name && framerate == s.framerate && components@ == spec_join(
        s.components,
        ',',
    ))
}

/// The store after a system upsert: a fresh name appended to the registry
/// list, the record written.
pub open spec fn put_system_post(
    pre: Map<Seq<char>, EntryV>,
    post: Map<Seq<char>, EntryV>,
    s: SystemV,
) -> bool {
    let key = spec_system_key(s.name);
    let m1 = if pre.contains_key(key) {
        pre
    } else {
        pre.insert(spec_systems_key(), EntryV::List(list_at(pre, spec_systems_key()).push(s.name)))
    };
    post == m1.insert(key, EntryV::SysRec(s))
}

/// Stores a system record, adding a fresh name to the registry list.
/// Returns whether the system already existed and its position in the
/// list.
pub fn put_system(store: &mut Store, system: System) -> (r: (bool, usize))
    requires
        old(store).wf(),
    ensures
        final(store).wf(),
        put_system_post(old(store)@, final(store)@, system@),
        r.0 == old(store)@.contains_key(spec_system_key(system@.name)),
{
    let name = system.name.clone();
    let key = system_key(name.as_str());
    let existed = store.kv_exists(key.as_str());
    if !existed {
        store.kv_list_add("decs:systems", name.as_str());
    }
    store.kv_set_system(key.as_str(), system);
    let members = store.kv_list_all("decs:systems");
    let pos = match vec_index_of(&members, name.as_str()) {
        Some(i) => i,
        None => 0,
    };
    (existed, pos)
}

/// What a registration reply does: the record is upserted; a fresh system
/// is announced on the registry, an existing one with a change event.
pub open spec fn registration_contract(
    pre: Map<Seq<char>, EntryV>,
    post: Map<Seq<char>, EntryV>,
    body: Seq<u8>,
    r: Result<Vec<Publication>, HandlerError>,
) -> bool {
    match system_of(body) {
        Some((name, framerate, components)) => {
            let s = SystemV { name, framerate, components };
            let existed = pre.contains_key(spec_system_key(name));
            &&& put_system_post(pre, post, s)
            &&& (r matches Ok(pubs) && pubs@.len() == 1 && (if existed {
                is_system_change_pub(pubs@[0], name, s)
            } else {
                is_add_pub(pubs@[0], "decs.systems"@, spec_system_rid(name), 0)
            }))
        },
        None => post == pre && (r matches Err(e) && e is Decode),
    }
}

/// Upserts the system record a registry reply carries and announces it.
pub fn handle_registration(store: &mut Store, body: &[u8]) -> (r: Result<
    Vec<Publication>,
    HandlerError,
>)
    requires
        old(store).wf(),
    ensures
        final(store).wf(),
        registration_contract(old(store)@, final(store)@, body@, r),
{
    let system = match extract_system(body) {
        Some(s) => s,
        None => {
            return Err(HandlerError::Decode);
        },
    };
    let name = system.name.clone();
    let framerate = system.framerate;
    let components = crate::store::clone_strings(&system.components);
    let (existed, _pos) = put_system(store, system);
    let mut pubs: Vec<Publication> = Vec::new();
    if !existed {
        pubs.push(
            Publication {
                subject: crate::keys::add_subject("decs.systems"),
                reply_to: None,
                payload: Payload::Add {
                    value: ResourceIdentifier { rid: system_rid(name.as_str()) },
                    idx: 0,
                },
            },
        );
    } else {
        pubs.push(
            Publication {
                subject: crate::keys::change_subject(system_rid(name.as_str()).as_str()),
                reply_to: None,
                payload: Payload::SystemChange {
                    system: System { name, framerate, components },
                },
            },
        );
    }
    Ok(pubs)
}

/// Replies on `reply_to` that read access is granted.
pub fn handle_access(reply_to: &str) -> (r: Vec<Publication>)
    ensures
        r@.len() == 1,
        is_access_get_reply(r@[0], reply_to@),
{
    let mut r: Vec<Publication> = Vec::new();
    r.push(reply_publication(reply_to, Payload::AccessGetOnly));
    r
}

/// The names in the system registry, as system resource ids.
pub open spec fn system_rids(names: Seq<Seq<char>>) -> Seq<Seq<char>> {
    names.map(|_i: int, n: Seq<char>| spec_system_rid(n))
}

/// Serves `get.decs.systems`: lists the registry.
pub fn get_collection(store: &Store, reply_to: &str) -> (r: Vec<Publication>)
    requires
        store.wf(),
    ensures
        r@.len() == 1,
        is_collection_reply(r@[0], reply_to@, system_rids(list_at(store@, spec_systems_key()))),
{
    let names = store.kv_list_all("decs:systems");
    let mut rids: Vec<ResourceIdentifier> = Vec::new();
    let mut i: usize = 0;
    while i < names.len()
        invariant
            i <= names@.len(),
            rids@.len() == i,
            crate::types::rids_of(rids@) =~= system_rids(names.deep_view().subrange(0, i as int)),
        decreases names@.len() - i,
    {
        let ghost prev = rids@;
        rids.push(ResourceIdentifier { rid: system_rid(names[i].as_str()) });
        proof {
            assert forall|t: int| 0 <= t < rids@.len() implies crate::types::rids_of(rids@)[t]
                == system_rids(names.deep_view().subrange(0, i + 1 as int))[t] by {
                if t < i {
                    assert(rids@[t] == prev[t]);
                    assert(crate::types::rids_of(prev)[t] == system_rids(
                        names.deep_view().subrange(0, i as int),
                    )[t]);
                } else {
                    assert(rids@[t].rid@ == spec_system_rid(names.deep_view()[t]));
                }
            }
            assert(crate::types::rids_of(rids@) =~= system_rids(
                names.deep_view().subrange(0, i + 1 as int),
            ));
        }
        i += 1;
    }
    proof {
        assert(names.deep_view().subrange(0, names@.len() as int) =~= names.deep_view());
    }
    let mut pubs: Vec<Publication> = Vec::new();
    pubs.push(reply_publication(reply_to, Payload::Collection { rids }));
    pubs
}

/// Serves `get.decs.system.<name>`: replies with the record, or fails when
/// the system is unknown.
pub fn get_single(store: &Store, subject: &str, reply_to: &str) -> (r: Result<
    Vec<Publication>,
    HandlerError,
>)
    requires
        store.wf(),
    ensures
        match r {
            Ok(pubs) => spec_split(subject@, '.').len() == 4 && (system_at(
                store@,
                spec_system_key(spec_split(subject@, '.')[3]),
            ) matches Some(s) && pubs@.len() == 1 && is_system_model_reply(pubs@[0], reply_to@, s)),
            Err(e) => if spec_split(subject@, '.').len() != 4 {
                e is BadSubject
            } else {
                system_at(store@, spec_system_key(spec_split(subject@, '.')[3])) is None
                    && e is NotFound
            },
        },
{
    let tokens = split_str(subject, '.');
    if tokens.len() != 4 {
        return Err(HandlerError::BadSubject);
    }
    let name: &String = &tokens[3];
    let key = system_key(name.as_str());
    match store.kv_get_system(key.as_str()) {
        Some(s) => {
            proof {
                reveal_strlit(",");
            }
            let joined = join_strings(&s.components, ",");
            let mut pubs: Vec<Publication> = Vec::new();
            pubs.push(
                reply_publication(
                    reply_to,
                    Payload::SystemModel {
                        name: s.name,
                        framerate: s.framerate,
                        components: joined,
                    },
                ),
            );
            Ok(pubs)
        },
        None => Err(HandlerError::NotFound),
    }
}

/// How many ticks pass between two frames for a system: the whole number
/// of tick periods in the system's preferred frame period, clamped to at
/// least one (a zero frame rate or tick period also clamps to one).
pub open spec fn spec_modulus(framerate: u32, elapsed_ms: u32) -> u32 {
    if framerate == 0 || elapsed_ms == 0 {
        1u32
    } else {
        let m = 1000int / (elapsed_ms as int) / (framerate as int);
        if m < 1 {
            1u32
        } else {
            m as u32
        }
    }
}

/// How many ticks pass between two frames for a system of the given frame
/// rate, under the given tick period.
pub fn system_modulus(framerate: u32, elapsed_ms: u32) -> (r: u32)
    ensures
        r == spec_modulus(framerate, elapsed_ms),
        r >= 1,
{
    if framerate == 0 || elapsed_ms == 0 {
        1
    } else {
        let m = 1000 / elapsed_ms / framerate;
        if m < 1 {
            1
        } else {
            m
        }
    }
}

/// Whether a system of the given frame rate receives a frame on tick
/// `seq_no`.
pub open spec fn spec_should_publish(framerate: u32, elapsed_ms: u32, seq_no: u64) -> bool {
    seq_no as int % spec_modulus(framerate, elapsed_ms) as int == 0
}

/// Whether a system of the given frame rate receives a frame on tick
/// `seq_no`.
pub fn should_publish(framerate: u32, elapsed_ms: u32, seq_no: u64) -> (r: bool)
    ensures
        r == spec_should_publish(framerate, elapsed_ms, seq_no),
{
    let m = system_modulus(framerate, elapsed_ms);
    seq_no % (m as u64) == 0
}

/// The effect of removing `x` from the list at `k` (the effect of
/// [`Store::kv_list_del_item`]).
pub open spec fn map_list_del(
    m: Map<Seq<char>, EntryV>,
    k: Seq<char>,
    x: Seq<char>,
) -> Map<Seq<char>, EntryV> {
    if m.contains_key(k) && m[k] is List {
        m.insert(k, EntryV::List(spec_remove_all(list_at(m, k), x)))
    } else {
        m
    }
}

/// The store after reading the registry with pruning: every name whose
/// detail record is absent is removed from the registry list, left to
/// right.
pub open spec fn prune_map(m: Map<Seq<char>, EntryV>, names: Seq<Seq<char>>) -> Map<
    Seq<char>,
    EntryV,
>
    decreases names.len(),
{
    if names.len() == 0 {
        m
    } else {
        let m1 = prune_map(m, names.drop_last());
        if system_at(m1, spec_system_key(names.last())) is Some {
            m1
        } else {
            map_list_del(m1, spec_systems_key(), names.last())
        }
    }
}

/// The records of the named systems that are present, in registry order.
pub open spec fn live_of(m: Map<Seq<char>, EntryV>, names: Seq<Seq<char>>) -> Seq<SystemV>
    decreases names.len(),
{
    if names.len() == 0 {
        Seq::empty()
    } else {
        let rest = live_of(m, names.drop_last());
        match system_at(m, spec_system_key(names.last())) {
            Some(s) => rest.push(s),
            None => rest,
        }
    }
}

/// A system record key never collides with the registry list key.
pub proof fn lemma_system_key_ne_registry(n: Seq<char>)
    ensures
        spec_system_key(n) != spec_systems_key(),
{
    reveal_strlit("system:");
    reveal_strlit("decs:systems");
    assert(spec_system_key(n)[0] == 's');
    assert(spec_systems_key()[0] == 'd');
}

/// Pruning touches only the registry list key.
pub proof fn lemma_prune_preserves(m: Map<Seq<char>, EntryV>, names: Seq<Seq<char>>)
    ensures
        forall|k: Seq<char>|
            k != spec_systems_key() ==> (#[trigger] prune_map(m, names).contains_key(k)
                == m.contains_key(k) && (m.contains_key(k) ==> prune_map(m, names)[k] == m[k])),
    decreases names.len(),
{
    if names.len() == 0 {
    } else {
        lemma_prune_preserves(m, names.drop_last());
        let m1 = prune_map(m, names.drop_last());
        let mf = prune_map(m, names);
        assert forall|k: Seq<char>|
            k != spec_systems_key() implies #[trigger] mf.contains_key(k) == m.contains_key(k) && (
        m.contains_key(k) ==> mf[k] == m[k]) by {
            assert(m1.contains_key(k) == m.contains_key(k));
            if system_at(m1, spec_system_key(names.last())) is Some {
            } else {
                assert(mf == map_list_del(m1, spec_systems_key(), names.last()));
                assert(mf.contains_key(k) == m1.contains_key(k));
                if m1.contains_key(k) {
                    assert(mf[k] == m1[k]);
                }
            }
        }
    }
}

/// The spec-level images of a vector of system records.
pub open spec fn views_of_systems(s: Seq<System>) -> Seq<SystemV> {
    Seq::new(s.len(), |i: int| s[i]@)
}

/// Reads the records of the named systems in order, pruning from the
/// registry list every name whose record has expired: after the call the
/// registry holds no name without a record among those read.
pub fn get_system_list(store: &mut Store, systems: Vec<String>) -> (r: Vec<System>)
    requires
        old(store).wf(),
    ensures
        final(store).wf(),
        final(store)@ == prune_map(old(store)@, systems.deep_view()),
        views_of_systems(r@) == live_of(old(store)@, systems.deep_view()),
{
    let ghost names = systems.deep_view();
    let mut out: Vec<System> = Vec::new();
    let mut i: usize = 0;
    while i < systems.len()
        invariant
            store.wf(),
            i <= systems@.len(),
            names == systems.deep_view(),
            store@ == prune_map(old(store)@, names.subrange(0, i as int)),
            views_of_systems(out@) =~= live_of(old(store)@, names.subrange(0, i as int)),
        decreases systems@.len() - i,
    {
        let ghost prefix = names.subrange(0, i as int);
        let ghost out_pre = out@;
        proof {
            assert(names.subrange(0, i + 1 as int).drop_last() =~= prefix);
            assert(names.subrange(0, i + 1 as int).last() == names[i as int]);
            lemma_system_key_ne_registry(names[i as int]);
            lemma_prune_preserves(old(store)@, prefix);
        }
        let name: &String = &systems[i];
        let key = system_key(name.as_str());
        match store.kv_get_system(key.as_str()) {
            Some(s) => {
                proof {
                    assert(system_at(store@, spec_system_key(names[i as int])) == system_at(
                        old(store)@,
                        spec_system_key(names[i as int]),
                    ));
                }
                out.push(s);
                proof {
                    assert forall|t: int|
                        0 <= t < out@.len() implies views_of_systems(out@)[t] == live_of(
                        old(store)@,
                        names.subrange(0, i + 1 as int),
                    )[t] by {
                        if t < i {
                        } else {
                            assert(views_of_systems(out_pre) =~= live_of(old(store)@, prefix));
                        }
                    }
                    assert(live_of(old(store)@, names.subrange(0, i + 1 as int)).len() == out@.len());
                    assert(views_of_systems(out@) =~= live_of(
                        old(store)@,
                        names.subrange(0, i + 1 as int),
                    ));
                }
            },
            None => {
                proof {
                    assert(system_at(store@, spec_system_key(names[i as int])) == system_at(
                        old(store)@,
                        spec_system_key(names[i as int]),
                    ));
                }
                store.kv_list_del_item("decs:systems", name.as_str());
                proof {
                    assert(views_of_systems(out@) =~= live_of(
                        old(store)@,
                        names.subrange(0, i + 1 as int),
                    ));
                }
            },
        }
        i += 1;
    }
    proof {
        assert(names.subrange(0, systems@.len() as int) =~= names);
    }
    out
}

/// The membership-set keys a system's component interests name in a shard.
pub open spec fn entity_keys(shard: Seq<char>, comps: Seq<Seq<char>>) -> Seq<Seq<char>> {
    comps.map(|_i: int, c: Seq<char>| spec_entities_key(shard, c))
}

/// The entities in `shard` that have every one of the named components:
/// the intersection of the components' membership sets.
pub fn get_entities_for_component_set(store: &Store, shard: &str, components: &Vec<String>) -> (r:
    Vec<String>)
    requires
        store.wf(),
    ensures
        r.deep_view() == spec_intersect(store@, entity_keys(shard@, components.deep_view())),
{
    let mut keys: Vec<String> = Vec::new();
    let mut i: usize = 0;
    while i < components.len()
        invariant
            i <= components@.len(),
            keys@.len() == i,
            keys.deep_view() =~= entity_keys(shard@, components.deep_view().subrange(0, i as int)),
        decreases components@.len() - i,
    {
        let ghost prev = keys@;
        keys.push(crate::keys::entities_key(shard, components[i].as_str()));
        proof {
            assert forall|t: int| 0 <= t < keys@.len() implies keys.deep_view()[t] == entity_keys(
                shard@,
                components.deep_view().subrange(0, i + 1 as int),
            )[t] by {
                if t < i {
                    assert(keys@[t] == prev[t]);
                    assert(Seq::new(prev.len(), |q: int| prev[q].deep_view())[t] == prev[t]@);
                } else {
                    assert(keys@[t]@ == spec_entities_key(shard@, components.deep_view()[t]));
                }
            }
            assert(keys.deep_view() =~= entity_keys(
                shard@,
                components.deep_view().subrange(0, i + 1 as int),
            ));
        }
        i += 1;
    }
    proof {
        assert(components.deep_view().subrange(0, components@.len() as int)
            =~= components.deep_view());
    }
    store.kv_set_intersect(&keys)
}

/// One frame to dispatch: which system, which entity, and the tick data.
pub ghost struct FrameV {
    pub system: Seq<char>,
    pub seq_no: u64,
    pub elapsed_ms: u32,
    pub shard: Seq<char>,
    pub entity: Seq<char>,
}

/// `p` publishes the frame `f` on the frames subject of its shard and
/// system.
pub open spec fn matches_frame(p: Publication, f: FrameV) -> bool {
    p.subject@ == spec_frames_subject(f.shard, f.system) && p.reply_to is None && (p.payload
        matches Payload::Frame { frame } && frame.seq_no == f.seq_no && frame.elapsed_ms
        == f.elapsed_ms && frame.shard@ == f.shard && frame.entity_id@ == f.entity)
}

/// The frames one system receives for one tick: none when the tick does
/// not align with its frame rate, otherwise one per entity that has all
/// its components, carrying the real time between two of its frames.
pub open spec fn sys_frames(
    m: Map<Seq<char>, EntryV>,
    s: SystemV,
    seq_no: u64,
    elapsed_ms: u32,
    shard: Seq<char>,
) -> Seq<FrameV> {
    if spec_should_publish(s.framerate, elapsed_ms, seq_no) {
        spec_intersect(m, entity_keys(shard, s.components)).map(
            |_i: int, e: Seq<char>|
                FrameV {
                    system: s.name,
                    seq_no,
                    elapsed_ms: (elapsed_ms * spec_modulus(s.framerate, elapsed_ms)) as u32,
                    shard,
                    entity: e,
                },
        )
    } else {
        Seq::empty()
    }
}

/// The frames all given systems receive for one tick, in registry order.
pub open spec fn frame_specs(
    m: Map<Seq<char>, EntryV>,
    systems: Seq<SystemV>,
    seq_no: u64,
    elapsed_ms: u32,
    shard: Seq<char>,
) -> Seq<FrameV>
    decreases systems.len(),
{
    if systems.len() == 0 {
        Seq::empty()
    } else {
        frame_specs(m, systems.drop_last(), seq_no, elapsed_ms, shard) + sys_frames(
            m,
            systems.last(),
            seq_no,
            elapsed_ms,
            shard,
        )
    }
}

/// `pubs` publishes exactly the frames `specs`, in order.
pub open spec fn pubs_match_frames(pubs: Seq<Publication>, specs: Seq<FrameV>) -> bool {
    pubs.len() == specs.len() && forall|i: int|
        0 <= i < specs.len() ==> matches_frame(#[trigger] pubs[i], specs[i])
}

/// What one game loop tick does: the registry is read and pruned, and
/// every live system whose clock aligns with the tick receives one frame
/// per entity that has all its components.
pub open spec fn gameloop_contract(
    pre: Map<Seq<char>, EntryV>,
    post: Map<Seq<char>, EntryV>,
    pubs: Seq<Publication>,
    seq_no: u64,
    elapsed_ms: u32,
    shard: Seq<char>,
) -> bool {
    let names = list_at(pre, spec_systems_key());
    let mp = prune_map(pre, names);
    &&& post == mp
    &&& pubs_match_frames(
        pubs,
        frame_specs(mp, live_of(pre, names), seq_no, elapsed_ms, shard),
    )
}

/// Dispatches the frames for one game loop tick.
pub fn gameloop_frames(store: &mut Store, tick: &GameLoopTick) -> (r: Vec<Publication>)
    requires
        old(store).wf(),
    ensures
        final(store).wf(),
        gameloop_contract(old(store)@, final(store)@, r@, tick.seq_no, tick.elapsed_ms, tick.shard@),
{
    let names = store.kv_list_all("decs:systems");
    let systems = get_system_list(store, names);
    let ghost mp = store@;
    let ghost live = views_of_systems(systems@);
    let mut pubs: Vec<Publication> = Vec::new();
    let mut i: usize = 0;
    while i < systems.len()
        invariant
            store.wf(),
            i <= systems@.len(),
            mp == store@,
            live == views_of_systems(systems@),
            live.len() == systems@.len(),
            pubs_match_frames(
                pubs@,
                frame_specs(mp, live.subrange(0, i as int), tick.seq_no, tick.elapsed_ms,
                tick.shard@),
            ),
        decreases systems@.len() - i,
    {
        let ghost base = frame_specs(
            mp,
            live.subrange(0, i as int),
            tick.seq_no,
            tick.elapsed_ms,
            tick.shard@,
        );
        proof {
            assert(live.subrange(0, i + 1 as int).drop_last() =~= live.subrange(0, i as int));
            assert(live.subrange(0, i + 1 as int).last() == live[i as int]);
        }
        let sys: &System = &systems[i];
        if should_publish(sys.framerate, tick.elapsed_ms, tick.seq_no) {
            let entities = get_entities_for_component_set(
                store,
                tick.shard.as_str(),
                &sys.components,
            );
            let m = system_modulus(sys.framerate, tick.elapsed_ms);
            proof {
                lemma_frame_elapsed_bound(sys.framerate, tick.elapsed_ms);
            }
            let frame_elapsed = tick.elapsed_ms * m;
            let ghost frames = sys_frames(
                mp,
                live[i as int],
                tick.seq_no,
                tick.elapsed_ms,
                tick.shard@,
            );
            let mut j: usize = 0;
            while j < entities.len()
                invariant
                    store.wf(),
                    mp == store@,
                    j <= entities@.len(),
                    frames == sys_frames(mp, live[i as int], tick.seq_no, tick.elapsed_ms,
                    tick.shard@),
                    frames.len() == entities@.len(),
                    forall|t: int|
                        0 <= t < frames.len() ==> #[trigger] frames[t] == (FrameV {
                            system: live[i as int].name,
                            seq_no: tick.seq_no,
                            elapsed_ms: frame_elapsed,
                            shard: tick.shard@,
                            entity: entities.deep_view()[t],
                        }),
                    live[i as int].name == systems@[i as int].name@,
                    i < systems@.len(),
                    frame_elapsed == (tick.elapsed_ms * spec_modulus(
                        systems@[i as int].framerate,
                        tick.elapsed_ms,
                    )) as u32,
                    pubs_match_frames(pubs@, base + frames.subrange(0, j as int)),
                decreases entities@.len() - j,
            {
                let ghost pubs_pre = pubs@;
                let subject = crate::keys::frames_subject(
                    tick.shard.as_str(),
                    systems[i].name.as_str(),
                );
                let entity: &String = &entities[j];
                pubs.push(
                    Publication {
                        subject,
                        reply_to: None,
                        payload: Payload::Frame {
                            frame: EntityFrame {
                                seq_no: tick.seq_no,
                                elapsed_ms: frame_elapsed,
                                shard: tick.shard.clone(),
                                entity_id: entity.clone(),
                            },
                        },
                    },
                );
                proof {
                    assert(frames.subrange(0, j + 1 as int).drop_last() =~= frames.subrange(
                        0,
                        j as int,
                    ));
                    assert(matches_frame(pubs@[pubs@.len() - 1], frames[j as int]));
                    assert forall|t: int|
                        0 <= t < (base + frames.subrange(0, j + 1 as int)).len() implies
                        matches_frame(
                        #[trigger] pubs@[t],
                        (base + frames.subrange(0, j + 1 as int))[t],
                    ) by {
                        if t < pubs_pre.len() {
                            assert(pubs@[t] == pubs_pre[t]);
                            assert(matches_frame(pubs_pre[t], (base + frames.subrange(
                                0,
                                j as int,
                            ))[t]));
                        }
                    }
                }
                j += 1;
            }
            proof {
                assert(frames.subrange(0, entities@.len() as int) =~= frames);
                assert(base + frames =~= frame_specs(
                    mp,
                    live.subrange(0, i + 1 as int),
                    tick.seq_no,
                    tick.elapsed_ms,
                    tick.shard@,
                ));
            }
        } else {
            proof {
                assert(base + sys_frames(
                    mp,
                    live[i as int],
                    tick.seq_no,
                    tick.elapsed_ms,
                    tick.shard@,
                ) =~= base);
                assert(base =~= frame_specs(
                    mp,
                    live.subrange(0, i + 1 as int),
                    tick.seq_no,
                    tick.elapsed_ms,
                    tick.shard@,
                ));
            }
        }
        i += 1;
    }
    proof {
        assert(live.subrange(0, systems@.len() as int) =~= live);
    }
    pubs
}

/// Serves one game loop tick carried as a message body.
pub fn handle_gameloop(store: &mut Store, body: &[u8]) -> (r: Result<
    Vec<Publication>,
    HandlerError,
>)
    requires
        old(store).wf(),
    ensures
        final(store).wf(),
        match tick_of(body@) {
            Some((seq_no, elapsed_ms, shard)) => r matches Ok(pubs) && gameloop_contract(
                old(store)@,
                final(store)@,
                pubs@,
                seq_no,
                elapsed_ms,
                shard,
            ),
            None => final(store)@ == old(store)@ && (r matches Err(e) && e is Decode),
        },
{
    let tick = match extract_gameloop_tick(body) {
        Some(t) => t,
        None => {
            return Err(HandlerError::Decode);
        },
    };
    Ok(gameloop_frames(store, &tick))
}

/// What handling one broker delivery does, by its subject: a registry
/// reply upserts a system, `get.decs.system*` subjects are served,
/// `access.decs.system*` subjects are granted read access, a gameloop
/// subject dispatches frames, and anything else is ignored.
pub open spec fn message_contract(
    pre: Map<Seq<char>, EntryV>,
    post: Map<Seq<char>, EntryV>,
    subject: Seq<char>,
    reply: Seq<char>,
    body: Seq<u8>,
    r: Result<Vec<Publication>, HandlerError>,
) -> bool {
    if subject == "decs.system.registry.replies"@ {
        registration_contract(pre, post, body, r)
    } else if spec_starts_with(subject, "get.decs.system"@) {
        post == pre && if subject == "get.decs.systems"@ {
            r matches Ok(pubs) && pubs@.len() == 1 && is_collection_reply(
                pubs@[0],
                reply,
                system_rids(list_at(pre, spec_systems_key())),
            )
        } else if spec_starts_with(subject, "get.decs.system."@) {
            match r {
                Ok(pubs) => spec_split(subject, '.').len() == 4 && (system_at(
                    pre,
                    spec_system_key(spec_split(subject, '.')[3]),
                ) matches Some(s) && pubs@.len() == 1 && is_system_model_reply(pubs@[0], reply, s)),
                Err(e) => if spec_split(subject, '.').len() != 4 {
                    e is BadSubject
                } else {
                    system_at(pre, spec_system_key(spec_split(subject, '.')[3])) is None
                        && e is NotFound
                },
            }
        } else {
            r matches Ok(pubs) && pubs@.len() == 0
        }
    } else if spec_starts_with(subject, "access.decs.system"@) {
        post == pre && (r matches Ok(pubs) && pubs@.len() == 1 && is_access_get_reply(
            pubs@[0],
            reply,
        ))
    } else if spec_ends_with(subject, ".gameloop"@) {
        match tick_of(body) {
            Some((seq_no, elapsed_ms, shard)) => r matches Ok(pubs) && gameloop_contract(
                pre,
                post,
                pubs@,
                seq_no,
                elapsed_ms,
                shard,
            ),
            None => post == pre && (r matches Err(e) && e is Decode),
        }
    } else {
        post == pre && (r matches Ok(pubs) && pubs@.len() == 0)
    }
}

/// Examines the subject of one broker delivery and serves it.
pub fn handle_message(store: &mut Store, msg: &Message) -> (r: Result<
    Vec<Publication>,
    HandlerError,
>)
    requires
        old(store).wf(),
    ensures
        final(store).wf(),
        message_contract(old(store)@, final(store)@, msg.subject@, msg.reply_to@, msg.body@, r),
{
    let subject = msg.subject.as_str();
    if str_eq(subject, "decs.system.registry.replies") {
        handle_registration(store, msg.body.as_slice())
    } else if starts_with(subject, "get.decs.system") {
        if str_eq(subject, "get.decs.systems") {
            Ok(get_collection(store, msg.reply_to.as_str()))
        } else if starts_with(subject, "get.decs.system.") {
            get_single(store, subject, msg.reply_to.as_str())
        } else {
            Ok(Vec::new())
        }
    } else if starts_with(subject, "access.decs.system") {
        Ok(handle_access(msg.reply_to.as_str()))
    } else if ends_with(subject, ".gameloop") {
        handle_gameloop(store, msg.body.as_slice())
    } else {
        Ok(Vec::new())
    }
}

/// The system manager's host entry point: timer ticks drive the registry
/// ping, broker deliveries are served, health probes succeed, anything
/// else is a bad dispatch.
pub fn handle_call(
    store: &mut Store,
    op: Operation,
    msg: Option<&Message>,
    tick: Option<&TimerTick>,
) -> (r: Result<Vec<Publication>, HandlerError>)
    requires
        old(store).wf(),
    ensures
        final(store).wf(),
        match op {
            Operation::TimerTick => final(store)@ == old(store)@ && match tick {
                Some(t) => r matches Ok(pubs) && (if t.seq_no as int % 200 == 0 {
                    pubs@.len() == 1 && is_ping_pub(pubs@[0])
                } else {
                    pubs@.len() == 0
                }),
                None => r matches Err(e) && e is Decode,
            },
            Operation::DeliverMessage => match msg {
                Some(m) => message_contract(
                    old(store)@,
                    final(store)@,
                    m.subject@,
                    m.reply_to@,
                    m.body@,
                    r,
                ),
                None => final(store)@ == old(store)@ && (r matches Err(e)
                    && e is MissingPayload),
            },
            Operation::HealthRequest => final(store)@ == old(store)@ && (r matches Ok(pubs)
                && pubs@.len() == 0),
            _ => final(store)@ == old(store)@ && (r matches Err(e) && e is BadDispatch),
        },
{
    match op {
        Operation::TimerTick => match tick {
            Some(t) => Ok(handle_timer(t)),
            None => Err(HandlerError::Decode),
        },
        Operation::DeliverMessage => match msg {
            Some(m) => handle_message(store, m),
            None => Err(HandlerError::MissingPayload),
        },
        Operation::HealthRequest => Ok(Vec::new()),
        _ => Err(HandlerError::BadDispatch),
    }
}

/// The reported time between two frames, `elapsed_ms * modulus`, never
/// leaves the range of its type: a modulus above one caps the product at
/// the thousand milliseconds the modulus was computed from.
pub proof fn lemma_frame_elapsed_bound(framerate: u32, elapsed_ms: u32)
    ensures
        elapsed_ms * spec_modulus(framerate, elapsed_ms) <= if elapsed_ms > 1000 {
            elapsed_ms as int
        } else {
            1000int
        },
{
    let m = spec_modulus(framerate, elapsed_ms) as int;
    let e = elapsed_ms as int;
    if framerate == 0 || elapsed_ms == 0 {
        assert(m == 1);
    } else {
        let f = framerate as int;
        let q = 1000int / e;
        if 1000int / e / f < 1 {
            assert(m == 1);
        } else {
            assert(q >= 0) by {
                lemma_div_pos_is_pos(1000int, e);
            }
            assert(q / f <= q) by {
                lemma_div_is_ordered_by_denominator(q, 1, f);
                lemma_div_basics(q);
            }
            assert(1 <= q / f <= 1000);
            assert(m == q / f);
            assert(e * q <= 1000) by {
                lemma_fundamental_div_mod(1000int, e);
                assert(1000int == e * q + 1000int % e);
                assert(1000int % e >= 0) by {
                    vstd::arithmetic::div_mod::lemma_mod_bound(1000int, e);
                }
            }
            lemma_mul_inequality(m, q, e);
            assert(m * e <= q * e);
            assert(e * q <= q * e) by (nonlinear_arith);
            assert(e * m == m * e) by (nonlinear_arith);
            assert(e * m <= 1000);
        }
    }
    assert(e * m <= if e > 1000 { e } else { 1000int });
}

} // verus!
