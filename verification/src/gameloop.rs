//! The game-loop ticker: fans a single raw timer tick out into one
//! per-shard game loop tick, so that a system manager can consume ticks
//! for a single shard.

use vstd::prelude::*;
use vstd::string::*;

use crate::keys::{spec_gameloop_subject, spec_shards_key};
use crate::store::{uniq_at, Store};
use crate::types::{GameLoopTick, HandlerError, Operation, Payload, Publication, TimerTick};

verus! {

/// `p` publishes the game loop tick for `shard` derived from the raw tick
/// `t`.
pub open spec fn is_tick_pub(p: Publication, shard: Seq<char>, t: TimerTick) -> bool {
    p.subject@ == spec_gameloop_subject(shard) && p.reply_to is None && (p.payload
        matches Payload::Tick { tick } && tick.seq_no == t.seq_no as u64 && tick.elapsed_ms
        == t.elapsed_ms as u32 && tick.shard@ == shard)
}

/// `pubs` carries one game loop tick per shard name, in registry order.
pub open spec fn ticks_for_shards(
    pubs: Seq<Publication>,
    shards: Seq<Seq<char>>,
    t: TimerTick,
) -> bool {
    pubs.len() == shards.len() && forall|i: int|
        0 <= i < shards.len() ==> is_tick_pub(#[trigger] pubs[i], shards[i], t)
}

/// Republishes one raw timer tick as a game loop tick on every registered
/// shard's gameloop subject.
pub fn tick(store: &Store, t: &TimerTick) -> (r: Vec<Publication>)
    requires
        store.wf(),
    ensures
        ticks_for_shards(r@, uniq_at(store@, spec_shards_key()), *t),
{
    let shards = store.kv_set_members("decs:shards");
    let mut pubs: Vec<Publication> = Vec::new();
    let mut i: usize = 0;
    while i < shards.len()
        invariant
            i <= shards@.len(),
            pubs@.len() == i,
            shards.deep_view() == uniq_at(store@, spec_shards_key()),
            forall|j: int|
                0 <= j < i ==> is_tick_pub(#[trigger] pubs@[j], shards.deep_view()[j], *t),
        decreases shards@.len() - i,
    {
        let shard: &String = &shards[i];
        let gtick = GameLoopTick::from_tick(t, shard.as_str());
        let subject = crate::keys::gameloop_subject(shard.as_str());
        pubs.push(Publication { subject, reply_to: None, payload: Payload::Tick { tick: gtick } });
        i += 1;
    }
    pubs
}

/// The ticker's host entry point: timer ticks are fanned out, health
/// probes succeed, anything else is a bad dispatch.
pub fn handle_call(store: &Store, op: Operation, t: Option<&TimerTick>) -> (r: Result<
    Vec<Publication>,
    HandlerError,
>)
    requires
        store.wf(),
    ensures
        match op {
            Operation::TimerTick => match t {
                Some(t) => r matches Ok(pubs) && ticks_for_shards(
                    pubs@,
                    uniq_at(store@, spec_shards_key()),
                    *t,
                ),
                None => r matches Err(e) && e is Decode,
            },
            Operation::HealthRequest => r matches Ok(pubs) && pubs@.len() == 0,
            _ => r matches Err(e) && e is BadDispatch,
        },
{
    match op {
        Operation::TimerTick => match t {
            Some(t) => Ok(tick(store, t)),
            None => Err(HandlerError::Decode),
        },
        Operation::HealthRequest => Ok(Vec::new()),
        _ => Err(HandlerError::BadDispatch),
    }
}

} // verus!
