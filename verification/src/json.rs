//! The services' JSON boundary.  Component values are opaque JSON: the
//! core never assumes a schema for them, stores them as their serialized
//! text and compares that text for idempotence.  These trusted items hand
//! the parsing of incoming request bodies to `serde_json`; each result is
//! named by an uninterpreted function of the body's bytes alone, which is
//! sound because parsing and re-serialization are deterministic.

use vstd::prelude::*;

use crate::types::{GameLoopTick, Shard, System};

verus! {

/// The `params` member of a request envelope `{"params":...,"token":...,"cid":...}`,
/// re-serialized; `None` when the body is not valid JSON.
pub uninterp spec fn params_text_of(body: Seq<u8>) -> Option<Seq<char>>;

/// The `params.rid` string member of a request envelope; `None` when the
/// body is not valid JSON or carries no such string.
pub uninterp spec fn params_rid_of(body: Seq<u8>) -> Option<Seq<char>>;

/// The `params.amount` integer member of a request envelope, zero when the
/// member is missing; `None` when the body is not valid JSON.
pub uninterp spec fn params_amount_of(body: Seq<u8>) -> Option<i64>;

/// The shard record carried in the `params` member: its name, capacity and
/// current count (zero when missing); `None` when the body is not valid
/// JSON or the members have the wrong shape.
pub uninterp spec fn params_shard_of(body: Seq<u8>) -> Option<(Seq<char>, u32, u32)>;

/// The system record a body carries: its name, frame rate and component
/// names; `None` when the body is not valid JSON or the members have the
/// wrong shape.
pub uninterp spec fn system_of(body: Seq<u8>) -> Option<(Seq<char>, u32, Seq<Seq<char>>)>;

/// The game loop tick a body carries: its sequence number, elapsed
/// milliseconds and shard name; `None` when the body is not valid JSON or
/// the members have the wrong shape.
pub uninterp spec fn tick_of(body: Seq<u8>) -> Option<(u64, u32, Seq<char>)>;

/// Relies on `serde_json::from_slice`, `Value::index` and
/// `Value::to_string`: parses the request envelope and re-serializes its
/// `params` member.  The result depends on the bytes alone.
#[verifier::external_body]
pub fn extract_params(body: &[u8]) -> (r: Option<String>)
    ensures
        r.deep_view() == params_text_of(body@),
{
    match serde_json::from_slice::<serde_json::Value>(body) {
        Ok(v) => Some(v["params"].to_string()),
        Err(_) => None,
    }
}

/// Relies on `serde_json::from_slice`, `Value::index` and `Value::as_str`:
/// reads the `params.rid` string of the request envelope.  The result
/// depends on the bytes alone.
#[verifier::external_body]
pub fn extract_params_rid(body: &[u8]) -> (r: Option<String>)
    ensures
        r.deep_view() == params_rid_of(body@),
{
    match serde_json::from_slice::<serde_json::Value>(body) {
        Ok(v) => v["params"]["rid"].as_str().map(|s| s.to_string()),
        Err(_) => None,
    }
}

/// Relies on `serde_json::from_slice`, `Value::index` and `Value::as_i64`:
/// reads the `params.amount` integer of the request envelope, zero when it
/// is missing.  The result depends on the bytes alone.
#[verifier::external_body]
pub fn extract_params_amount(body: &[u8]) -> (r: Option<i64>)
    ensures
        r.deep_view() == params_amount_of(body@),
{
    match serde_json::from_slice::<serde_json::Value>(body) {
        Ok(v) => Some(v["params"]["amount"].as_i64().unwrap_or(0)),
        Err(_) => None,
    }
}

/// Relies on `serde_json::from_slice`, `Value::index`, `Value::as_str` and
/// `Value::as_u64`: reads the shard record out of the `params` member of
/// the request envelope.  The result depends on the bytes alone.
#[verifier::external_body]
pub fn extract_params_shard(body: &[u8]) -> (r: Option<Shard>)
    ensures
        match r {
            Some(s) => params_shard_of(body@) == Some((s.name@, s.capacity, s.current)),
            None => params_shard_of(body@) is None,
        },
{
    let v: serde_json::Value = match serde_json::from_slice(body) {
        Ok(v) => v,
        Err(_) => return None,
    };
    let p = &v["params"];
    let name = p["name"].as_str()?.to_string();
    let capacity = u32::try_from(p["capacity"].as_u64()?).ok()?;
    let current = u32::try_from(p["current"].as_u64().unwrap_or(0)).ok()?;
    Some(Shard { name, capacity, current })
}

/// Relies on `serde_json::from_slice`, `Value::index`, `Value::as_str`,
/// `Value::as_u64` and `Value::as_array`: reads a system record out of a
/// registry reply body.  The result depends on the bytes alone.
#[verifier::external_body]
pub fn extract_system(body: &[u8]) -> (r: Option<System>)
    ensures
        match r {
            Some(s) => system_of(body@) == Some((s.name@, s.framerate, s.components.deep_view())),
            None => system_of(body@) is None,
        },
{
    let v: serde_json::Value = match serde_json::from_slice(body) {
        Ok(v) => v,
        Err(_) => return None,
    };
    let name = v["name"].as_str()?.to_string();
    let framerate = u32::try_from(v["framerate"].as_u64()?).ok()?;
    let components = v["components"].as_array()?.iter().map(|c| c.as_str().map(
        |s| s.to_string(),
    )).collect::<Option<Vec<String>>>()?;
    Some(System { name, framerate, components })
}

/// Relies on `serde_json::from_slice`, `Value::index`, `Value::as_str` and
/// `Value::as_u64`: reads a game loop tick out of a gameloop message body.
/// The result depends on the bytes alone.
#[verifier::external_body]
pub fn extract_gameloop_tick(body: &[u8]) -> (r: Option<GameLoopTick>)
    ensures
        match r {
            Some(t) => tick_of(body@) == Some((t.seq_no, t.elapsed_ms, t.shard@)),
            None => tick_of(body@) is None,
        },
{
    let v: serde_json::Value = match serde_json::from_slice(body) {
        Ok(v) => v,
        Err(_) => return None,
    };
    let seq_no = v["seq_no"].as_u64()?;
    let elapsed_ms = u32::try_from(v["elapsed_ms"].as_u64()?).ok()?;
    let shard = v["shard"].as_str()?.to_string();
    Some(GameLoopTick { seq_no, elapsed_ms, shard })
}

} // verus!
