//! Derivation of store keys and broker subjects from resource ids.
//!
//! A resource id is a dotted path (`decs.components.{shard}.{entity}.{component}`);
//! its store key is the same path with `.` replaced by `:`.  Auxiliary keys
//! (`:type`, `:id`, counters, membership sets) hang off it.

use vstd::prelude::*;
use vstd::string::*;

use crate::text::{replace_char, spec_join, spec_replace};

verus! {

/// The store key of a resource id: the id with dots turned into colons.
pub open spec fn spec_rid_key(rid: Seq<char>) -> Seq<char> {
    spec_replace(rid, '.', ':')
}

/// The key a resource id's type tag is stored under.
pub open spec fn spec_type_key(rid: Seq<char>) -> Seq<char> {
    spec_rid_key(rid) + ":type"@
}

/// The key of a collection's child-id counter.
pub open spec fn spec_id_key(rid: Seq<char>) -> Seq<char> {
    spec_rid_key(rid) + ":id"@
}

/// The key of the set of entities that have component `component` in shard
/// `shard`.
pub open spec fn spec_entities_key(shard: Seq<char>, component: Seq<char>) -> Seq<char> {
    "decs:"@ + shard + ":"@ + component + ":entities"@
}

/// The key of the shard registry set.
pub open spec fn spec_shards_key() -> Seq<char> {
    "decs:shards"@
}

/// The key a shard's record is stored under.
pub open spec fn spec_shard_key(name: Seq<char>) -> Seq<char> {
    "decs:shard:"@ + name
}

/// The key of a shard's live component counter.
pub open spec fn spec_count_key(name: Seq<char>) -> Seq<char> {
    "decs:shard:"@ + name + ":count"@
}

/// The key of the system registry list.
pub open spec fn spec_systems_key() -> Seq<char> {
    "decs:systems"@
}

/// The key a system's record is stored under.
pub open spec fn spec_system_key(name: Seq<char>) -> Seq<char> {
    "system:"@ + name
}

/// The store key of a resource id.
pub fn rid_key(rid: &str) -> (r: String)
    ensures
        r@ == spec_rid_key(rid@),
{
    replace_char(rid, '.', ':')
}

/// The key of the type tag for a resource id.
pub fn type_key(rid: &str) -> (r: String)
    ensures
        r@ == spec_type_key(rid@),
{
    let mut r = rid_key(rid);
    r.append(":type");
    r
}

/// The key of the child-id counter for a collection resource id.
pub fn id_key(rid: &str) -> (r: String)
    ensures
        r@ == spec_id_key(rid@),
{
    let mut r = rid_key(rid);
    r.append(":id");
    r
}

/// The store key for a single component, from the tokens of its resource
/// id.
pub fn component_key(tokens: &Vec<String>) -> (r: String)
    ensures
        r@ == spec_join(tokens.deep_view(), ':'),
{
    proof {
        reveal_strlit(":");
    }
    crate::text::join_strings(tokens, ":")
}

/// The key of the set of entities that have a given component, from the
/// tokens of a component resource id
/// (`decs.components.{shard}.{entity}.{component}`).
pub fn component_entities_key(tokens: &Vec<String>) -> (r: String)
    requires
        tokens@.len() >= 5,
    ensures
        r@ == spec_entities_key(tokens@[2]@, tokens@[4]@),
{
    let mut r: String = "decs:".to_owned();
    r.append(tokens[2].as_str());
    r.append(":");
    r.append(tokens[4].as_str());
    r.append(":entities");
    proof {
        assert(r@ =~= spec_entities_key(tokens@[2]@, tokens@[4]@));
    }
    r
}

/// The key of the set of entities that have `component` in `shard`.
pub fn entities_key(shard: &str, component: &str) -> (r: String)
    ensures
        r@ == spec_entities_key(shard@, component@),
{
    let mut r: String = "decs:".to_owned();
    r.append(shard);
    r.append(":");
    r.append(component);
    r.append(":entities");
    proof {
        assert(r@ =~= spec_entities_key(shard@, component@));
    }
    r
}

/// The entity id inside a component resource id.
pub fn entity_id(tokens: &Vec<String>) -> (r: String)
    requires
        tokens@.len() >= 4,
    ensures
        r@ == tokens@[3]@,
{
    let item: &String = &tokens[3];
    item.clone()
}

/// The shard name inside a component resource id
/// (`decs.components.{shard}....`).
pub fn shard_from_tokens(tokens: &Vec<String>) -> (r: String)
    requires
        tokens@.len() >= 3,
    ensures
        r@ == tokens@[2]@,
{
    let item: &String = &tokens[2];
    item.clone()
}

/// The resource id of a shard.
pub open spec fn spec_shard_rid(name: Seq<char>) -> Seq<char> {
    "decs.shard."@ + name
}

/// The resource id of a system.
pub open spec fn spec_system_rid(name: Seq<char>) -> Seq<char> {
    "decs.system."@ + name
}

/// The subject of a change event for a resource.
pub open spec fn spec_change_subject(rid: Seq<char>) -> Seq<char> {
    "event."@ + rid + ".change"@
}

/// The subject of a collection add event.
pub open spec fn spec_add_subject(rid: Seq<char>) -> Seq<char> {
    "event."@ + rid + ".add"@
}

/// The subject of a collection remove event.
pub open spec fn spec_remove_subject(rid: Seq<char>) -> Seq<char> {
    "event."@ + rid + ".remove"@
}

/// The subject of the shard manager's atomic increment endpoint.
pub open spec fn spec_incr_subject(shard: Seq<char>) -> Seq<char> {
    "call.decs.shard."@ + shard + ".incr"@
}

/// The subject frames for one system in one shard are published on.
pub open spec fn spec_frames_subject(shard: Seq<char>, system: Seq<char>) -> Seq<char> {
    "decs.frames."@ + shard + "."@ + system
}

/// The subject a shard's game loop ticks are published on.
pub open spec fn spec_gameloop_subject(shard: Seq<char>) -> Seq<char> {
    "decs."@ + shard + ".gameloop"@
}

/// The resource id of a shard.
pub fn shard_rid(name: &str) -> (r: String)
    ensures
        r@ == spec_shard_rid(name@),
{
    let mut r: String = "decs.shard.".to_owned();
    r.append(name);
    r
}

/// The resource id of a system.
pub fn system_rid(name: &str) -> (r: String)
    ensures
        r@ == spec_system_rid(name@),
{
    let mut r: String = "decs.system.".to_owned();
    r.append(name);
    r
}

/// The key a shard's record is stored under.
pub fn shard_key(name: &str) -> (r: String)
    ensures
        r@ == spec_shard_key(name@),
{
    let mut r: String = "decs:shard:".to_owned();
    r.append(name);
    r
}

/// The key of a shard's live component counter.
pub fn count_key(name: &str) -> (r: String)
    ensures
        r@ == spec_count_key(name@),
{
    let mut r = shard_key(name);
    r.append(":count");
    r
}

/// The key a system's record is stored under.
pub fn system_key(name: &str) -> (r: String)
    ensures
        r@ == spec_system_key(name@),
{
    let mut r: String = "system:".to_owned();
    r.append(name);
    r
}

/// The subject of a change event for a resource.
pub fn change_subject(rid: &str) -> (r: String)
    ensures
        r@ == spec_change_subject(rid@),
{
    let mut r: String = "event.".to_owned();
    r.append(rid);
    r.append(".change");
    r
}

/// The subject of a collection add event.
pub fn add_subject(rid: &str) -> (r: String)
    ensures
        r@ == spec_add_subject(rid@),
{
    let mut r: String = "event.".to_owned();
    r.append(rid);
    r.append(".add");
    r
}

/// The subject of a collection remove event.
pub fn remove_subject(rid: &str) -> (r: String)
    ensures
        r@ == spec_remove_subject(rid@),
{
    let mut r: String = "event.".to_owned();
    r.append(rid);
    r.append(".remove");
    r
}

/// The subject of the shard manager's atomic increment endpoint.
pub fn incr_subject(shard: &str) -> (r: String)
    ensures
        r@ == spec_incr_subject(shard@),
{
    let mut r: String = "call.decs.shard.".to_owned();
    r.append(shard);
    r.append(".incr");
    r
}

/// The subject frames for one system in one shard are published on.
pub fn frames_subject(shard: &str, system: &str) -> (r: String)
    ensures
        r@ == spec_frames_subject(shard@, system@),
{
    let mut r: String = "decs.frames.".to_owned();
    r.append(shard);
    r.append(".");
    r.append(system);
    r
}

/// The subject a shard's game loop ticks are published on.
pub fn gameloop_subject(shard: &str) -> (r: String)
    ensures
        r@ == spec_gameloop_subject(shard@),
{
    let mut r: String = "decs.".to_owned();
    r.append(shard);
    r.append(".gameloop");
    r
}

} // verus!
