//! Shared data schema: the typed records that cross the broker, and the
//! structured form of every payload the services publish.

use vstd::prelude::*;

verus! {

/// The RES protocol uniquely identifies all resources with a resource id.
#[derive(Debug, Clone, PartialEq)]
pub struct ResourceIdentifier {
    /// The resource id.
    pub rid: String,
}

/// A shard: a logical partition of the game world.
#[derive(Debug, PartialEq)]
pub struct Shard {
    /// The unique name of the shard.
    pub name: String,
    /// The capacity (number of component values) of the shard.
    pub capacity: u32,
    /// Current number of component values contained within the shard.
    pub current: u32,
}

/// Spec-level image of a [`Shard`].
pub ghost struct ShardV {
    pub name: Seq<char>,
    pub capacity: u32,
    pub current: u32,
}

impl View for Shard {
    type V = ShardV;

    open spec fn view(&self) -> ShardV {
        ShardV { name: self.name@, capacity: self.capacity, current: self.current }
    }
}

impl Shard {
    /// The default shard, created when the registry is read while empty.
    pub fn the_void() -> (r: Shard)
        ensures
            r@.name == "the_void"@,
            r@.capacity == 1000,
            r@.current == 0,
    {
        Shard { name: "the_void".to_owned(), capacity: 1000, current: 0 }
    }
}

/// A registered system (physics, combat, radar, ...): a consumer that
/// declares a set of components of interest and a preferred frame rate.
#[derive(Debug, PartialEq)]
pub struct System {
    /// The unique name of the system.
    pub name: String,
    /// Rate, in frames per second, at which this system prefers frames.
    pub framerate: u32,
    /// Component names this system needs.  The list is a conjunction: a
    /// frame is dispatched only for entities that have all of them.
    pub components: Vec<String>,
}

/// Spec-level image of a [`System`].
pub ghost struct SystemV {
    pub name: Seq<char>,
    pub framerate: u32,
    pub components: Seq<Seq<char>>,
}

impl View for System {
    type V = SystemV;

    open spec fn view(&self) -> SystemV {
        SystemV {
            name: self.name@,
            framerate: self.framerate,
            components: self.components.deep_view(),
        }
    }
}

/// A raw tick produced by the timer capability.
#[derive(Debug, PartialEq)]
pub struct TimerTick {
    /// Monotonically increasing sequence number of the tick.
    pub seq_no: i64,
    /// Elapsed time in milliseconds since the previous tick.
    pub elapsed_ms: i32,
}

/// One tick of the game loop, bound to a single shard.
#[derive(Debug, PartialEq)]
pub struct GameLoopTick {
    /// Monotonically increasing sequence number of the tick.
    pub seq_no: u64,
    /// Elapsed time in milliseconds since the previous tick.
    pub elapsed_ms: u32,
    /// The name of the shard for which this tick is bound.
    pub shard: String,
}

impl GameLoopTick {
    /// Converts a raw timer tick into a game loop tick for one shard.
    pub fn from_tick(source: &TimerTick, shard: &str) -> (r: GameLoopTick)
        ensures
            r.seq_no == source.seq_no as u64,
            r.elapsed_ms == source.elapsed_ms as u32,
            r.shard@ == shard@,
    {
        GameLoopTick {
            seq_no: #[verifier::truncate] (source.seq_no as u64),
            elapsed_ms: #[verifier::truncate] (source.elapsed_ms as u32),
            shard: shard.to_owned(),
        }
    }
}

/// One frame of work dispatched to a system for a single entity.
#[derive(Debug, PartialEq)]
pub struct EntityFrame {
    /// Monotonically increasing sequence number.
    pub seq_no: u64,
    /// Approximate elapsed time in milliseconds since the previous frame
    /// this system received.
    pub elapsed_ms: u32,
    /// Name of the shard in which this frame takes place.
    pub shard: String,
    /// Entity to which this frame applies.
    pub entity_id: String,
}

/// The error code of a protocol error reply.
#[derive(Debug, Clone, Copy, PartialEq, Eq, Structural)]
pub enum ErrorCode {
    NotFound,
    InvalidParams,
}

impl ErrorCode {
    /// The wire form of the code.
    pub fn code_str(&self) -> (r: &'static str)
        ensures
            *self is NotFound ==> r@ == "system.notFound"@,
            *self is InvalidParams ==> r@ == "system.invalidParams"@,
    {
        match self {
            ErrorCode::NotFound => "system.notFound",
            ErrorCode::InvalidParams => "system.invalidParams",
        }
    }
}

/// The structured content of a message a service publishes.  An embedding
/// binary serializes each variant into the protocol's JSON envelope.
#[derive(Debug, PartialEq)]
pub enum Payload {
    /// `{"result":{"get":true,"call":"*"}}`
    AccessGranted,
    /// `{"result":{"get":true}}`
    AccessGetOnly,
    /// `{"result":null}`
    Success,
    /// `{"result":{"model":<model>}}`; the field is the model's JSON text.
    Model { model: String },
    /// `{"result":{"model":{"name":...,"current":...,"capacity":...}}}`
    ShardModel { shard: Shard },
    /// `{"result":{"model":{"components":...,"framerate":...,"name":...}}}`;
    /// the component names are joined with commas, since the gateway allows
    /// only primitive member values.
    SystemModel { name: String, framerate: u32, components: String },
    /// `{"result":{"collection":[{"rid":...},...]}}`
    Collection { rids: Vec<ResourceIdentifier> },
    /// `{"result":{"rid":...}}`
    NewItem { rid: ResourceIdentifier },
    /// `{"error":{"code":...,"message":...}}`
    ProtocolError { code: ErrorCode, message: String },
    /// `{"values":<values>}`; the field is the changed model's JSON text.
    Change { values: String },
    /// `{"values":{"name":...,"capacity":...,"current":...}}`
    ShardChange { shard: Shard },
    /// `{"values":{"name":...,"framerate":...,"components":[...]}}`
    SystemChange { system: System },
    /// `{"value":{"rid":...},"idx":...}`
    Add { value: ResourceIdentifier, idx: usize },
    /// `{"idx":...}`
    Remove { idx: usize },
    /// `{"params":{"amount":...}}`
    Incr { amount: i32 },
    /// An entity frame, serialized as its JSON object.
    Frame { frame: EntityFrame },
    /// A game loop tick, serialized as its JSON object.
    Tick { tick: GameLoopTick },
    /// An empty registry ping.
    Ping,
}

/// One message for the embedding binary to publish on the broker.
#[derive(Debug, PartialEq)]
pub struct Publication {
    /// The subject to publish on.
    pub subject: String,
    /// The subject replies should be sent to, if any.
    pub reply_to: Option<String>,
    /// The structured body.
    pub payload: Payload,
}

/// Generates a positive protocol result containing a model, given as its
/// JSON text.
pub fn model_result(model: String) -> (r: Payload)
    ensures
        r matches Payload::Model { model: m } && m@ == model@,
{
    Payload::Model { model }
}

/// Generates a protocol error indicating that a resource was not found.
pub fn error_not_found(msg: &str) -> (r: Payload)
    ensures
        r matches Payload::ProtocolError { code, message } && code is NotFound && message@
            == msg@,
{
    Payload::ProtocolError { code: ErrorCode::NotFound, message: msg.to_owned() }
}

/// Generates a protocol error indicating invalid parameters.
pub fn error_invalid_params(msg: &str) -> (r: Payload)
    ensures
        r matches Payload::ProtocolError { code, message } && code is InvalidParams && message@
            == msg@,
{
    Payload::ProtocolError { code: ErrorCode::InvalidParams, message: msg.to_owned() }
}

/// Generates a protocol success response with no payload.
pub fn success_response() -> (r: Payload)
    ensures
        r is Success,
{
    Payload::Success
}

/// Why a handler failed.  A failure is reported to the embedding runtime;
/// no reply is sent for it.
#[derive(Debug, Clone, Copy, PartialEq, Eq, Structural)]
pub enum HandlerError {
    /// The request subject does not match any supported shape.
    BadSubject,
    /// The request subject asks for no service this handler offers.
    UnknownRequest,
    /// The delivery carried no message payload.
    MissingPayload,
    /// The message body could not be decoded.
    Decode,
    /// A record the operation needs is absent.
    NotFound,
    /// A counter mutation would leave the counter's range.
    Overflow,
    /// The host asked for an operation this service does not provide.
    BadDispatch,
}

/// One broker delivery as a service receives it.  An empty `reply_to`
/// means the sender expects no reply.
#[derive(Debug)]
pub struct Message {
    /// The subject the message was published on.
    pub subject: String,
    /// The subject a reply should be published on; empty for none.
    pub reply_to: String,
    /// The raw body.
    pub body: Vec<u8>,
}

/// The host operations a service can be invoked for.
#[derive(Debug, Clone, Copy, PartialEq, Eq, Structural)]
pub enum Operation {
    /// A broker message delivery.
    DeliverMessage,
    /// A timer tick.
    TimerTick,
    /// A health probe.
    HealthRequest,
    /// Anything else.
    Other,
}

/// The resource ids of a sequence of resource identifiers.
pub open spec fn rids_of(s: Seq<ResourceIdentifier>) -> Seq<Seq<char>> {
    Seq::new(s.len(), |i: int| s[i].rid@)
}

/// `p` publishes `payload`-less access approval on `subject`.
pub open spec fn is_access_reply(p: Publication, subject: Seq<char>) -> bool {
    p.subject@ == subject && p.reply_to is None && p.payload is AccessGranted
}

/// `p` replies on `subject` granting read access only.
pub open spec fn is_access_get_reply(p: Publication, subject: Seq<char>) -> bool {
    p.subject@ == subject && p.reply_to is None && p.payload is AccessGetOnly
}

/// `p` replies on `subject` with the empty success result.
pub open spec fn is_success_reply(p: Publication, subject: Seq<char>) -> bool {
    p.subject@ == subject && p.reply_to is None && p.payload is Success
}

/// `p` replies on `subject` with the model whose JSON text is `model`.
pub open spec fn is_model_reply(p: Publication, subject: Seq<char>, model: Seq<char>) -> bool {
    p.subject@ == subject && p.reply_to is None && (p.payload matches Payload::Model {
        model: m,
    } && m@ == model)
}

/// `p` replies on `subject` with a protocol error.
pub open spec fn is_error_reply(
    p: Publication,
    subject: Seq<char>,
    code: ErrorCode,
    message: Seq<char>,
) -> bool {
    p.subject@ == subject && p.reply_to is None && (p.payload matches Payload::ProtocolError {
        code: c,
        message: m,
    } && c == code && m@ == message)
}

/// `p` replies on `subject` with the collection of resource ids `rids`.
pub open spec fn is_collection_reply(
    p: Publication,
    subject: Seq<char>,
    rids: Seq<Seq<char>>,
) -> bool {
    p.subject@ == subject && p.reply_to is None && (p.payload matches Payload::Collection {
        rids: v,
    } && rids_of(v@) == rids)
}

/// `p` replies on `subject` with the resource id of a new collection item.
pub open spec fn is_new_item_reply(p: Publication, subject: Seq<char>, rid: Seq<char>) -> bool {
    p.subject@ == subject && p.reply_to is None && (p.payload matches Payload::NewItem {
        rid: r,
    } && r.rid@ == rid)
}

/// `p` publishes a change event for `rid` carrying the JSON text `values`.
pub open spec fn is_change_pub(p: Publication, rid: Seq<char>, values: Seq<char>) -> bool {
    p.subject@ == crate::keys::spec_change_subject(rid) && p.reply_to is None && (p.payload
        matches Payload::Change { values: v } && v@ == values)
}

/// `p` publishes an add event for collection `rid`: child `child` at
/// position `idx`.
pub open spec fn is_add_pub(p: Publication, rid: Seq<char>, child: Seq<char>, idx: int) -> bool {
    p.subject@ == crate::keys::spec_add_subject(rid) && p.reply_to is None && (p.payload
        matches Payload::Add { value: v, idx: i } && v.rid@ == child && i as int == idx)
}

/// `p` publishes a remove event for collection `rid` at position `idx`.
pub open spec fn is_remove_pub(p: Publication, rid: Seq<char>, idx: int) -> bool {
    p.subject@ == crate::keys::spec_remove_subject(rid) && p.reply_to is None && (p.payload
        matches Payload::Remove { idx: i } && i as int == idx)
}

/// `p` asks the shard manager to add `amount` to `shard`'s component
/// count.
pub open spec fn is_incr_pub(p: Publication, shard: Seq<char>, amount: i32) -> bool {
    p.subject@ == crate::keys::spec_incr_subject(shard) && p.reply_to is None && (p.payload
        matches Payload::Incr { amount: a } && a == amount)
}

/// Builds the resource identifier list for a collection reply.
pub fn to_rids(v: &Vec<String>) -> (r: Vec<ResourceIdentifier>)
    ensures
        rids_of(r@) == v.deep_view(),
{
    let mut r: Vec<ResourceIdentifier> = Vec::new();
    let mut i: usize = 0;
    while i < v.len()
        invariant
            i <= v@.len(),
            r@.len() == i,
            rids_of(r@) =~= v.deep_view().subrange(0, i as int),
        decreases v@.len() - i,
    {
        let item: &String = &v[i];
        r.push(ResourceIdentifier { rid: item.clone() });
        assert(rids_of(r@) =~= v.deep_view().subrange(0, i + 1 as int));
        i += 1;
    }
    proof {
        assert(v.deep_view().subrange(0, v@.len() as int) =~= v.deep_view());
    }
    r
}

/// A reply publication on `subject` (used for every request that carries a
/// non-empty reply subject).
pub fn reply_publication(subject: &str, payload: Payload) -> (r: Publication)
    ensures
        r.subject@ == subject@,
        r.reply_to is None,
        r.payload == payload,
{
    Publication { subject: subject.to_owned(), reply_to: None, payload }
}

} // verus!
