//! The real-time session: hello, identify, heartbeats and the decoding of
//! dispatched frames into typed events.
//!
//! The transport and the timer are driven by the caller; this module decides
//! what each received frame means and what to send.
use vstd::prelude::*;
use crate::json::{Json, parse_json, parsed, req_str, opt_str, req_uint, opt_uint, required_str, quote, quoted, decimal, decimal_text};
use crate::models::{
    Channel, Guild, HelloData, IdentifyData, IdentifyProperties, Message, User, channel_ok,
    channel_body_matches, guild_of, message_matches, message_ok, user_of, OP_DISPATCH, OP_HELLO, OP_HEARTBEAT_ACK,
    INTENT_GUILDS, INTENT_GUILD_MESSAGES, INTENT_DIRECT_MESSAGES, INTENT_MESSAGE_CONTENT,
};
use crate::text::{join3, same_text};

verus! {

/// An envelope of the session protocol.
#[derive(Debug, PartialEq)]
pub struct GatewayPayload {
    pub op: u8,
    pub d: Option<Json>,
    pub s: Option<u64>,
    pub t: Option<String>,
}

/// The envelope that the object `j` describes: `op` is an integer below 256,
/// `s` absent, null or an integer, `t` absent, null or a string; `d` is kept
/// unless absent or null.
pub open spec fn payload_of(j: Json) -> Option<GatewayPayload> {
    let op = req_uint(j.field("op"@), 256);
    let s = opt_uint(j.field("s"@), 0x1_0000_0000_0000_0000);
    let t = opt_str(j.field("t"@));
    let d = match j.field("d"@) {
        Some(Json::Null) => None,
        other => other,
    };
    if op is Some && s is Some && t is Some {
        Some(GatewayPayload { op: op->0 as u8, d, s: s->0, t: t->0 })
    } else {
        None
    }
}

impl GatewayPayload {
    /// Reads an envelope out of a frame.
    pub fn from_json(j: Json) -> (r: Option<GatewayPayload>)
        ensures
            r == payload_of(j),
    {
        let op = crate::json::required_uint(j.get("op"), 256);
        let s = crate::json::optional_uint(j.get("s"), 0x1_0000_0000_0000_0000);
        let t = crate::json::optional_str(j.get("t"));
        match (op, s, t) {
            (Some(op), Some(s), Some(t)) => {
                let d = match j.take("d") {
                    Some(Json::Null) => None,
                    other => other,
                };
                Some(GatewayPayload { op: op as u8, d, s, t })
            },
            _ => None,
        }
    }
}

/// A typed event of the session.
#[derive(Debug, PartialEq)]
pub enum GatewayEvent {
    /// The session is ready; the data carries the whole snapshot.
    Ready(Json),
    /// A guild became available, with its text channels.
    GuildCreate { guild: Guild, channels: Vec<Channel> },
    MessageCreate(Message),
    MessageUpdate(Message),
    MessageDelete { id: String, channel_id: String },
}

/// What the session shares between the reading side and the heartbeat side.
#[derive(Debug, Clone, PartialEq)]
pub struct SessionContext {
    /// The sequence number of the latest frame that carried one.
    pub last_sequence: Option<u64>,
    /// The session's id, from the first ready event.
    pub session_id: Option<String>,
}

/// The sequence number after the frame `j` is read, starting from `seq`.
pub open spec fn next_sequence(seq: Option<u64>, j: Json) -> Option<u64> {
    match payload_of(j) {
        Some(p) => if p.s is Some {
            p.s
        } else {
            seq
        },
        None => seq,
    }
}

/// Whether the ready data `d` is well formed: a string `session_id` and a
/// user under `user`.
pub open spec fn ready_ok(d: Json) -> bool {
    &&& req_str(d.field("session_id"@)) is Some
    &&& d.field("user"@) is Some
    &&& user_of(d.field("user"@)->0) is Some
}

/// Whether a channel entry of a guild is kept: it is a channel, and a text
/// channel.
pub open spec fn keeps_channel(j: Json) -> bool {
    channel_ok(j) && req_uint(j.field("type"@), 256) == Some(0u64)
}

/// The channel entries of `items` that are kept, in order.
pub open spec fn kept_channels(items: Seq<Json>) -> Seq<Json>
    decreases items.len(),
{
    if items.len() == 0 {
        Seq::empty()
    } else {
        let rest = kept_channels(items.drop_last());
        if keeps_channel(items.last()) {
            rest.push(items.last())
        } else {
            rest
        }
    }
}

/// Whether `c` is the channel that entry `j` describes, placed in guild
/// `gid` when the entry names no guild.
pub open spec fn guild_channel_matches(j: Json, c: Channel, gid: String) -> bool {
    &&& channel_body_matches(j, c)
    &&& c.guild_id == match opt_str(j.field("guild_id"@)) {
        Some(Some(g)) => Some(g),
        _ => Some(gid),
    }
}

/// Whether `cs` are the channels that `items` describe for guild `gid`.
pub open spec fn guild_channels_match(items: Seq<Json>, gid: String, cs: Seq<Channel>) -> bool {
    let kept = kept_channels(items);
    cs.len() == kept.len() && forall|k: int| 0 <= k < cs.len() ==> guild_channel_matches(kept[k], #[trigger] cs[k], gid)
}

/// Whether the dispatched type `t` is one the session translates.
pub open spec fn known_dispatch(t: Seq<char>) -> bool {
    t == "READY"@ || t == "GUILD_CREATE"@ || t == "MESSAGE_CREATE"@ || t == "MESSAGE_UPDATE"@
        || t == "MESSAGE_DELETE"@
}

/// Whether `r` is the event for a dispatch of type `t` with data `d`.
pub open spec fn dispatch_outcome(t: Seq<char>, d: Json, r: Option<GatewayEvent>) -> bool {
    if t == "READY"@ {
        if ready_ok(d) {
            r == Some(GatewayEvent::Ready(d))
        } else {
            r is None
        }
    } else if t == "GUILD_CREATE"@ {
        match (guild_of(d), d.field("channels"@)) {
            (Some(g), Some(Json::Array(items))) => match r {
                Some(GatewayEvent::GuildCreate { guild, channels }) => guild == g
                    && guild_channels_match(items@, g.id, channels@),
                _ => false,
            },
            _ => r is None,
        }
    } else if t == "MESSAGE_CREATE"@ {
        match r {
            Some(GatewayEvent::MessageCreate(m)) => message_ok(d) && message_matches(d, m),
            None => !message_ok(d),
            _ => false,
        }
    } else if t == "MESSAGE_UPDATE"@ {
        match r {
            Some(GatewayEvent::MessageUpdate(m)) => message_ok(d) && message_matches(d, m),
            None => !message_ok(d),
            _ => false,
        }
    } else if t == "MESSAGE_DELETE"@ {
        let id = req_str(d.field("id"@));
        let channel_id = req_str(d.field("channel_id"@));
        if id is Some && channel_id is Some {
            r == Some(GatewayEvent::MessageDelete { id: id->0, channel_id: channel_id->0 })
        } else {
            r is None
        }
    } else {
        r is None
    }
}

/// Whether `r` is the event for the frame `j`: none unless `j` is a
/// dispatch envelope with a type and data.
pub open spec fn frame_outcome(j: Json, r: Option<GatewayEvent>) -> bool {
    match payload_of(j) {
        Some(p) => if p.op == OP_DISPATCH && p.t is Some && p.d is Some {
            dispatch_outcome(p.t->0@, p.d->0, r)
        } else {
            r is None
        },
        None => r is None,
    }
}

/// The session id after an event `r`, starting from `sid`: set by the first
/// ready event and kept afterwards.
pub open spec fn next_session_id(sid: Option<String>, r: Option<GatewayEvent>) -> Option<String> {
    match (sid, r) {
        (None, Some(GatewayEvent::Ready(d))) => req_str(d.field("session_id"@)),
        _ => sid,
    }
}

/// Reads the channel entries of a guild, keeping its text channels and
/// placing those that name no guild in guild `gid`.
fn guild_channels(items: &Vec<Json>, gid: &String) -> (r: Vec<Channel>)
    ensures
        guild_channels_match(items@, *gid, r@),
{
    let mut out: Vec<Channel> = Vec::new();
    let mut i: usize = 0;
    while i < items.len()
        invariant
            i <= items@.len(),
            guild_channels_match(items@.subrange(0, i as int), *gid, out@),
        decreases items.len() - i,
    {
        let ghost prefix = items@.subrange(0, i as int);
        let ghost next = items@.subrange(0, i + 1);
        assert(next.drop_last() =~= prefix);
        assert(next.last() == items@[i as int]);
        match Channel::from_json(&items[i]) {
            Some(c) => {
                if c.channel_type == 0 {
                    let mut c = c;
                    if c.guild_id.is_none() {
                        c.guild_id = Some(gid.clone());
                    }
                    let ghost before = out@;
                    out.push(c);
                    assert(kept_channels(next) == kept_channels(prefix).push(items@[i as int]));
                    assert forall|k: int| 0 <= k < out@.len() implies guild_channel_matches(
                        kept_channels(next)[k],
                        #[trigger] out@[k],
                        *gid,
                    ) by {
                        if k < out@.len() - 1 {
                            assert(out@[k] == before[k]);
                        }
                    }
                }
            },
            None => {},
        }
        i = i + 1;
    }
    assert(items@.subrange(0, items@.len() as int) =~= items@);
    out
}

/// Translates dispatched data `d` of type `t` into an event.
fn dispatch_event(t: &String, d: Json) -> (r: Option<GatewayEvent>)
    ensures
        dispatch_outcome(t@, d, r),
{
    if same_text(t, "READY") {
        let ok = match (required_str(d.get("session_id")), d.get("user")) {
            (Some(_), Some(u)) => User::from_json(u).is_some(),
            _ => false,
        };
        if ok {
            Some(GatewayEvent::Ready(d))
        } else {
            None
        }
    } else if same_text(t, "GUILD_CREATE") {
        match (Guild::from_json(&d), d.get("channels")) {
            (Some(guild), Some(Json::Array(items))) => {
                let channels = guild_channels(items, &guild.id);
                Some(GatewayEvent::GuildCreate { guild, channels })
            },
            _ => None,
        }
    } else if same_text(t, "MESSAGE_CREATE") {
        match Message::from_json(&d) {
            Some(m) => Some(GatewayEvent::MessageCreate(m)),
            None => None,
        }
    } else if same_text(t, "MESSAGE_UPDATE") {
        match Message::from_json(&d) {
            Some(m) => Some(GatewayEvent::MessageUpdate(m)),
            None => None,
        }
    } else if same_text(t, "MESSAGE_DELETE") {
        match (required_str(d.get("id")), required_str(d.get("channel_id"))) {
            (Some(id), Some(channel_id)) => Some(GatewayEvent::MessageDelete { id, channel_id }),
            _ => None,
        }
    } else {
        None
    }
}

/// Handles one parsed frame: records its sequence number, and translates a
/// dispatch into an event. A frame that is not a well-formed envelope, a
/// dispatch of a type the session does not know, and dispatched data that
/// does not decode are dropped without an event.
pub fn handle_payload(ctx: &mut SessionContext, frame: Json) -> (r: Option<GatewayEvent>)
    ensures
        final(ctx).last_sequence == next_sequence(old(ctx).last_sequence, frame),
        frame_outcome(frame, r),
        final(ctx).session_id == next_session_id(old(ctx).session_id, r),
{
    let payload = match GatewayPayload::from_json(frame) {
        Some(p) => p,
        None => return None,
    };
    if payload.s.is_some() {
        ctx.last_sequence = payload.s;
    }
    if payload.op != OP_DISPATCH {
        return None;
    }
    let (t, d) = match (payload.t, payload.d) {
        (Some(t), Some(d)) => (t, d),
        _ => return None,
    };
    let r = dispatch_event(&t, d);
    if ctx.session_id.is_none() {
        if let Some(GatewayEvent::Ready(data)) = &r {
            ctx.session_id = required_str(data.get("session_id"));
        }
    }
    r
}


/// Why a session cannot go on.
#[derive(Debug, Clone, PartialEq)]
pub enum GatewayError {
    /// A frame before Hello was not a session envelope.
    MalformedFrame,
    /// The Hello frame carried no data.
    MissingHelloData,
    /// The Hello frame's data held no heartbeat interval.
    BadHelloData,
    /// The transport closed before a Hello frame arrived.
    NoHello,
}

/// What one frame read while waiting for Hello leads to.
#[derive(Debug, Clone, PartialEq)]
pub enum HelloStep {
    /// Not a Hello frame: keep waiting.
    Pending,
    /// The Hello frame, with the heartbeat interval in milliseconds.
    Interval(u64),
    /// The session cannot start.
    Failed(GatewayError),
}

/// The outcome of reading `frame` (`None` when the text was not JSON) while
/// waiting for Hello.
pub open spec fn hello_outcome(frame: Option<Json>) -> HelloStep {
    match frame {
        None => HelloStep::Failed(GatewayError::MalformedFrame),
        Some(j) => match payload_of(j) {
            None => HelloStep::Failed(GatewayError::MalformedFrame),
            Some(p) => if p.op != OP_HELLO {
                HelloStep::Pending
            } else {
                match p.d {
                    None => HelloStep::Failed(GatewayError::MissingHelloData),
                    Some(d) => match req_uint(d.field("heartbeat_interval"@), 0x1_0000_0000_0000_0000) {
                        Some(n) => HelloStep::Interval(n),
                        None => HelloStep::Failed(GatewayError::BadHelloData),
                    },
                }
            },
        },
    }
}

/// Reads one frame while waiting for Hello.
pub fn hello_step(frame: Option<Json>) -> (r: HelloStep)
    ensures
        r == hello_outcome(frame),
{
    let j = match frame {
        Some(j) => j,
        None => return HelloStep::Failed(GatewayError::MalformedFrame),
    };
    let p = match GatewayPayload::from_json(j) {
        Some(p) => p,
        None => return HelloStep::Failed(GatewayError::MalformedFrame),
    };
    if p.op != OP_HELLO {
        return HelloStep::Pending;
    }
    match p.d {
        None => HelloStep::Failed(GatewayError::MissingHelloData),
        Some(d) => match HelloData::from_json(&d) {
            Some(h) => HelloStep::Interval(h.heartbeat_interval),
            None => HelloStep::Failed(GatewayError::BadHelloData),
        },
    }
}

/// A Hello envelope whose data holds an integer `heartbeat_interval` yields
/// exactly that interval.
pub proof fn lemma_hello_yields_interval(frame: Json, n: u64)
    requires
        payload_of(frame) is Some,
        payload_of(frame)->0.op == OP_HELLO,
        payload_of(frame)->0.d is Some,
        payload_of(frame)->0.d->0.field("heartbeat_interval"@) == Some(Json::UInt(n)),
    ensures
        hello_outcome(Some(frame)) == HelloStep::Interval(n),
{
}

/// The address of the real-time server, with the protocol version and the
/// encoding chosen.
pub fn gateway_url(base: &str) -> (r: String)
    ensures
        r@ == base@ + "/?v=10&encoding=json"@,
{
    let mut r = String::from_str(base);
    r.append("/?v=10&encoding=json");
    r
}

/// The text of a sequence number in a heartbeat: the number, or `null`.
pub open spec fn sequence_text(seq: Option<u64>) -> Seq<char> {
    match seq {
        Some(n) => decimal(n as nat),
        None => "null"@,
    }
}

/// The heartbeat frame carrying `seq`.
pub open spec fn heartbeat_text(seq: Option<u64>) -> Seq<char> {
    "{\"op\":1,\"d\":"@ + sequence_text(seq) + "}"@
}

/// Writes the heartbeat frame that carries the latest sequence number.
pub fn heartbeat_frame(seq: Option<u64>) -> (r: String)
    ensures
        r@ == heartbeat_text(seq),
{
    match seq {
        Some(n) => join3("{\"op\":1,\"d\":", decimal_text(n).as_str(), "}"),
        None => join3("{\"op\":1,\"d\":", "null", "}"),
    }
}

/// Which identity a session presents, and so which Identify frame it sends.
#[derive(Debug, Clone, PartialEq)]
pub enum Identity {
    /// A full user account, described as a desktop browser client.
    UserAccount,
    /// A service identity, which names its intents.
    Service,
}

/// What the Identify frame of a user account holds after its token.
pub const USER_IDENTIFY_TAIL: &'static str = ",\"capabilities\":16381,\"properties\":{\"os\":\"Mac OS X\",\"browser\":\"Chrome\",\"device\":\"\",\"system_locale\":\"ja-JP\",\"browser_user_agent\":\"Mozilla/5.0 (Macintosh; Intel Mac OS X 10_15_7) AppleWebKit/537.36 (KHTML, like Gecko) Chrome/120.0.0.0 Safari/537.36\",\"browser_version\":\"120.0.0.0\",\"os_version\":\"10.15.7\",\"referrer\":\"\",\"referring_domain\":\"\",\"referrer_current\":\"\",\"referring_domain_current\":\"\",\"release_channel\":\"stable\",\"client_build_number\":261053,\"client_event_source\":null},\"presence\":{\"status\":\"online\",\"since\":0,\"activities\":[],\"afk\":false},\"compress\":false,\"client_state\":{\"guild_versions\":{},\"highest_last_message_id\":\"0\",\"read_state_version\":0,\"user_guild_settings_version\":-1,\"user_settings_version\":-1,\"private_channels_version\":\"0\",\"api_code_version\":0}}}";

/// The operating system a service identity reports.
pub const SERVICE_OS: &'static str = "linux";
/// The browser and device a service identity reports.
pub const SERVICE_CLIENT: &'static str = "hakuhyo";

/// The intents a session asks for: guilds, their messages, direct messages
/// and message content.
pub const SESSION_INTENTS: u32 = 37377;

/// The Identify frame that identity `id` sends with `token` and `intents`.
pub open spec fn identify_text(id: Identity, token: Seq<char>, intents: u32) -> Seq<char> {
    match id {
        Identity::UserAccount => "{\"op\":2,\"d\":{\"token\":"@ + quoted(token) + USER_IDENTIFY_TAIL@,
        Identity::Service => "{\"op\":2,\"d\":"@ + "{\"token\":"@ + quoted(token) + ",\"intents\":"@
            + decimal(intents as nat) + ",\"properties\":"@ + "{\"os\":"@ + quoted(SERVICE_OS@)
            + ",\"browser\":"@ + quoted(SERVICE_CLIENT@) + ",\"device\":"@ + quoted(SERVICE_CLIENT@)
            + "}"@ + "}"@ + "}"@,
    }
}

/// The phase of a session.
#[derive(Debug, Clone, PartialEq)]
pub enum SessionPhase {
    AwaitingHello,
    Identifying,
    Connected,
    Closed,
}

/// One real-time session, from the open transport to its close.
pub struct GatewayClient {
    pub token: String,
    pub intents: u32,
    pub identity: Identity,
    pub phase: SessionPhase,
    /// The heartbeat cadence in milliseconds, once Hello has arrived.
    pub heartbeat_interval: Option<u64>,
    pub context: SessionContext,
}

impl GatewayClient {
    /// Whether the cadence is known exactly when Hello has been seen.
    pub open spec fn wf(&self) -> bool {
        (self.phase is Identifying || self.phase is Connected) ==> self.heartbeat_interval is Some
    }

    /// A session over a transport that has just opened.
    pub fn new(token: String, identity: Identity) -> (r: GatewayClient)
        ensures
            r.wf(),
            r.token == token,
            r.identity == identity,
            r.intents == INTENT_GUILDS | INTENT_GUILD_MESSAGES | INTENT_DIRECT_MESSAGES | INTENT_MESSAGE_CONTENT,
            r.phase is AwaitingHello,
            r.heartbeat_interval is None,
            r.context.last_sequence is None,
            r.context.session_id is None,
    {
        let intents = INTENT_GUILDS | INTENT_GUILD_MESSAGES | INTENT_DIRECT_MESSAGES | INTENT_MESSAGE_CONTENT;
        GatewayClient {
            token,
            intents,
            identity,
            phase: SessionPhase::AwaitingHello,
            heartbeat_interval: None,
            context: SessionContext { last_sequence: None, session_id: None },
        }
    }

    /// Takes one parsed frame while waiting for Hello. On Hello the session
    /// goes on to identify; on a failure it closes; other frames are passed
    /// over. Outside the wait nothing changes.
    pub fn on_hello_frame(&mut self, frame: Option<Json>) -> (r: HelloStep)
        ensures
            old(self).phase is AwaitingHello ==> r == hello_outcome(frame),
            !(old(self).phase is AwaitingHello) ==> r is Pending && *final(self) == *old(self),
            r matches HelloStep::Interval(n) ==> final(self).phase is Identifying
                && final(self).heartbeat_interval == Some(n),
            r is Failed ==> final(self).phase is Closed,
            r is Pending ==> *final(self) == *old(self),
            final(self).token == old(self).token,
            final(self).context == old(self).context,
            old(self).wf() ==> final(self).wf(),
    {
        if !matches!(self.phase, SessionPhase::AwaitingHello) {
            return HelloStep::Pending;
        }
        let r = hello_step(frame);
        match r {
            HelloStep::Interval(n) => {
                self.phase = SessionPhase::Identifying;
                self.heartbeat_interval = Some(n);
            },
            HelloStep::Failed(_) => {
                self.phase = SessionPhase::Closed;
            },
            HelloStep::Pending => {},
        }
        r
    }

    /// Takes one received text frame while waiting for Hello.
    pub fn wait_for_hello(&mut self, text: &str) -> (r: HelloStep)
        ensures
            old(self).phase is AwaitingHello ==> r == hello_outcome(parsed(text@)),
            !(old(self).phase is AwaitingHello) ==> r is Pending && *final(self) == *old(self),
            r matches HelloStep::Interval(n) ==> final(self).phase is Identifying
                && final(self).heartbeat_interval == Some(n),
            r is Failed ==> final(self).phase is Closed,
            r is Pending ==> *final(self) == *old(self),
            old(self).wf() ==> final(self).wf(),
    {
        let frame = parse_json(text);
        self.on_hello_frame(frame)
    }

    /// The Identify frame, sent once after Hello; the session is then
    /// connected. `None` in any other phase.
    pub fn send_identify(&mut self) -> (r: Option<String>)
        ensures
            old(self).phase is Identifying ==> r is Some
                && r->0@ == identify_text(old(self).identity, old(self).token@, old(self).intents)
                && final(self).phase is Connected,
            !(old(self).phase is Identifying) ==> r is None && final(self).phase == old(self).phase,
            final(self).token == old(self).token,
            final(self).heartbeat_interval == old(self).heartbeat_interval,
            final(self).context == old(self).context,
            old(self).wf() ==> final(self).wf(),
    {
        if !matches!(self.phase, SessionPhase::Identifying) {
            return None;
        }
        let token = quote(self.token.as_str());
        let text = match self.identity {
            Identity::UserAccount => {
                let r = join3("{\"op\":2,\"d\":{\"token\":", token.as_str(), USER_IDENTIFY_TAIL);
                r
            },
            Identity::Service => {
                let data = IdentifyData {
                    token: self.token.clone(),
                    intents: self.intents,
                    properties: IdentifyProperties {
                        os: String::from_str(SERVICE_OS),
                        browser: String::from_str(SERVICE_CLIENT),
                        device: String::from_str(SERVICE_CLIENT),
                    },
                };
                let r = join3("{\"op\":2,\"d\":", data.to_json_text().as_str(), "}");
                assert(r@ =~= identify_text(self.identity, self.token@, self.intents));
                r
            },
        };
        self.phase = SessionPhase::Connected;
        Some(text)
    }

    /// The heartbeat frame for the latest sequence number seen.
    pub fn heartbeat(&self) -> (r: String)
        ensures
            r@ == heartbeat_text(self.context.last_sequence),
    {
        heartbeat_frame(self.context.last_sequence)
    }

    /// Takes one received text frame of a connected session; a text that is
    /// not JSON is dropped like any other malformed frame.
    pub fn handle_message(&mut self, text: &str) -> (r: Option<GatewayEvent>)
        ensures
            match parsed(text@) {
                Some(f) => frame_outcome(f, r)
                    && final(self).context.last_sequence == next_sequence(old(self).context.last_sequence, f),
                None => r is None && final(self).context == old(self).context,
            },
            final(self).context.session_id == next_session_id(old(self).context.session_id, r),
            final(self).phase == old(self).phase,
            final(self).token == old(self).token,
            final(self).heartbeat_interval == old(self).heartbeat_interval,
    {
        match parse_json(text) {
            Some(j) => handle_payload(&mut self.context, j),
            None => None,
        }
    }

    /// The transport closed, or a send failed: the session ends.
    pub fn close(&mut self)
        ensures
            final(self).phase is Closed,
            final(self).context == old(self).context,
    {
        self.phase = SessionPhase::Closed;
    }
}

/// The sequence number after the frames `frames` are read in order,
/// starting from `seq`.
pub open spec fn sequence_after(seq: Option<u64>, frames: Seq<Json>) -> Option<u64>
    decreases frames.len(),
{
    if frames.len() == 0 {
        seq
    } else {
        next_sequence(sequence_after(seq, frames.drop_last()), frames.last())
    }
}

/// The sequence numbers that the frames `frames` carry, in order.
pub open spec fn carried(frames: Seq<Json>) -> Seq<u64>
    decreases frames.len(),
{
    if frames.len() == 0 {
        Seq::empty()
    } else {
        let rest = carried(frames.drop_last());
        match payload_of(frames.last()) {
            Some(p) => if p.s is Some {
                rest.push(p.s->0)
            } else {
                rest
            },
            None => rest,
        }
    }
}

/// Whether `xs` never decreases.
pub open spec fn non_decreasing(xs: Seq<u64>) -> bool {
    forall|i: int, j: int| 0 <= i <= j < xs.len() ==> xs[i] <= xs[j]
}

/// Frames read in arrival order leave the sequence cell holding the latest
/// number carried; when the numbers arrive in non-decreasing order that is
/// the largest seen. Without any number the cell keeps its start value.
pub proof fn lemma_sequence_tracks_maximum(seq: Option<u64>, frames: Seq<Json>)
    requires
        non_decreasing(carried(frames)),
    ensures
        carried(frames).len() == 0 ==> sequence_after(seq, frames) == seq,
        carried(frames).len() > 0 ==> sequence_after(seq, frames) == Some(carried(frames).last()),
        forall|i: int| 0 <= i < carried(frames).len() ==> #[trigger] carried(frames)[i] <= carried(frames).last(),
{
    lemma_latest_sequence(seq, frames);
}

/// The sequence cell holds the latest number the frames carried.
proof fn lemma_latest_sequence(seq: Option<u64>, frames: Seq<Json>)
    ensures
        carried(frames).len() == 0 ==> sequence_after(seq, frames) == seq,
        carried(frames).len() > 0 ==> sequence_after(seq, frames) == Some(carried(frames).last()),
    decreases frames.len(),
{
    if frames.len() > 0 {
        lemma_latest_sequence(seq, frames.drop_last());
    }
}

/// A heartbeat acknowledgement, and a dispatch of a type the session does
/// not know, emit no event and leave the sequence number and the session id
/// as they were, when they carry no sequence number themselves.
pub proof fn lemma_ignored_frames_change_nothing(
    seq: Option<u64>,
    sid: Option<String>,
    frame: Json,
    r: Option<GatewayEvent>,
)
    requires
        payload_of(frame) is Some,
        payload_of(frame)->0.s is None,
        payload_of(frame)->0.op == OP_HEARTBEAT_ACK || (payload_of(frame)->0.op == OP_DISPATCH
            && payload_of(frame)->0.t is Some && !known_dispatch(payload_of(frame)->0.t->0@)),
        frame_outcome(frame, r),
    ensures
        r is None,
        next_sequence(seq, frame) == seq,
        next_session_id(sid, r) == sid,
{
}
} // verus!
