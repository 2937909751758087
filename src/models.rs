//! The domain records carried by dispatch payloads, and how each is read out
//! of a JSON value.
use vstd::prelude::*;
use crate::json::{
    Json, opt_ref, req_str, opt_str, req_uint, opt_uint, required_str, optional_str,
    required_uint, optional_uint, quote, quoted, decimal, decimal_text,
};
use crate::text::{is_prefix, starts_with, join3};

verus! {

/// Session opcode: an event dispatched by the server.
pub const OP_DISPATCH: u8 = 0;
/// Session opcode: a liveness ping sent by the client.
pub const OP_HEARTBEAT: u8 = 1;
/// Session opcode: the client's one identification.
pub const OP_IDENTIFY: u8 = 2;
/// Session opcode: the server's greeting, with the heartbeat cadence.
pub const OP_HELLO: u8 = 10;
/// Session opcode: the server's acknowledgement of a heartbeat.
pub const OP_HEARTBEAT_ACK: u8 = 11;

/// Intent: guild events.
pub const INTENT_GUILDS: u32 = 1;
/// Intent: messages in guilds.
pub const INTENT_GUILD_MESSAGES: u32 = 512;
/// Intent: direct messages.
pub const INTENT_DIRECT_MESSAGES: u32 = 4096;
/// Intent: the content of messages.
pub const INTENT_MESSAGE_CONTENT: u32 = 32768;

/// A user account.
#[derive(Debug, Clone, PartialEq)]
pub struct User {
    pub id: String,
    pub username: String,
    pub discriminator: String,
    pub avatar: Option<String>,
}

/// A file attached to a message.
#[derive(Debug, Clone, PartialEq)]
pub struct Attachment {
    pub id: String,
    pub filename: String,
    pub content_type: Option<String>,
    pub size: Option<u64>,
    pub url: Option<String>,
    pub width: Option<u32>,
    pub height: Option<u32>,
}

/// A chat message.
#[derive(Debug, Clone, PartialEq)]
pub struct Message {
    pub id: String,
    pub channel_id: String,
    pub author: User,
    pub content: String,
    pub timestamp: String,
    pub edited_timestamp: Option<String>,
    pub attachments: Vec<Attachment>,
}

/// A channel of a guild, or a private conversation.
#[derive(Debug, Clone, PartialEq)]
pub struct Channel {
    pub id: String,
    pub channel_type: u8,
    pub guild_id: Option<String>,
    pub name: Option<String>,
    pub topic: Option<String>,
    /// The other participants of a private conversation, in full.
    pub recipients: Option<Vec<User>>,
    /// The other participants of a private conversation, by id.
    pub recipient_ids: Option<Vec<String>>,
}

/// A guild (a server of channels).
#[derive(Debug, Clone, PartialEq)]
pub struct Guild {
    pub id: String,
    pub name: String,
    pub icon: Option<String>,
    pub owner_id: String,
}

/// The answer of the endpoint that names the real-time server.
#[derive(Debug, Clone, PartialEq)]
pub struct GatewayResponse {
    pub url: String,
}

/// The data of a Hello frame.
#[derive(Debug, Clone, PartialEq)]
pub struct HelloData {
    pub heartbeat_interval: u64,
}

/// The data of an Identify frame for a service identity.
#[derive(Debug, Clone, PartialEq)]
pub struct IdentifyData {
    pub token: String,
    pub intents: u32,
    pub properties: IdentifyProperties,
}

/// The client description inside a service identity's Identify frame.
#[derive(Debug, Clone, PartialEq)]
pub struct IdentifyProperties {
    pub os: String,
    pub browser: String,
    pub device: String,
}

/// The body of a request that posts a message.
#[derive(Debug, Clone, PartialEq)]
pub struct CreateMessagePayload {
    pub content: String,
}

/// An optional integer narrowed to 32 bits.
pub open spec fn narrow32(o: Option<u64>) -> Option<u32> {
    match o {
        Some(n) => Some(n as u32),
        None => None,
    }
}

/// The user that the object `j` describes: `id`, `username` and
/// `discriminator` are strings, `avatar` is absent, null or a string.
pub open spec fn user_of(j: Json) -> Option<User> {
    let id = req_str(j.field("id"@));
    let username = req_str(j.field("username"@));
    let discriminator = req_str(j.field("discriminator"@));
    let avatar = opt_str(j.field("avatar"@));
    if id is Some && username is Some && discriminator is Some && avatar is Some {
        Some(User { id: id->0, username: username->0, discriminator: discriminator->0, avatar: avatar->0 })
    } else {
        None
    }
}

/// The attachment that the object `j` describes.
pub open spec fn attachment_of(j: Json) -> Option<Attachment> {
    let id = req_str(j.field("id"@));
    let filename = req_str(j.field("filename"@));
    let content_type = opt_str(j.field("content_type"@));
    let size = opt_uint(j.field("size"@), 0x1_0000_0000_0000_0000);
    let url = opt_str(j.field("url"@));
    let width = opt_uint(j.field("width"@), 0x1_0000_0000);
    let height = opt_uint(j.field("height"@), 0x1_0000_0000);
    if id is Some && filename is Some && content_type is Some && size is Some && url is Some
        && width is Some && height is Some {
        Some(Attachment {
            id: id->0,
            filename: filename->0,
            content_type: content_type->0,
            size: size->0,
            url: url->0,
            width: narrow32(width->0),
            height: narrow32(height->0),
        })
    } else {
        None
    }
}

/// Whether every element of `items` is a user.
pub open spec fn all_users(items: Seq<Json>) -> bool {
    forall|i: int| 0 <= i < items.len() ==> (#[trigger] user_of(items[i])) is Some
}

/// Whether every element of `items` is an attachment.
pub open spec fn all_attachments(items: Seq<Json>) -> bool {
    forall|i: int| 0 <= i < items.len() ==> (#[trigger] attachment_of(items[i])) is Some
}

/// Whether every element of `items` is a string.
pub open spec fn all_strings(items: Seq<Json>) -> bool {
    forall|i: int| 0 <= i < items.len() ==> (#[trigger] req_str(Some(items[i]))) is Some
}

/// The users that `items` describe, one for one.
pub open spec fn users_of(items: Seq<Json>) -> Seq<User> {
    Seq::new(items.len(), |i: int| user_of(items[i])->0)
}

/// The attachments that `items` describe, one for one.
pub open spec fn attachments_of(items: Seq<Json>) -> Seq<Attachment> {
    Seq::new(items.len(), |i: int| attachment_of(items[i])->0)
}

/// The strings that `items` hold, one for one.
pub open spec fn strings_of(items: Seq<Json>) -> Seq<String> {
    Seq::new(items.len(), |i: int| req_str(Some(items[i]))->0)
}

/// Whether the member `attachments` is absent or an array of attachments.
pub open spec fn attachments_ok(j: Option<Json>) -> bool {
    match j {
        None => true,
        Some(Json::Array(items)) => all_attachments(items@),
        _ => false,
    }
}

/// The attachments listed by the member `attachments` (none when absent).
pub open spec fn attachments_listed(j: Option<Json>) -> Seq<Attachment> {
    match j {
        Some(Json::Array(items)) => attachments_of(items@),
        _ => Seq::empty(),
    }
}

/// Whether the object `j` describes a message: `id`, `channel_id`,
/// `content` and `timestamp` are strings, `author` a user,
/// `edited_timestamp` absent, null or a string, `attachments` absent or an
/// array of attachments.
pub open spec fn message_ok(j: Json) -> bool {
    &&& req_str(j.field("id"@)) is Some
    &&& req_str(j.field("channel_id"@)) is Some
    &&& j.field("author"@) is Some
    &&& user_of(j.field("author"@)->0) is Some
    &&& req_str(j.field("content"@)) is Some
    &&& req_str(j.field("timestamp"@)) is Some
    &&& opt_str(j.field("edited_timestamp"@)) is Some
    &&& attachments_ok(j.field("attachments"@))
}

/// Whether `m` holds what the object `j` describes.
pub open spec fn message_matches(j: Json, m: Message) -> bool {
    &&& Some(m.id) == req_str(j.field("id"@))
    &&& Some(m.channel_id) == req_str(j.field("channel_id"@))
    &&& Some(m.author) == user_of(j.field("author"@)->0)
    &&& Some(m.content) == req_str(j.field("content"@))
    &&& Some(m.timestamp) == req_str(j.field("timestamp"@))
    &&& Some(m.edited_timestamp) == opt_str(j.field("edited_timestamp"@))
    &&& m.attachments@ == attachments_listed(j.field("attachments"@))
}

/// Whether a member that lists users is absent, null or an array of users.
pub open spec fn users_ok(j: Option<Json>) -> bool {
    match j {
        None => true,
        Some(Json::Null) => true,
        Some(Json::Array(items)) => all_users(items@),
        _ => false,
    }
}

/// Whether a member that lists ids is absent, null or an array of strings.
pub open spec fn ids_ok(j: Option<Json>) -> bool {
    match j {
        None => true,
        Some(Json::Null) => true,
        Some(Json::Array(items)) => all_strings(items@),
        _ => false,
    }
}

/// Whether the object `j` describes a channel: `id` is a string, `type` an
/// integer below 256, `guild_id`, `name` and `topic` absent, null or
/// strings, `recipients` absent, null or an array of users,
/// `recipient_ids` absent, null or an array of strings.
pub open spec fn channel_ok(j: Json) -> bool {
    &&& req_str(j.field("id"@)) is Some
    &&& req_uint(j.field("type"@), 256) is Some
    &&& opt_str(j.field("guild_id"@)) is Some
    &&& opt_str(j.field("name"@)) is Some
    &&& opt_str(j.field("topic"@)) is Some
    &&& users_ok(j.field("recipients"@))
    &&& ids_ok(j.field("recipient_ids"@))
}

/// Whether `c` holds what the object `j` describes.
pub open spec fn channel_matches(j: Json, c: Channel) -> bool {
    &&& channel_body_matches(j, c)
    &&& Some(c.guild_id) == opt_str(j.field("guild_id"@))
}

/// Whether `c` holds what the object `j` describes, its guild aside.
pub open spec fn channel_body_matches(j: Json, c: Channel) -> bool {
    &&& Some(c.id) == req_str(j.field("id"@))
    &&& Some(c.channel_type as u64) == req_uint(j.field("type"@), 256)
    &&& Some(c.name) == opt_str(j.field("name"@))
    &&& Some(c.topic) == opt_str(j.field("topic"@))
    &&& match j.field("recipients"@) {
        Some(Json::Array(items)) => c.recipients is Some && c.recipients->0@ == users_of(items@),
        _ => c.recipients is None,
    }
    &&& match j.field("recipient_ids"@) {
        Some(Json::Array(items)) => c.recipient_ids is Some && c.recipient_ids->0@ == strings_of(items@),
        _ => c.recipient_ids is None,
    }
}

impl User {
    /// Reads a user out of an object.
    pub fn from_json(j: &Json) -> (r: Option<User>)
        ensures
            r == user_of(*j),
    {
        let id = required_str(j.get("id"));
        let username = required_str(j.get("username"));
        let discriminator = required_str(j.get("discriminator"));
        let avatar = optional_str(j.get("avatar"));
        match (id, username, discriminator, avatar) {
            (Some(id), Some(username), Some(discriminator), Some(avatar)) => Some(
                User { id, username, discriminator, avatar },
            ),
            _ => None,
        }
    }
}

impl Attachment {
    /// Reads an attachment out of an object.
    pub fn from_json(j: &Json) -> (r: Option<Attachment>)
        ensures
            r == attachment_of(*j),
    {
        let id = required_str(j.get("id"));
        let filename = required_str(j.get("filename"));
        let content_type = optional_str(j.get("content_type"));
        let size = optional_uint(j.get("size"), 0x1_0000_0000_0000_0000);
        let url = optional_str(j.get("url"));
        let width = optional_uint(j.get("width"), 0x1_0000_0000);
        let height = optional_uint(j.get("height"), 0x1_0000_0000);
        match (id, filename, content_type, size, url, width, height) {
            (Some(id), Some(filename), Some(content_type), Some(size), Some(url), Some(width), Some(height)) => {
                let width = match width {
                    Some(n) => Some(n as u32),
                    None => None,
                };
                let height = match height {
                    Some(n) => Some(n as u32),
                    None => None,
                };
                Some(Attachment { id, filename, content_type, size, url, width, height })
            },
            _ => None,
        }
    }
}

/// Reads every element of `items` as a user; `None` when one is not.
fn users_from(items: &Vec<Json>) -> (r: Option<Vec<User>>)
    ensures
        match r {
            Some(v) => all_users(items@) && v@ == users_of(items@),
            None => !all_users(items@),
        },
{
    let mut out: Vec<User> = Vec::new();
    let mut i: usize = 0;
    while i < items.len()
        invariant
            i <= items@.len(),
            forall|k: int| 0 <= k < i ==> (#[trigger] user_of(items@[k])) is Some,
            out@ =~= users_of(items@).subrange(0, i as int),
        decreases items.len() - i,
    {
        match User::from_json(&items[i]) {
            Some(u) => out.push(u),
            None => return None,
        }
        i = i + 1;
    }
    assert(out@ =~= users_of(items@));
    Some(out)
}

/// Reads every element of `items` as an attachment; `None` when one is not.
fn attachments_from(items: &Vec<Json>) -> (r: Option<Vec<Attachment>>)
    ensures
        match r {
            Some(v) => all_attachments(items@) && v@ == attachments_of(items@),
            None => !all_attachments(items@),
        },
{
    let mut out: Vec<Attachment> = Vec::new();
    let mut i: usize = 0;
    while i < items.len()
        invariant
            i <= items@.len(),
            forall|k: int| 0 <= k < i ==> (#[trigger] attachment_of(items@[k])) is Some,
            out@ =~= attachments_of(items@).subrange(0, i as int),
        decreases items.len() - i,
    {
        match Attachment::from_json(&items[i]) {
            Some(a) => out.push(a),
            None => return None,
        }
        i = i + 1;
    }
    assert(out@ =~= attachments_of(items@));
    Some(out)
}

/// Reads every element of `items` as a string; `None` when one is not.
fn strings_from(items: &Vec<Json>) -> (r: Option<Vec<String>>)
    ensures
        match r {
            Some(v) => all_strings(items@) && v@ == strings_of(items@),
            None => !all_strings(items@),
        },
{
    let mut out: Vec<String> = Vec::new();
    let mut i: usize = 0;
    while i < items.len()
        invariant
            i <= items@.len(),
            forall|k: int| 0 <= k < i ==> (#[trigger] req_str(Some(items@[k]))) is Some,
            out@ =~= strings_of(items@).subrange(0, i as int),
        decreases items.len() - i,
    {
        match required_str(Some(&items[i])) {
            Some(t) => out.push(t),
            None => return None,
        }
        i = i + 1;
    }
    assert(out@ =~= strings_of(items@));
    Some(out)
}

impl Message {
    /// Reads a message out of an object.
    pub fn from_json(j: &Json) -> (r: Option<Message>)
        ensures
            match r {
                Some(m) => message_ok(*j) && message_matches(*j, m),
                None => !message_ok(*j),
            },
    {
        let id = required_str(j.get("id"));
        let channel_id = required_str(j.get("channel_id"));
        let author = match j.get("author") {
            Some(a) => User::from_json(a),
            None => None,
        };
        let content = required_str(j.get("content"));
        let timestamp = required_str(j.get("timestamp"));
        let edited_timestamp = optional_str(j.get("edited_timestamp"));
        let attachments = match j.get("attachments") {
            None => Some(Vec::new()),
            Some(Json::Array(items)) => attachments_from(items),
            Some(_) => None,
        };
        match (id, channel_id, author, content, timestamp, edited_timestamp, attachments) {
            (
                Some(id),
                Some(channel_id),
                Some(author),
                Some(content),
                Some(timestamp),
                Some(edited_timestamp),
                Some(attachments),
            ) => {
                proof {
                    if j.field("attachments"@) is None {
                        assert(attachments@ =~= attachments_listed(j.field("attachments"@)));
                    }
                }
                Some(Message { id, channel_id, author, content, timestamp, edited_timestamp, attachments })
            },
            _ => None,
        }
    }
}

impl Channel {
    /// Reads a channel out of an object.
    pub fn from_json(j: &Json) -> (r: Option<Channel>)
        ensures
            match r {
                Some(c) => channel_ok(*j) && channel_matches(*j, c),
                None => !channel_ok(*j),
            },
    {
        let id = required_str(j.get("id"));
        let channel_type = required_uint(j.get("type"), 256);
        let guild_id = optional_str(j.get("guild_id"));
        let name = optional_str(j.get("name"));
        let topic = optional_str(j.get("topic"));
        let recipients = match j.get("recipients") {
            None => Some(None),
            Some(Json::Null) => Some(None),
            Some(Json::Array(items)) => match users_from(items) {
                Some(v) => Some(Some(v)),
                None => None,
            },
            Some(_) => None,
        };
        let recipient_ids = match j.get("recipient_ids") {
            None => Some(None),
            Some(Json::Null) => Some(None),
            Some(Json::Array(items)) => match strings_from(items) {
                Some(v) => Some(Some(v)),
                None => None,
            },
            Some(_) => None,
        };
        match (id, channel_type, guild_id, name, topic, recipients, recipient_ids) {
            (Some(id), Some(t), Some(guild_id), Some(name), Some(topic), Some(recipients), Some(recipient_ids)) => {
                Some(Channel { id, channel_type: t as u8, guild_id, name, topic, recipients, recipient_ids })
            },
            _ => None,
        }
    }
}

/// The label that introduces an attachment whose media type is `t`.
pub open spec fn media_label(t: Option<String>) -> Seq<char> {
    match t {
        Some(t) => if is_prefix("image/"@, t@) {
            "[Image: "@
        } else if is_prefix("video/"@, t@) {
            "[Video: "@
        } else if is_prefix("audio/"@, t@) {
            "[Audio: "@
        } else {
            "[File: "@
        },
        None => "[File: "@,
    }
}

impl Attachment {
    /// A one-line description: the kind of file, by its media type, and its
    /// name, as in `[Image: cat.png]`.
    pub fn display_text(&self) -> (r: String)
        ensures
            r@ == media_label(self.content_type) + self.filename@ + "]"@,
    {
        let label = match &self.content_type {
            Some(t) => if starts_with(t.as_str(), "image/") {
                "[Image: "
            } else if starts_with(t.as_str(), "video/") {
                "[Video: "
            } else if starts_with(t.as_str(), "audio/") {
                "[Audio: "
            } else {
                "[File: "
            },
            None => "[File: ",
        };
        join3(label, self.filename.as_str(), "]")
    }
}

/// The name shown for channel `c`: its own name, else the name of its first
/// recipient, else `Unknown`.
pub open spec fn display_name_of(c: Channel) -> Seq<char> {
    match c.name {
        Some(n) => n@,
        None => match c.recipients {
            Some(v) => if v@.len() > 0 {
                v@[0].username@
            } else {
                "Unknown"@
            },
            None => "Unknown"@,
        },
    }
}

/// The marker shown before a channel of type `t`.
pub open spec fn type_prefix_of(t: u8) -> Seq<char> {
    if t == 0 { "# "@ }
    else if t == 1 { "@ "@ }
    else if t == 2 { "\u{266a} "@ }
    else if t == 5 { "! "@ }
    else if t == 10 { "\u{a7} "@ }
    else if t == 11 { "\u{bb} "@ }
    else if t == 12 { "\u{b7} "@ }
    else if t == 15 { "\u{25c6} "@ }
    else if t == 16 { "\u{25a3} "@ }
    else { "? "@ }
}

/// Whether channels of type `t` carry messages.
pub open spec fn text_based(t: u8) -> bool {
    t == 0 || t == 1 || t == 5 || t == 10 || t == 11 || t == 12 || t == 15
}

impl Channel {
    /// The name to show for the channel.
    pub fn display_name(&self) -> (r: String)
        ensures
            r@ == display_name_of(*self),
    {
        match &self.name {
            Some(n) => n.clone(),
            None => match &self.recipients {
                Some(v) => if v.len() > 0 {
                    v[0].username.clone()
                } else {
                    String::from_str("Unknown")
                },
                None => String::from_str("Unknown"),
            },
        }
    }

    /// The marker shown before the channel's name, by its type.
    pub fn type_prefix(&self) -> (r: &str)
        ensures
            r@ == type_prefix_of(self.channel_type),
    {
        let t = self.channel_type;
        if t == 0 { "# " }
        else if t == 1 { "@ " }
        else if t == 2 { "\u{266a} " }
        else if t == 5 { "! " }
        else if t == 10 { "\u{a7} " }
        else if t == 11 { "\u{bb} " }
        else if t == 12 { "\u{b7} " }
        else if t == 15 { "\u{25c6} " }
        else if t == 16 { "\u{25a3} " }
        else { "? " }
    }

    /// Whether messages can be sent and received in the channel.
    pub fn is_text_based(&self) -> (r: bool)
        ensures
            r == text_based(self.channel_type),
    {
        let t = self.channel_type;
        t == 0 || t == 1 || t == 5 || t == 10 || t == 11 || t == 12 || t == 15
    }
}

/// A member that is kept when it holds a string and dropped otherwise.
pub open spec fn loose_str(j: Option<Json>) -> Option<String> {
    match j {
        Some(Json::Str(t)) => Some(t),
        _ => None,
    }
}

/// The guild that a flat object describes: `id`, `name` and `owner_id` are
/// strings, `icon` is kept when it is a string.
pub open spec fn guild_of(j: Json) -> Option<Guild> {
    let id = req_str(j.field("id"@));
    let name = req_str(j.field("name"@));
    let owner_id = req_str(j.field("owner_id"@));
    if id is Some && name is Some && owner_id is Some {
        Some(Guild { id: id->0, name: name->0, icon: loose_str(j.field("icon"@)), owner_id: owner_id->0 })
    } else {
        None
    }
}

/// The guild that an entry of a ready snapshot describes: `id` at the top,
/// `name`, `owner_id` and `icon` under `properties`.
pub open spec fn ready_guild_of(j: Json) -> Option<Guild> {
    let id = req_str(j.field("id"@));
    let props = j.field("properties"@);
    match props {
        Some(p) => {
            let name = req_str(p.field("name"@));
            let owner_id = req_str(p.field("owner_id"@));
            if id is Some && name is Some && owner_id is Some {
                Some(Guild { id: id->0, name: name->0, icon: loose_str(p.field("icon"@)), owner_id: owner_id->0 })
            } else {
                None
            }
        },
        None => None,
    }
}

/// Reads a member that is kept only when it holds a string.
fn loose_string(j: Option<&Json>) -> (r: Option<String>)
    ensures
        r == loose_str(opt_ref(j)),
{
    match j {
        Some(Json::Str(t)) => Some(t.clone()),
        _ => None,
    }
}

impl Guild {
    /// Reads a guild out of a flat object.
    pub fn from_json(j: &Json) -> (r: Option<Guild>)
        ensures
            r == guild_of(*j),
    {
        let id = required_str(j.get("id"));
        let name = required_str(j.get("name"));
        let owner_id = required_str(j.get("owner_id"));
        match (id, name, owner_id) {
            (Some(id), Some(name), Some(owner_id)) => Some(
                Guild { id, name, icon: loose_string(j.get("icon")), owner_id },
            ),
            _ => None,
        }
    }

    /// Reads a guild out of an entry of a ready snapshot.
    pub fn from_ready_entry(j: &Json) -> (r: Option<Guild>)
        ensures
            r == ready_guild_of(*j),
    {
        let id = required_str(j.get("id"));
        match j.get("properties") {
            Some(p) => {
                let name = required_str(p.get("name"));
                let owner_id = required_str(p.get("owner_id"));
                match (id, name, owner_id) {
                    (Some(id), Some(name), Some(owner_id)) => Some(
                        Guild { id, name, icon: loose_string(p.get("icon")), owner_id },
                    ),
                    _ => None,
                }
            },
            None => None,
        }
    }
}

impl GatewayResponse {
    /// Reads the answer naming the real-time server.
    pub fn from_json(j: &Json) -> (r: Option<GatewayResponse>)
        ensures
            match r {
                Some(g) => Some(g.url) == req_str(j.field("url"@)),
                None => req_str(j.field("url"@)) is None,
            },
    {
        match required_str(j.get("url")) {
            Some(url) => Some(GatewayResponse { url }),
            None => None,
        }
    }
}

impl HelloData {
    /// Reads the data of a Hello frame.
    pub fn from_json(j: &Json) -> (r: Option<HelloData>)
        ensures
            match r {
                Some(h) => Some(h.heartbeat_interval) == req_uint(j.field("heartbeat_interval"@), 0x1_0000_0000_0000_0000),
                None => req_uint(j.field("heartbeat_interval"@), 0x1_0000_0000_0000_0000) is None,
            },
    {
        match required_uint(j.get("heartbeat_interval"), 0x1_0000_0000_0000_0000) {
            Some(n) => Some(HelloData { heartbeat_interval: n }),
            None => None,
        }
    }
}

/// The text of a client description.
pub open spec fn properties_text(p: IdentifyProperties) -> Seq<char> {
    "{\"os\":"@ + quoted(p.os@) + ",\"browser\":"@ + quoted(p.browser@) + ",\"device\":"@
        + quoted(p.device@) + "}"@
}

impl IdentifyProperties {
    /// Writes the description as a JSON object.
    pub fn to_json_text(&self) -> (r: String)
        ensures
            r@ == properties_text(*self),
    {
        let mut r = join3("{\"os\":", quote(self.os.as_str()).as_str(), ",\"browser\":");
        r.append(quote(self.browser.as_str()).as_str());
        r.append(",\"device\":");
        r.append(quote(self.device.as_str()).as_str());
        r.append("}");
        r
    }
}

/// The text of the data of a service identity's Identify frame.
pub open spec fn identify_data_text(d: IdentifyData) -> Seq<char> {
    "{\"token\":"@ + quoted(d.token@) + ",\"intents\":"@ + decimal(d.intents as nat)
        + ",\"properties\":"@ + properties_text(d.properties) + "}"@
}

impl IdentifyData {
    /// Writes the data as a JSON object.
    pub fn to_json_text(&self) -> (r: String)
        ensures
            r@ == identify_data_text(*self),
    {
        let mut r = join3("{\"token\":", quote(self.token.as_str()).as_str(), ",\"intents\":");
        r.append(decimal_text(self.intents as u64).as_str());
        r.append(",\"properties\":");
        r.append(self.properties.to_json_text().as_str());
        r.append("}");
        r
    }
}

impl CreateMessagePayload {
    /// Writes the request body as a JSON object.
    pub fn to_json_text(&self) -> (r: String)
        ensures
            r@ == "{\"content\":"@ + quoted(self.content@) + "}"@,
    {
        join3("{\"content\":", quote(self.content.as_str()).as_str(), "}")
    }
}

} // verus!
