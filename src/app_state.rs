//! The client's view of its account: guilds, channels, messages and users as
//! the session reports them, and the selection, search and input state of
//! the interface, updated event by event.
use vstd::prelude::*;
use crate::json::Json;
use crate::models::{Channel, Guild, Message, User, display_name_of, user_of, ready_guild_of, channel_ok};
use crate::json::req_str;
use crate::gateway::keeps_channel;
use crate::order::{channel_le, lemma_first_is_least, listed_in_order, sort_positions};
use crate::text::{contains_text, lowercase, lower_of, occurs_in, push_char, pop_char, clear_text};

verus! {

/// A key the user pressed.
#[derive(Debug, Clone, Copy, PartialEq, Eq)]
pub enum Key {
    Char(char),
    Esc,
    Backspace,
    Enter,
    Up,
    Down,
    Other,
}

/// Whether keys move through the lists or type a message.
#[derive(Debug, Clone, Copy, PartialEq, Eq)]
pub enum InputMode {
    Normal,
    Editing,
}

/// Work with effects that an update asks the caller to do.
#[derive(Debug, Clone, PartialEq)]
pub enum Command {
    LoadMessages(String),
    SendMessage { channel_id: String, content: String },
    /// Nothing to do.
    Nothing,
}

/// What the state is updated by.
#[derive(Debug)]
pub enum AppEvent {
    KeyPress(Key),
    Input(char),
    /// The session is ready; the data carries the whole snapshot.
    GatewayReady(Json),
    GuildCreate { guild: Guild, channels: Vec<Channel> },
    MessageCreate(Message),
    MessageUpdate(Message),
    MessageDelete { id: String, channel_id: String },
    /// The messages of a channel were fetched.
    MessagesLoaded { channel_id: String, messages: Vec<Message> },
    /// A message was posted.
    MessageSent(Message),
    Tick,
    Quit,
}

/// What the client knows of the account.
pub struct DiscordState {
    pub guilds: Vec<Guild>,
    pub channels: Vec<Channel>,
    /// The messages of each channel, by channel id.
    pub messages: Vec<(String, Vec<Message>)>,
    /// Users known from the ready snapshot, to name private conversations.
    pub users: Vec<User>,
    pub current_user: Option<User>,
    pub connected: bool,
}

/// The state of the interface.
pub struct UiState {
    pub selected_channel: Option<String>,
    /// The highlighted row of the shown channel list.
    pub selected_index: Option<usize>,
    pub input_mode: InputMode,
    pub input_buffer: String,
    /// The ids of the favourite channels.
    pub favorites: Vec<String>,
    pub search_mode: bool,
    pub search_buffer: String,
}

/// The whole state of the client.
pub struct AppState {
    pub discord: DiscordState,
    pub ui: UiState,
}

/// Whether `id` is among `ids`.
pub open spec fn listed(ids: Seq<String>, id: Seq<char>) -> bool {
    exists|k: int| 0 <= k < ids.len() && (#[trigger] ids[k])@ == id
}

/// Whether `after` is `before` with message `m` added to the end of its
/// channel's list, or with a new list holding only `m` added last when the
/// channel had none; every other list unchanged.
pub open spec fn appended(before: Seq<(String, Vec<Message>)>, m: Message, after: Seq<(String, Vec<Message>)>) -> bool {
    ||| exists|k: int| 0 <= k < before.len() && before[k].0@ == m.channel_id@
        && after.len() == before.len() && after[k].0 == before[k].0
        && after[k].1@ == before[k].1@.push(m)
        && forall|j: int| 0 <= j < before.len() && j != k ==> after[j] == before[j]
    ||| (forall|k: int| 0 <= k < before.len() ==> before[k].0@ != m.channel_id@)
        && after.len() == before.len() + 1
        && after.last().0@ == m.channel_id@ && after.last().1@ == seq![m]
        && after.drop_last() == before
}

/// Whether `after` is `before` with `list` as the messages of channel `cid`:
/// its list replaced in place, or added last when it had none.
pub open spec fn replaced_thread(
    before: Seq<(String, Vec<Message>)>,
    cid: String,
    list: Vec<Message>,
    after: Seq<(String, Vec<Message>)>,
) -> bool {
    ||| exists|k: int| 0 <= k < before.len() && before[k].0@ == cid@ && after == before.update(k, (before[k].0, list))
    ||| (forall|k: int| 0 <= k < before.len() ==> before[k].0@ != cid@) && after == before.push((cid, list))
}

/// The elements of member `key` of `d` when it is an array; none otherwise.
pub open spec fn array_member(d: Json, key: Seq<char>) -> Seq<Json> {
    match d.field(key) {
        Some(Json::Array(v)) => v@,
        _ => Seq::empty(),
    }
}

/// Whether a channel with id `id` is among `cs`.
pub open spec fn has_channel(cs: Seq<Channel>, id: Seq<char>) -> bool {
    exists|k: int| 0 <= k < cs.len() && (#[trigger] cs[k]).id@ == id
}

/// Whether a guild with id `id` is among `gs`.
pub open spec fn has_guild(gs: Seq<Guild>, id: Seq<char>) -> bool {
    exists|k: int| 0 <= k < gs.len() && (#[trigger] gs[k]).id@ == id
}

/// Whether a user with id `id` is among `us`.
pub open spec fn has_user(us: Seq<User>, id: Seq<char>) -> bool {
    exists|k: int| 0 <= k < us.len() && (#[trigger] us[k]).id@ == id
}

/// The id that a channel entry names.
pub open spec fn entry_id(j: Json) -> Seq<char> {
    req_str(j.field("id"@))->0@
}

/// Whether state `s` holds what the ready snapshot `d` lists: each user,
/// each guild, each text channel of a guild, and each private channel that
/// decodes is present by its id.
pub open spec fn ready_taken(d: Json, s: AppState) -> bool {
    let users = array_member(d, "users"@);
    let guilds = array_member(d, "guilds"@);
    let private = array_member(d, "private_channels"@);
    &&& forall|i: int| 0 <= i < users.len() && (#[trigger] user_of(users[i])) is Some
        ==> has_user(s.discord.users@, user_of(users[i])->0.id@)
    &&& forall|i: int| 0 <= i < guilds.len() && (#[trigger] ready_guild_of(guilds[i])) is Some
        ==> has_guild(s.discord.guilds@, ready_guild_of(guilds[i])->0.id@)
    &&& forall|i: int, j: int| 0 <= i < guilds.len() && ready_guild_of(guilds[i]) is Some
        && 0 <= j < array_member(guilds[i], "channels"@).len()
        && #[trigger] keeps_channel(array_member(guilds[i], "channels"@)[j])
        ==> has_channel(s.discord.channels@, entry_id(array_member(guilds[i], "channels"@)[j]))
    &&& forall|i: int| 0 <= i < private.len() && #[trigger] channel_ok(private[i])
        ==> has_channel(s.discord.channels@, entry_id(private[i]))
}

/// Channels whose ids stay in place, more perhaps added, keep every id.
proof fn lemma_channels_grow(a: Seq<Channel>, b: Seq<Channel>)
    requires
        a.len() <= b.len(),
        forall|k: int| 0 <= k < a.len() ==> b[k].id@ == a[k].id@,
    ensures
        forall|id: Seq<char>| has_channel(a, id) ==> #[trigger] has_channel(b, id),
{
    assert forall|id: Seq<char>| has_channel(a, id) implies #[trigger] has_channel(b, id) by {
        let k = choose|k: int| 0 <= k < a.len() && (#[trigger] a[k]).id@ == id;
        assert(b[k].id@ == id);
    }
}

/// Guilds whose ids stay in place, more perhaps added, keep every id.
proof fn lemma_guilds_grow(a: Seq<Guild>, b: Seq<Guild>)
    requires
        a.len() <= b.len(),
        forall|k: int| 0 <= k < a.len() ==> b[k].id@ == a[k].id@,
    ensures
        forall|id: Seq<char>| has_guild(a, id) ==> #[trigger] has_guild(b, id),
{
    assert forall|id: Seq<char>| has_guild(a, id) implies #[trigger] has_guild(b, id) by {
        let k = choose|k: int| 0 <= k < a.len() && (#[trigger] a[k]).id@ == id;
        assert(b[k].id@ == id);
    }
}

/// Users whose ids stay in place, more perhaps added, keep every id.
proof fn lemma_users_grow(a: Seq<User>, b: Seq<User>)
    requires
        a.len() <= b.len(),
        forall|k: int| 0 <= k < a.len() ==> b[k].id@ == a[k].id@,
    ensures
        forall|id: Seq<char>| has_user(a, id) ==> #[trigger] has_user(b, id),
{
    assert forall|id: Seq<char>| has_user(a, id) implies #[trigger] has_user(b, id) by {
        let k = choose|k: int| 0 <= k < a.len() && (#[trigger] a[k]).id@ == id;
        assert(b[k].id@ == id);
    }
}

/// Whether no two channels of `cs` share an id.
pub open spec fn unique_channels(cs: Seq<Channel>) -> bool {
    forall|i: int, j: int| 0 <= i < j < cs.len() ==> cs[i].id@ != cs[j].id@
}

/// Whether no two guilds of `gs` share an id.
pub open spec fn unique_guilds(gs: Seq<Guild>) -> bool {
    forall|i: int, j: int| 0 <= i < j < gs.len() ==> gs[i].id@ != gs[j].id@
}

/// Whether no two users of `us` share an id.
pub open spec fn unique_users(us: Seq<User>) -> bool {
    forall|i: int, j: int| 0 <= i < j < us.len() ==> us[i].id@ != us[j].id@
}

/// Whether no two message lists of `ms` belong to the same channel.
pub open spec fn unique_threads(ms: Seq<(String, Vec<Message>)>) -> bool {
    forall|i: int, j: int| 0 <= i < j < ms.len() ==> ms[i].0@ != ms[j].0@
}

/// Whether no id occurs twice in `ids`.
pub open spec fn unique_ids(ids: Seq<String>) -> bool {
    forall|i: int, j: int| 0 <= i < j < ids.len() ==> ids[i]@ != ids[j]@
}

/// The current user after a ready snapshot `data`: the user it describes,
/// or the one known before when it describes none.
pub open spec fn ready_user(before: Option<User>, data: Json) -> Option<User> {
    match data.field("user"@) {
        Some(u) => match user_of(u) {
            Some(v) => Some(v),
            None => before,
        },
        None => before,
    }
}

/// The positions below `n` that `keep` selects, in increasing order.
pub open spec fn positions(n: nat, keep: spec_fn(nat) -> bool) -> Seq<usize>
    decreases n,
{
    if n == 0 {
        Seq::empty()
    } else {
        let rest = positions((n - 1) as nat, keep);
        if keep((n - 1) as nat) {
            rest.push((n - 1) as usize)
        } else {
            rest
        }
    }
}

/// Whether the channel at position `p` of `cs` is a favourite.
pub open spec fn favorite_at(cs: Seq<Channel>, favs: Seq<String>, p: nat) -> bool {
    listed(favs, cs[p as int].id@)
}

/// The name of the first guild in `gs` whose id is `g`.
pub open spec fn guild_name_in(gs: Seq<Guild>, g: Seq<char>) -> Option<Seq<char>>
    decreases gs.len(),
{
    if gs.len() == 0 {
        None
    } else if gs[0].id@ == g {
        Some(gs[0].name@)
    } else {
        guild_name_in(gs.subrange(1, gs.len() as int), g)
    }
}

/// The name of the guild `gid` among `gs`, if it is known.
pub open spec fn guild_name(gs: Seq<Guild>, gid: Option<String>) -> Option<Seq<char>> {
    match gid {
        Some(g) => guild_name_in(gs, g@),
        None => None,
    }
}

/// Whether the channel at position `p` matches the lower-cased query `q`:
/// by its shown name or by the name of its guild, case aside.
pub open spec fn search_hit(cs: Seq<Channel>, gs: Seq<Guild>, q: Seq<char>, p: nat) -> bool {
    occurs_in(lower_of(display_name_of(cs[p as int])), q) || match guild_name(gs, cs[p as int].guild_id) {
        Some(n) => occurs_in(lower_of(n), q),
        None => false,
    }
}

/// The first position in `cs` of the channel `id`.
fn channel_position(cs: &Vec<Channel>, id: &String) -> (r: Option<usize>)
    ensures
        match r {
            Some(k) => k < cs@.len() && cs@[k as int].id@ == id@,
            None => forall|k: int| 0 <= k < cs@.len() ==> cs@[k].id@ != id@,
        },
{
    let mut i: usize = 0;
    while i < cs.len()
        invariant
            i <= cs@.len(),
            forall|k: int| 0 <= k < i ==> cs@[k].id@ != id@,
        decreases cs.len() - i,
    {
        if cs[i].id == *id {
            return Some(i);
        }
        i = i + 1;
    }
    None
}

/// Adds channel `c`, replacing the channel with the same id if there is one.
fn upsert_channel(cs: &mut Vec<Channel>, c: Channel)
    ensures
        (exists|k: int| 0 <= k < old(cs)@.len() && old(cs)@[k].id@ == c.id@ && final(cs)@ == old(cs)@.update(k, c))
            || ((forall|k: int| 0 <= k < old(cs)@.len() ==> old(cs)@[k].id@ != c.id@) && final(cs)@ == old(cs)@.push(c)),
        unique_channels(old(cs)@) ==> unique_channels(final(cs)@),
        old(cs)@.len() <= final(cs)@.len(),
        forall|k: int| 0 <= k < old(cs)@.len() ==> final(cs)@[k].id@ == old(cs)@[k].id@,
        has_channel(final(cs)@, c.id@),
{
    let ghost c0 = c;
    match channel_position(cs, &c.id) {
        Some(k) => {
            cs.set(k, c);
            assert(forall|i: int| 0 <= i < cs@.len() ==> cs@[i].id@ == old(cs)@[i].id@);
            assert(cs@[k as int] == c0);
        },
        None => {
            cs.push(c);
            assert(cs@[cs@.len() - 1] == c0);
        },
    }
}

/// Adds guild `g`, replacing the guild with the same id if there is one.
fn upsert_guild(gs: &mut Vec<Guild>, g: Guild)
    ensures
        (exists|k: int| 0 <= k < old(gs)@.len() && old(gs)@[k].id@ == g.id@ && final(gs)@ == old(gs)@.update(k, g))
            || ((forall|k: int| 0 <= k < old(gs)@.len() ==> old(gs)@[k].id@ != g.id@) && final(gs)@ == old(gs)@.push(g)),
        unique_guilds(old(gs)@) ==> unique_guilds(final(gs)@),
        old(gs)@.len() <= final(gs)@.len(),
        forall|k: int| 0 <= k < old(gs)@.len() ==> final(gs)@[k].id@ == old(gs)@[k].id@,
        has_guild(final(gs)@, g.id@),
{
    let mut i: usize = 0;
    while i < gs.len()
        invariant
            i <= gs@.len(),
            gs@ == old(gs)@,
            forall|k: int| 0 <= k < i ==> gs@[k].id@ != g.id@,
        decreases gs.len() - i,
    {
        if gs[i].id == g.id {
            let ghost x0 = g;
            gs.set(i, g);
            assert(gs@[i as int] == x0);
            assert(forall|j: int| 0 <= j < gs@.len() ==> gs@[j].id@ == old(gs)@[j].id@);
            return;
        }
        i = i + 1;
    }
    let ghost x0 = g;
    gs.push(g);
    assert(gs@[gs@.len() - 1] == x0);
}

/// Adds user `u`, replacing the user with the same id if there is one.
fn upsert_user(us: &mut Vec<User>, u: User)
    ensures
        (exists|k: int| 0 <= k < old(us)@.len() && old(us)@[k].id@ == u.id@ && final(us)@ == old(us)@.update(k, u))
            || ((forall|k: int| 0 <= k < old(us)@.len() ==> old(us)@[k].id@ != u.id@) && final(us)@ == old(us)@.push(u)),
        unique_users(old(us)@) ==> unique_users(final(us)@),
        old(us)@.len() <= final(us)@.len(),
        forall|k: int| 0 <= k < old(us)@.len() ==> final(us)@[k].id@ == old(us)@[k].id@,
        has_user(final(us)@, u.id@),
{
    let mut i: usize = 0;
    while i < us.len()
        invariant
            i <= us@.len(),
            us@ == old(us)@,
            forall|k: int| 0 <= k < i ==> us@[k].id@ != u.id@,
        decreases us.len() - i,
    {
        if us[i].id == u.id {
            let ghost x0 = u;
            us.set(i, u);
            assert(us@[i as int] == x0);
            assert(forall|j: int| 0 <= j < us@.len() ==> us@[j].id@ == old(us)@[j].id@);
            return;
        }
        i = i + 1;
    }
    let ghost x0 = u;
    us.push(u);
    assert(us@[us@.len() - 1] == x0);
}

/// The position of the message list of channel `id`.
fn thread_position(ms: &Vec<(String, Vec<Message>)>, id: &String) -> (r: Option<usize>)
    ensures
        match r {
            Some(k) => k < ms@.len() && ms@[k as int].0@ == id@,
            None => forall|k: int| 0 <= k < ms@.len() ==> ms@[k].0@ != id@,
        },
{
    let mut i: usize = 0;
    while i < ms.len()
        invariant
            i <= ms@.len(),
            forall|k: int| 0 <= k < i ==> ms@[k].0@ != id@,
        decreases ms.len() - i,
    {
        if ms[i].0 == *id {
            return Some(i);
        }
        i = i + 1;
    }
    None
}

/// Whether `id` is among `ids`.
fn is_listed(ids: &Vec<String>, id: &String) -> (r: bool)
    ensures
        r == listed(ids@, id@),
{
    let mut i: usize = 0;
    while i < ids.len()
        invariant
            i <= ids@.len(),
            forall|k: int| 0 <= k < i ==> ids@[k]@ != id@,
        decreases ids.len() - i,
    {
        if ids[i] == *id {
            return true;
        }
        i = i + 1;
    }
    false
}

/// The messages in `ms` whose id is not `id`, in order.
pub open spec fn messages_without(ms: Seq<Message>, id: Seq<char>) -> Seq<Message>
    decreases ms.len(),
{
    if ms.len() == 0 {
        Seq::empty()
    } else {
        let rest = messages_without(ms.drop_last(), id);
        if ms.last().id@ != id {
            rest.push(ms.last())
        } else {
            rest
        }
    }
}

/// The ids in `ids` other than `id`, in order.
pub open spec fn ids_without(ids: Seq<String>, id: Seq<char>) -> Seq<String>
    decreases ids.len(),
{
    if ids.len() == 0 {
        Seq::empty()
    } else {
        let rest = ids_without(ids.drop_last(), id);
        if ids.last()@ != id {
            rest.push(ids.last())
        } else {
            rest
        }
    }
}

/// A copy of user `u`.
fn copy_user(u: &User) -> (r: User)
    ensures
        r == *u,
{
    let avatar = match &u.avatar {
        Some(a) => Some(a.clone()),
        None => None,
    };
    User { id: u.id.clone(), username: u.username.clone(), discriminator: u.discriminator.clone(), avatar }
}

/// A copy of channel `c`, with the same id.
fn copy_channel(c: &Channel) -> (r: Channel)
    ensures
        r.id == c.id,
        r.channel_type == c.channel_type,
{
    Channel {
        id: c.id.clone(),
        channel_type: c.channel_type,
        guild_id: c.guild_id.clone(),
        name: c.name.clone(),
        topic: c.topic.clone(),
        recipients: c.recipients.clone(),
        recipient_ids: c.recipient_ids.clone(),
    }
}

/// Appends message `m` to the list of its channel, opening the list if the
/// channel has none.
fn append_message(ms: &mut Vec<(String, Vec<Message>)>, m: Message)
    ensures
        (exists|k: int| 0 <= k < old(ms)@.len() && old(ms)@[k].0@ == m.channel_id@
            && final(ms)@.len() == old(ms)@.len() && final(ms)@[k].0 == old(ms)@[k].0
            && final(ms)@[k].1@ == old(ms)@[k].1@.push(m)
            && forall|j: int| 0 <= j < old(ms)@.len() && j != k ==> final(ms)@[j] == old(ms)@[j])
        || ((forall|k: int| 0 <= k < old(ms)@.len() ==> old(ms)@[k].0@ != m.channel_id@)
            && final(ms)@.len() == old(ms)@.len() + 1
            && final(ms)@.last().0@ == m.channel_id@ && final(ms)@.last().1@ == seq![m]
            && final(ms)@.drop_last() == old(ms)@),
        exists|k: int| 0 <= k < final(ms)@.len() && final(ms)@[k].0@ == m.channel_id@
            && final(ms)@[k].1@.len() > 0 && final(ms)@[k].1@.last() == m,
        unique_threads(old(ms)@) ==> unique_threads(final(ms)@),
{
    let ghost mm = m;
    match thread_position(ms, &m.channel_id) {
        Some(k) => {
            let (cid, list) = ms.remove(k);
            let mut list = list;
            list.push(m);
            ms.insert(k, (cid, list));
            assert(ms@[k as int].1@.last() == mm);
            assert forall|j: int| 0 <= j < old(ms)@.len() && j != k implies ms@[j] == old(ms)@[j] by {
                if j < k {
                } else {
                }
            }
        },
        None => {
            let cid = m.channel_id.clone();
            let mut list: Vec<Message> = Vec::new();
            list.push(m);
            ms.push((cid, list));
            assert(ms@.drop_last() =~= old(ms)@);
            assert(ms@.last().1@ =~= seq![mm]);
            assert(ms@[ms@.len() - 1].1@.last() == mm);
        },
    }
}

/// Puts `list` as the messages of channel `cid`, replacing any list it had.
fn set_thread(ms: &mut Vec<(String, Vec<Message>)>, cid: String, list: Vec<Message>)
    ensures
        (exists|k: int| 0 <= k < old(ms)@.len() && old(ms)@[k].0@ == cid@
            && final(ms)@ == old(ms)@.update(k, (old(ms)@[k].0, list)))
        || ((forall|k: int| 0 <= k < old(ms)@.len() ==> old(ms)@[k].0@ != cid@)
            && final(ms)@ == old(ms)@.push((cid, list))),
        exists|k: int| 0 <= k < final(ms)@.len() && final(ms)@[k].0@ == cid@ && final(ms)@[k].1 == list,
        unique_threads(old(ms)@) ==> unique_threads(final(ms)@),
{
    let ghost l = list;
    let ghost c0 = cid;
    match thread_position(ms, &cid) {
        Some(k) => {
            let (c, _) = ms.remove(k);
            ms.insert(k, (c, list));
            assert(ms@ =~= old(ms)@.update(k as int, (old(ms)@[k as int].0, l)));
            assert(ms@[k as int].1 == l);
        },
        None => {
            ms.push((cid, list));
            assert(ms@[ms@.len() - 1] == (c0, l));
        },
    }
}

/// The position of the first message with id `id` in `list`.
fn message_position(list: &Vec<Message>, id: &String) -> (r: Option<usize>)
    ensures
        match r {
            Some(k) => k < list@.len() && list@[k as int].id@ == id@
                && forall|q: int| 0 <= q < k ==> list@[q].id@ != id@,
            None => forall|k: int| 0 <= k < list@.len() ==> list@[k].id@ != id@,
        },
{
    let mut i: usize = 0;
    while i < list.len()
        invariant
            i <= list@.len(),
            forall|k: int| 0 <= k < i ==> list@[k].id@ != id@,
        decreases list.len() - i,
    {
        if list[i].id == *id {
            return Some(i);
        }
        i = i + 1;
    }
    None
}

/// The messages of `list` other than those with id `id`.
fn drop_message(list: Vec<Message>, id: &String) -> (r: Vec<Message>)
    ensures
        r@ == messages_without(list@, id@),
{
    let mut out: Vec<Message> = Vec::new();
    let mut list = list;
    let ghost all = list@;
    let n = list.len();
    let mut i: usize = 0;
    while i < n
        invariant
            i <= n,
            n == all.len(),
            list@ == all.subrange(i as int, n as int),
            out@ == messages_without(all.subrange(0, i as int), id@),
        decreases n - i,
    {
        let m = list.remove(0);
        assert(all.subrange(0, i + 1).drop_last() =~= all.subrange(0, i as int));
        assert(list@ =~= all.subrange(i + 1, n as int));
        if m.id != *id {
            out.push(m);
        }
        i = i + 1;
    }
    assert(all.subrange(0, n as int) =~= all);
    out
}

/// The positions that `positions` gives are exactly those below `n` that
/// `keep` selects.
pub proof fn lemma_positions_members(n: nat, keep: spec_fn(nat) -> bool, x: usize)
    requires
        n <= usize::MAX,
    ensures
        positions(n, keep).contains(x) <==> (x < n && keep(x as nat)),
    decreases n,
{
    if n > 0 {
        lemma_positions_members((n - 1) as nat, keep, x);
        let rest = positions((n - 1) as nat, keep);
        if keep((n - 1) as nat) {
            let all = rest.push((n - 1) as usize);
            if rest.contains(x) {
                let k = choose|k: int| 0 <= k < rest.len() && rest[k] == x;
                assert(all[k] == x);
            }
            if all.contains(x) {
                let k = choose|k: int| 0 <= k < all.len() && all[k] == x;
                if k < rest.len() {
                    assert(rest[k] == x);
                }
            }
            assert(all[rest.len() as int] == (n - 1) as usize);
        }
    }
}

/// A listing in order of the positions that `keep` selects is empty exactly
/// when none is selected, and otherwise starts with a selected channel that
/// comes no later than any other selected one.
pub proof fn lemma_listing_starts_least(cs: Seq<Channel>, shown: Seq<usize>, keep: spec_fn(nat) -> bool)
    requires
        shown.to_multiset() == positions(cs.len(), keep).to_multiset(),
        listed_in_order(cs, shown),
        cs.len() <= usize::MAX,
    ensures
        shown.len() == positions(cs.len(), keep).len(),
        shown.len() > 0 <==> exists|p: usize| p < cs.len() && #[trigger] keep(p as nat),
        shown.len() > 0 ==> shown[0] < cs.len() && keep(shown[0] as nat)
            && forall|q: usize| q < cs.len() && #[trigger] keep(q as nat) ==> channel_le(cs[shown[0] as int], cs[q as int]),
{
    let all = positions(cs.len(), keep);
    shown.to_multiset_ensures();
    all.to_multiset_ensures();
    assert forall|x: usize| shown.contains(x) <==> (x < cs.len() && keep(x as nat)) by {
        lemma_positions_members(cs.len(), keep, x);
        assert(shown.contains(x) <==> shown.to_multiset().count(x) > 0);
        assert(all.contains(x) <==> all.to_multiset().count(x) > 0);
    }
    if shown.len() > 0 {
        assert(shown.contains(shown[0]));
        assert forall|q: usize| q < cs.len() && #[trigger] keep(q as nat) implies channel_le(cs[shown[0] as int], cs[q as int]) by {
            assert(shown.contains(q));
            let j = choose|j: int| 0 <= j < shown.len() && shown[j] == q;
            lemma_first_is_least(cs, shown, j);
        }
    } else {
        assert forall|p: usize| p < cs.len() implies !#[trigger] keep(p as nat) by {
            if keep(p as nat) {
                assert(!shown.contains(p));
            }
        }
    }
}

/// The row above `cur` in a list of `n` rows, wrapping to the last; a row
/// past the end moves to the last.
pub open spec fn row_above(cur: Option<usize>, n: int) -> int {
    let c = match cur {
        Some(c) => c as int,
        None => 0,
    };
    if c > 0 && c - 1 < n {
        c - 1
    } else {
        n - 1
    }
}

/// The row below `cur` in a list of `n` rows, wrapping to the first.
pub open spec fn row_below(cur: Option<usize>, n: int) -> int {
    let c = match cur {
        Some(c) => c as int,
        None => 0,
    };
    if c < n - 1 {
        c + 1
    } else {
        0
    }
}

/// The positions of the channels shown in the list: the search results while
/// searching, else the favourites.
pub open spec fn shown_positions(s: AppState) -> Seq<usize> {
    let cs = s.discord.channels@;
    if s.ui.search_mode {
        if s.ui.search_buffer@.len() == 0 {
            Seq::empty()
        } else {
            positions(cs.len(), |p: nat| search_hit(cs, s.discord.guilds@, lower_of(s.ui.search_buffer@), p))
        }
    } else {
        positions(cs.len(), |p: nat| favorite_at(cs, s.ui.favorites@, p))
    }
}

/// Whether `shown` lists the shown channels of `s` in order.
pub open spec fn lists_shown(s: AppState, shown: Seq<usize>) -> bool {
    &&& shown.to_multiset() == shown_positions(s).to_multiset()
    &&& listed_in_order(s.discord.channels@, shown)
    &&& forall|k: int| 0 <= k < shown.len() ==> shown[k] < s.discord.channels@.len()
}

/// Whether, from state `s`, the highlight moved up (or down) one row of some
/// listing of the shown channels, wrapping, selecting the channel there: `r`
/// asks for its messages and `t` is the state left.
pub open spec fn moved_to(s: AppState, t: AppState, r: Command, up: bool) -> bool {
    exists|shown: Seq<usize>| #[trigger] lists_shown(s, shown) && shown.len() > 0 && {
        let j = if up {
            row_above(s.ui.selected_index, shown.len() as int)
        } else {
            row_below(s.ui.selected_index, shown.len() as int)
        };
        &&& 0 <= j < shown.len()
        &&& t.ui.selected_index == Some(j as usize)
        &&& t.ui.selected_channel == Some(s.discord.channels@[shown[j] as int].id)
        &&& r == Command::LoadMessages(s.discord.channels@[shown[j] as int].id)
    }
}

/// Dropping an id keeps the others, each once.
proof fn lemma_without_keeps_unique(ids: Seq<String>, id: Seq<char>)
    requires
        unique_ids(ids),
    ensures
        unique_ids(ids_without(ids, id)),
        forall|k: int| 0 <= k < ids_without(ids, id).len() ==> exists|j: int| 0 <= j < ids.len()
            && (#[trigger] ids_without(ids, id)[k])@ == ids[j]@,
    decreases ids.len(),
{
    if ids.len() > 0 {
        let rest = ids.drop_last();
        lemma_without_keeps_unique(rest, id);
        let r = ids_without(rest, id);
        assert forall|k: int| 0 <= k < r.len() implies (#[trigger] r[k])@ != ids.last()@ by {
            let j = choose|j: int| 0 <= j < rest.len() && r[k]@ == rest[j]@;
            assert(ids[j] == rest[j]);
        }
        assert forall|k: int| 0 <= k < ids_without(ids, id).len() implies exists|j: int| 0 <= j < ids.len()
            && (#[trigger] ids_without(ids, id)[k])@ == ids[j]@ by {
            if k < r.len() {
                let j = choose|j: int| 0 <= j < rest.len() && r[k]@ == rest[j]@;
                assert(ids[j] == rest[j]);
            } else {
                assert(ids_without(ids, id)[k] == ids[ids.len() - 1]);
            }
        }
    }
}

/// Whether channel position `p` is the one first selected in state `s`: a
/// favourite that comes no later than any other favourite, or, without
/// favourites, a channel that comes no later than any other.
pub open spec fn first_choice(s: AppState, p: usize) -> bool {
    let cs = s.discord.channels@;
    &&& p < cs.len()
    &&& if exists|q: usize| q < cs.len() && #[trigger] favorite_at(cs, s.ui.favorites@, q as nat) {
        &&& favorite_at(cs, s.ui.favorites@, p as nat)
        &&& forall|q: usize| q < cs.len() && #[trigger] favorite_at(cs, s.ui.favorites@, q as nat)
            ==> channel_le(cs[p as int], cs[q as int])
    } else {
        forall|q: usize| q < cs.len() ==> channel_le(cs[p as int], #[trigger] cs[q as int])
    }
}

/// Whether, with nothing selected in `s`, the first channel was selected
/// (giving `t` and `r`): the first choice when there are channels, none
/// otherwise.
pub open spec fn picked_first(s: AppState, t: AppState, r: Command) -> bool {
    let cs = s.discord.channels@;
    &&& cs.len() == 0 ==> r is Nothing
    &&& cs.len() > 0 ==> exists|p: usize| #[trigger] first_choice(s, p)
        && r == Command::LoadMessages(cs[p as int].id)
        && t.ui.selected_channel == Some(cs[p as int].id)
        && t.ui.selected_index == Some(0usize)
}

/// The first choice depends only on the channels and the favourites.
proof fn lemma_picked_first_same_lists(s: AppState, t: AppState, r: Command)
    requires
        s.ui.selected_channel is None ==> picked_first(s, t, r),
        s.discord == t.discord,
        s.ui.favorites == t.ui.favorites,
    ensures
        s.ui.selected_channel is None ==> picked_first(t, t, r),
{
    if s.ui.selected_channel is None && s.discord.channels@.len() > 0 {
        let p = choose|p: usize| #[trigger] first_choice(s, p)
            && r == Command::LoadMessages(s.discord.channels@[p as int].id)
            && t.ui.selected_channel == Some(s.discord.channels@[p as int].id)
            && t.ui.selected_index == Some(0usize);
        assert(first_choice(t, p));
    }
}

impl AppState {
    /// Ids are unique among the channels, the guilds, the users, the
    /// message lists and the favourites.
    pub open spec fn wf(&self) -> bool {
        &&& unique_channels(self.discord.channels@)
        &&& unique_guilds(self.discord.guilds@)
        &&& unique_users(self.discord.users@)
        &&& unique_threads(self.discord.messages@)
        &&& unique_ids(self.ui.favorites@)
    }

    /// An empty state: nothing known, nothing selected.
    pub fn new() -> (r: AppState)
        ensures
            r.wf(),
            r.discord.guilds@.len() == 0,
            r.discord.channels@.len() == 0,
            r.discord.messages@.len() == 0,
            r.discord.users@.len() == 0,
            r.discord.current_user is None,
            !r.discord.connected,
            r.ui.selected_channel is None,
            r.ui.selected_index is None,
            r.ui.input_mode == InputMode::Normal,
            r.ui.input_buffer@.len() == 0,
            r.ui.favorites@.len() == 0,
            !r.ui.search_mode,
            r.ui.search_buffer@.len() == 0,
    {
        AppState {
            discord: DiscordState {
                guilds: Vec::new(),
                channels: Vec::new(),
                messages: Vec::new(),
                users: Vec::new(),
                current_user: None,
                connected: false,
            },
            ui: UiState {
                selected_channel: None,
                selected_index: None,
                input_mode: InputMode::Normal,
                input_buffer: String::new(),
                favorites: Vec::new(),
                search_mode: false,
                search_buffer: String::new(),
            },
        }
    }

    /// Replaces the favourites, each id kept once.
    pub fn load_favorites(&mut self, favorites: Vec<String>)
        requires
            old(self).wf(),
        ensures
            final(self).wf(),
            forall|k: int| 0 <= k < favorites@.len() ==> listed(final(self).ui.favorites@, (#[trigger] favorites@[k])@),
            forall|k: int| 0 <= k < final(self).ui.favorites@.len() ==> listed(favorites@, (#[trigger] final(self).ui.favorites@[k])@),
            final(self).discord == old(self).discord,
    {
        let mut kept: Vec<String> = Vec::new();
        let mut i: usize = 0;
        while i < favorites.len()
            invariant
                i <= favorites@.len(),
                unique_ids(kept@),
                forall|k: int| 0 <= k < i ==> listed(kept@, (#[trigger] favorites@[k])@),
                forall|k: int| 0 <= k < kept@.len() ==> listed(favorites@, (#[trigger] kept@[k])@),
            decreases favorites.len() - i,
        {
            if !is_listed(&kept, &favorites[i]) {
                let ghost before = kept@;
                kept.push(favorites[i].clone());
                assert(kept@[kept@.len() - 1] == favorites@[i as int]);
                assert forall|k: int| 0 <= k < i + 1 implies listed(kept@, (#[trigger] favorites@[k])@) by {
                    if k < i {
                        let j = choose|j: int| 0 <= j < before.len() && (#[trigger] before[j])@ == favorites@[k]@;
                        assert(kept@[j] == before[j]);
                    }
                }
                assert forall|k: int| 0 <= k < kept@.len() implies listed(favorites@, (#[trigger] kept@[k])@) by {
                    if k < before.len() {
                        assert(kept@[k] == before[k]);
                    }
                }
            }
            i = i + 1;
        }
        self.ui.favorites = kept;
    }

    /// The ids of the favourite channels.
    pub fn get_favorites(&self) -> (r: &Vec<String>)
        ensures
            *r == self.ui.favorites,
    {
        &self.ui.favorites
    }

    /// The positions of all channels, in listing order.
    pub fn get_channel_list(&self) -> (r: Vec<usize>)
        ensures
            r@.to_multiset() == positions(self.discord.channels@.len(), |p: nat| true).to_multiset(),
            listed_in_order(self.discord.channels@, r@),
            forall|k: int| 0 <= k < r@.len() ==> r@[k] < self.discord.channels@.len(),
    {
        let n = self.discord.channels.len();
        let mut cand: Vec<usize> = Vec::new();
        let mut i: usize = 0;
        while i < n
            invariant
                i <= n,
                n == self.discord.channels@.len(),
                cand@ == positions(i as nat, |p: nat| true),
                forall|k: int| 0 <= k < cand@.len() ==> cand@[k] < i,
            decreases n - i,
        {
            cand.push(i);
            i = i + 1;
        }
        sort_positions(&self.discord.channels, &cand)
    }

    /// The positions of the favourite channels, in listing order.
    pub fn get_favorite_channels(&self) -> (r: Vec<usize>)
        ensures
            r@.to_multiset() == positions(
                self.discord.channels@.len(),
                |p: nat| favorite_at(self.discord.channels@, self.ui.favorites@, p),
            ).to_multiset(),
            listed_in_order(self.discord.channels@, r@),
            forall|k: int| 0 <= k < r@.len() ==> r@[k] < self.discord.channels@.len(),
    {
        let n = self.discord.channels.len();
        let ghost keep = |p: nat| favorite_at(self.discord.channels@, self.ui.favorites@, p);
        let mut cand: Vec<usize> = Vec::new();
        let mut i: usize = 0;
        while i < n
            invariant
                i <= n,
                n == self.discord.channels@.len(),
                keep == (|p: nat| favorite_at(self.discord.channels@, self.ui.favorites@, p)),
                cand@ == positions(i as nat, keep),
                forall|k: int| 0 <= k < cand@.len() ==> cand@[k] < i,
            decreases n - i,
        {
            if is_listed(&self.ui.favorites, &self.discord.channels[i].id) {
                cand.push(i);
            }
            i = i + 1;
        }
        sort_positions(&self.discord.channels, &cand)
    }

    /// The name of the guild a channel belongs to, if the guild is known.
    fn guild_name_of(&self, gid: &Option<String>) -> (r: Option<&String>)
        ensures
            match r {
                Some(n) => guild_name(self.discord.guilds@, *gid) == Some(n@),
                None => guild_name(self.discord.guilds@, *gid) is None,
            },
    {
        match gid {
            Some(g) => {
                let gs = &self.discord.guilds;
                let mut i: usize = 0;
                assert(gs@.subrange(0, gs@.len() as int) =~= gs@);
                while i < gs.len()
                    invariant
                        i <= gs@.len(),
                        *gs == self.discord.guilds,
                        guild_name(self.discord.guilds@, *gid) == guild_name_in(gs@, g@),
                        guild_name_in(gs@, g@) == guild_name_in(gs@.subrange(i as int, gs@.len() as int), g@),
                    decreases gs.len() - i,
                {
                    let ghost rest = gs@.subrange(i as int, gs@.len() as int);
                    assert(rest.subrange(1, rest.len() as int) =~= gs@.subrange(i + 1, gs@.len() as int));
                    assert(rest[0] == gs@[i as int]);
                    if gs[i].id == *g {
                        return Some(&gs[i].name);
                    }
                    i = i + 1;
                }
                None
            },
            None => None,
        }
    }

    /// The positions of the channels whose shown name, or whose guild's
    /// name, contains `query`, case aside, in listing order; none for an
    /// empty query.
    pub fn search_channels(&self, query: &str) -> (r: Vec<usize>)
        ensures
            query@.len() == 0 ==> r@.len() == 0,
            query@.len() > 0 ==> r@.to_multiset() == positions(
                self.discord.channels@.len(),
                |p: nat| search_hit(self.discord.channels@, self.discord.guilds@, lower_of(query@), p),
            ).to_multiset(),
            listed_in_order(self.discord.channels@, r@),
            forall|k: int| 0 <= k < r@.len() ==> r@[k] < self.discord.channels@.len(),
    {
        if query.unicode_len() == 0 {
            return Vec::new();
        }
        let q = lowercase(query);
        let n = self.discord.channels.len();
        let ghost keep = |p: nat| search_hit(self.discord.channels@, self.discord.guilds@, lower_of(query@), p);
        let mut cand: Vec<usize> = Vec::new();
        let mut i: usize = 0;
        while i < n
            invariant
                i <= n,
                n == self.discord.channels@.len(),
                q@ == lower_of(query@),
                keep == (|p: nat| search_hit(self.discord.channels@, self.discord.guilds@, lower_of(query@), p)),
                cand@ == positions(i as nat, keep),
                forall|k: int| 0 <= k < cand@.len() ==> cand@[k] < i,
            decreases n - i,
        {
            let c = &self.discord.channels[i];
            let name = lowercase(c.display_name().as_str());
            let hit = if contains_text(name.as_str(), q.as_str()) {
                true
            } else {
                match self.guild_name_of(&c.guild_id) {
                    Some(g) => contains_text(lowercase(g.as_str()).as_str(), q.as_str()),
                    None => false,
                }
            };
            if hit {
                cand.push(i);
            }
            i = i + 1;
        }
        sort_positions(&self.discord.channels, &cand)
    }

    /// The channels shown: the search results while searching, else the
    /// favourites.
    fn get_current_display_channels(&self) -> (r: Vec<usize>)
        ensures
            lists_shown(*self, r@),
    {
        if self.ui.search_mode {
            let r = self.search_channels(self.ui.search_buffer.as_str());
            proof {
                if self.ui.search_buffer@.len() == 0 {
                    assert(r@ =~= Seq::<usize>::empty());
                }
            }
            r
        } else {
            self.get_favorite_channels()
        }
    }

    /// Highlights row `row` of the shown list `shown` and asks for its
    /// messages.
    fn select_row(&mut self, shown: &Vec<usize>, row: usize) -> (r: Command)
        requires
            row < shown@.len(),
            shown@[row as int] < old(self).discord.channels@.len(),
        ensures
            final(self).ui.selected_index == Some(row),
            final(self).ui.selected_channel == Some(old(self).discord.channels@[shown@[row as int] as int].id),
            r == Command::LoadMessages(old(self).discord.channels@[shown@[row as int] as int].id),
            final(self).discord == old(self).discord,
            final(self).ui.search_mode == old(self).ui.search_mode,
            final(self).ui.input_mode == old(self).ui.input_mode,
            final(self).ui.favorites == old(self).ui.favorites,
            final(self).ui.search_buffer == old(self).ui.search_buffer,
            final(self).ui.input_buffer == old(self).ui.input_buffer,
    {
        let id = self.discord.channels[shown[row]].id.clone();
        self.ui.selected_index = Some(row);
        self.ui.selected_channel = Some(id.clone());
        Command::LoadMessages(id)
    }

    /// Moves the highlight one row up the shown list, wrapping to the last
    /// row, and asks for the messages of the channel reached. A highlight
    /// past the end of the list moves to the last row.
    fn select_previous_channel(&mut self) -> (r: Command)
        ensures
            final(self).discord == old(self).discord,
            final(self).ui.search_mode == old(self).ui.search_mode,
            final(self).ui.input_mode == old(self).ui.input_mode,
            final(self).ui.favorites == old(self).ui.favorites,
            final(self).ui.search_buffer == old(self).ui.search_buffer,
            final(self).ui.input_buffer == old(self).ui.input_buffer,
            r is Nothing ==> final(self).ui == old(self).ui,
            shown_positions(*old(self)).len() == 0 ==> r is Nothing && final(self).ui == old(self).ui,
            shown_positions(*old(self)).len() > 0 ==> moved_to(*old(self), *final(self), r, true),
    {
        let shown = self.get_current_display_channels();
        let n = shown.len();
        proof {
            shown@.to_multiset_ensures();
            shown_positions(*self).to_multiset_ensures();
        }
        if n == 0 {
            return Command::Nothing;
        }
        let current = match self.ui.selected_index {
            Some(c) => c,
            None => 0,
        };
        let row = if current > 0 && current - 1 < n {
            current - 1
        } else {
            n - 1
        };
        let ghost before = *self;
        let r = self.select_row(&shown, row);
        proof {
            assert(row as int == row_above(before.ui.selected_index, shown@.len() as int));
            assert(lists_shown(before, shown@));
        }
        r
    }

    /// Moves the highlight one row down the shown list, wrapping to the
    /// first row, and asks for the messages of the channel reached.
    fn select_next_channel(&mut self) -> (r: Command)
        ensures
            final(self).discord == old(self).discord,
            final(self).ui.search_mode == old(self).ui.search_mode,
            final(self).ui.input_mode == old(self).ui.input_mode,
            final(self).ui.favorites == old(self).ui.favorites,
            final(self).ui.search_buffer == old(self).ui.search_buffer,
            final(self).ui.input_buffer == old(self).ui.input_buffer,
            r is Nothing ==> final(self).ui == old(self).ui,
            shown_positions(*old(self)).len() == 0 ==> r is Nothing && final(self).ui == old(self).ui,
            shown_positions(*old(self)).len() > 0 ==> moved_to(*old(self), *final(self), r, false),
    {
        let shown = self.get_current_display_channels();
        let n = shown.len();
        proof {
            shown@.to_multiset_ensures();
            shown_positions(*self).to_multiset_ensures();
        }
        if n == 0 {
            return Command::Nothing;
        }
        let current = match self.ui.selected_index {
            Some(c) => c,
            None => 0,
        };
        let row = if current < n - 1 {
            current + 1
        } else {
            0
        };
        let ghost before = *self;
        let r = self.select_row(&shown, row);
        proof {
            assert(row as int == row_below(before.ui.selected_index, shown@.len() as int));
            assert(lists_shown(before, shown@));
        }
        r
    }

    /// Adds the selected channel to the favourites, or removes it.
    pub fn toggle_favorite(&mut self)
        requires
            old(self).wf(),
        ensures
            final(self).wf(),
            final(self).discord == old(self).discord,
            final(self).ui.selected_channel == old(self).ui.selected_channel,
            final(self).ui.search_mode == old(self).ui.search_mode,
            old(self).ui.selected_channel is None ==> final(self).ui.favorites == old(self).ui.favorites,
            old(self).ui.selected_channel matches Some(id) ==> (listed(old(self).ui.favorites@, id@)
                ==> final(self).ui.favorites@ == ids_without(old(self).ui.favorites@, id@)),
            old(self).ui.selected_channel matches Some(id) ==> (!listed(old(self).ui.favorites@, id@)
                ==> final(self).ui.favorites@ == old(self).ui.favorites@.push(id)),
    {
        let id = match &self.ui.selected_channel {
            Some(id) => id.clone(),
            None => return,
        };
        if is_listed(&self.ui.favorites, &id) {
            let mut kept: Vec<String> = Vec::new();
            let mut i: usize = 0;
            while i < self.ui.favorites.len()
                invariant
                    i <= self.ui.favorites@.len(),
                    kept@ == ids_without(self.ui.favorites@.subrange(0, i as int), id@),
                decreases self.ui.favorites.len() - i,
            {
                let ghost prefix = self.ui.favorites@.subrange(0, i as int);
                assert(self.ui.favorites@.subrange(0, i + 1).drop_last() =~= prefix);
                if self.ui.favorites[i] != id {
                    kept.push(self.ui.favorites[i].clone());
                }
                i = i + 1;
            }
            assert(self.ui.favorites@.subrange(0, self.ui.favorites@.len() as int) =~= self.ui.favorites@);
            proof {
                lemma_without_keeps_unique(self.ui.favorites@, id@);
            }
            self.ui.favorites = kept;
        } else {
            let ghost before = self.ui.favorites@;
            self.ui.favorites.push(id);
            assert forall|i: int, j: int| 0 <= i < j < self.ui.favorites@.len() implies
                self.ui.favorites@[i]@ != self.ui.favorites@[j]@ by {
                if j == before.len() {
                    assert(self.ui.favorites@[i] == before[i]);
                }
            }
        }
    }

    /// Enters or leaves search mode, emptying the query either way.
    pub fn toggle_search_mode(&mut self)
        ensures
            final(self).ui.search_mode == !old(self).ui.search_mode,
            final(self).ui.search_buffer@.len() == 0,
            final(self).discord == old(self).discord,
            final(self).ui.favorites == old(self).ui.favorites,
            final(self).ui.selected_channel == old(self).ui.selected_channel,
            final(self).ui.selected_index == old(self).ui.selected_index,
            final(self).ui.input_mode == old(self).ui.input_mode,
            final(self).ui.input_buffer == old(self).ui.input_buffer,
    {
        self.ui.search_mode = !self.ui.search_mode;
        clear_text(&mut self.ui.search_buffer);
    }

    /// Types a character into the search query, while searching.
    pub fn search_input(&mut self, c: char)
        ensures
            old(self).ui.search_mode ==> final(self).ui.search_buffer@ == old(self).ui.search_buffer@.push(c),
            !old(self).ui.search_mode ==> final(self).ui.search_buffer == old(self).ui.search_buffer,
            final(self).ui.search_mode == old(self).ui.search_mode,
            final(self).discord == old(self).discord,
            final(self).ui.favorites == old(self).ui.favorites,
    {
        if self.ui.search_mode {
            push_char(&mut self.ui.search_buffer, c);
        }
    }

    /// Erases the last character of the search query, while searching.
    pub fn search_backspace(&mut self)
        ensures
            old(self).ui.search_mode && old(self).ui.search_buffer@.len() > 0
                ==> final(self).ui.search_buffer@ == old(self).ui.search_buffer@.drop_last(),
            !(old(self).ui.search_mode && old(self).ui.search_buffer@.len() > 0)
                ==> final(self).ui.search_buffer@ == old(self).ui.search_buffer@,
            final(self).ui.search_mode == old(self).ui.search_mode,
            final(self).discord == old(self).discord,
            final(self).ui.favorites == old(self).ui.favorites,
    {
        if self.ui.search_mode {
            pop_char(&mut self.ui.search_buffer);
        }
    }

    /// The messages of the selected channel, if any were loaded.
    pub fn get_current_messages(&self) -> (r: Option<&Vec<Message>>)
        ensures
            self.ui.selected_channel is None ==> r is None,
            r matches Some(v) ==> exists|k: int| 0 <= k < self.discord.messages@.len()
                && self.discord.messages@[k].0@ == self.ui.selected_channel->0@
                && self.discord.messages@[k].1 == *v,
    {
        match &self.ui.selected_channel {
            Some(id) => match thread_position(&self.discord.messages, id) {
                Some(k) => Some(&self.discord.messages[k].1),
                None => None,
            },
            None => None,
        }
    }

    /// The command that loads the selected channel's messages, if one is
    /// selected.
    fn load_selected(&self) -> (r: Command)
        ensures
            self.ui.selected_channel matches Some(id) ==> r == Command::LoadMessages(id),
            self.ui.selected_channel is None ==> r is Nothing,
    {
        match &self.ui.selected_channel {
            Some(id) => Command::LoadMessages(id.clone()),
            None => Command::Nothing,
        }
    }

    /// Takes a key press: while searching it edits the query, moves through
    /// the results, or confirms (Enter) or leaves (Esc) the search; in
    /// normal mode `i` starts typing, `/` starts a search, `f` toggles the
    /// favourite, arrows and `k`/`j` move, and Enter opens the channel; while
    /// typing Esc stops, Enter sends the typed text to the selected channel,
    /// and other keys edit it.
    fn handle_key_press(&mut self, key: Key) -> (r: Command)
        requires
            old(self).wf(),
        ensures
            final(self).wf(),
            old(self).ui.search_mode && key == Key::Esc ==> !final(self).ui.search_mode && r is Nothing,
            (key == Key::Up && (old(self).ui.search_mode || old(self).ui.input_mode == InputMode::Normal))
                || (key == Key::Char('k') && !old(self).ui.search_mode && old(self).ui.input_mode == InputMode::Normal)
                ==> (shown_positions(*old(self)).len() > 0 ==> moved_to(*old(self), *final(self), r, true))
                && (shown_positions(*old(self)).len() == 0 ==> r is Nothing && final(self).ui == old(self).ui),
            (key == Key::Down && (old(self).ui.search_mode || old(self).ui.input_mode == InputMode::Normal))
                || (key == Key::Char('j') && !old(self).ui.search_mode && old(self).ui.input_mode == InputMode::Normal)
                ==> (shown_positions(*old(self)).len() > 0 ==> moved_to(*old(self), *final(self), r, false))
                && (shown_positions(*old(self)).len() == 0 ==> r is Nothing && final(self).ui == old(self).ui),
            old(self).ui.search_mode && key == Key::Enter ==> !final(self).ui.search_mode
                && final(self).ui.search_buffer@.len() == 0
                && final(self).ui.input_mode == old(self).ui.input_mode
                && final(self).ui.input_buffer == old(self).ui.input_buffer
                && r == (match old(self).ui.selected_channel {
                    Some(id) => Command::LoadMessages(id),
                    None => Command::Nothing,
                }),
            old(self).ui.search_mode ==> (key matches Key::Char(c) ==> r is Nothing
                && final(self).ui.search_buffer@ == old(self).ui.search_buffer@.push(c)),
            !old(self).ui.search_mode && old(self).ui.input_mode == InputMode::Normal ==> (
                (key == Key::Char('i') ==> final(self).ui.input_mode == InputMode::Editing && r is Nothing)
                && (key == Key::Char('/') ==> final(self).ui.search_mode && r is Nothing)
                && (key == Key::Enter ==> r == (match old(self).ui.selected_channel {
                    Some(id) => Command::LoadMessages(id),
                    None => Command::Nothing,
                }))),
            !old(self).ui.search_mode && old(self).ui.input_mode == InputMode::Editing ==> (
                (key == Key::Esc ==> final(self).ui.input_mode == InputMode::Normal && r is Nothing)
                && (key matches Key::Char(c) ==> final(self).ui.input_buffer@ == old(self).ui.input_buffer@.push(c)
                    && r is Nothing)
                && (key == Key::Enter && old(self).ui.input_buffer@.len() > 0 ==> final(self).ui.input_buffer@.len() == 0
                    && r == (match old(self).ui.selected_channel {
                        Some(id) => Command::SendMessage { channel_id: id, content: old(self).ui.input_buffer },
                        None => Command::Nothing,
                    }))
                && (key == Key::Enter && old(self).ui.input_buffer@.len() == 0 ==> r is Nothing
                    && final(self).ui.input_buffer == old(self).ui.input_buffer)),
            final(self).discord == old(self).discord,
    {
        if self.ui.search_mode {
            return match key {
                Key::Esc => {
                    self.toggle_search_mode();
                    Command::Nothing
                },
                Key::Backspace => {
                    self.search_backspace();
                    Command::Nothing
                },
                Key::Up => self.select_previous_channel(),
                Key::Down => self.select_next_channel(),
                Key::Enter => {
                    self.toggle_search_mode();
                    self.load_selected()
                },
                Key::Char(c) => {
                    self.search_input(c);
                    Command::Nothing
                },
                Key::Other => Command::Nothing,
            };
        }
        match self.ui.input_mode {
            InputMode::Normal => match key {
                Key::Char('i') => {
                    self.ui.input_mode = InputMode::Editing;
                    Command::Nothing
                },
                Key::Char('/') => {
                    self.toggle_search_mode();
                    Command::Nothing
                },
                Key::Char('f') => {
                    self.toggle_favorite();
                    Command::Nothing
                },
                Key::Up | Key::Char('k') => self.select_previous_channel(),
                Key::Down | Key::Char('j') => self.select_next_channel(),
                Key::Enter => self.load_selected(),
                _ => Command::Nothing,
            },
            InputMode::Editing => match key {
                Key::Esc => {
                    self.ui.input_mode = InputMode::Normal;
                    Command::Nothing
                },
                Key::Enter => {
                    if self.ui.input_buffer.unicode_len() > 0 {
                        let content = self.ui.input_buffer.clone();
                        clear_text(&mut self.ui.input_buffer);
                        match &self.ui.selected_channel {
                            Some(id) => Command::SendMessage { channel_id: id.clone(), content },
                            None => Command::Nothing,
                        }
                    } else {
                        Command::Nothing
                    }
                },
                Key::Backspace => {
                    pop_char(&mut self.ui.input_buffer);
                    Command::Nothing
                },
                Key::Char(c) => {
                    push_char(&mut self.ui.input_buffer, c);
                    Command::Nothing
                },
                _ => Command::Nothing,
            },
        }
    }

    /// When no channel is selected, selects the first favourite, or else the
    /// first channel, and asks for its messages.
    fn select_first_channel(&mut self) -> (r: Command)
        ensures
            old(self).ui.selected_channel is Some ==> r is Nothing && *final(self) == *old(self),
            r is Nothing ==> *final(self) == *old(self),
            old(self).ui.selected_channel is None ==> picked_first(*old(self), *final(self), r),
            final(self).discord == old(self).discord,
            final(self).ui.favorites == old(self).ui.favorites,
    {
        if self.ui.selected_channel.is_some() {
            return Command::Nothing;
        }
        let n = self.discord.channels.len();
        let ghost before = *self;
        let ghost cs = self.discord.channels@;
        let ghost fav = |p: nat| favorite_at(self.discord.channels@, self.ui.favorites@, p);
        let ghost any = |p: nat| true;
        let favs = self.get_favorite_channels();
        proof {
            lemma_listing_starts_least(cs, favs@, fav);
        }
        if favs.len() > 0 {
            let r = self.select_row(&favs, 0);
            proof {
                let p0 = favs@[0];
                assert(fav(p0 as nat));
                assert(favorite_at(cs, before.ui.favorites@, p0 as nat));
                assert forall|q: usize| q < cs.len() && #[trigger] favorite_at(cs, before.ui.favorites@, q as nat)
                    implies channel_le(cs[p0 as int], cs[q as int]) by {
                    assert(fav(q as nat));
                }
                assert(first_choice(before, p0));
            }
            return r;
        }
        let all = self.get_channel_list();
        proof {
            lemma_listing_starts_least(cs, all@, any);
            if cs.len() > 0 {
                assert(any(0));
            }
        }
        if all.len() > 0 {
            let r = self.select_row(&all, 0);
            proof {
                let p0 = all@[0];
                assert forall|q: usize| q < cs.len() implies !#[trigger] favorite_at(cs, before.ui.favorites@, q as nat) by {
                    if favorite_at(cs, before.ui.favorites@, q as nat) {
                        assert(fav(q as nat));
                    }
                }
                assert forall|q: usize| q < cs.len() implies channel_le(cs[p0 as int], #[trigger] cs[q as int]) by {
                    assert(any(q as nat));
                }
                assert(first_choice(before, p0));
            }
            return r;
        }
        Command::Nothing
    }

    /// Takes in the snapshot of a ready event: the current user, the known
    /// users, the guilds with their text channels, and the private
    /// conversations with their recipients named from the known users.
    /// Entries that do not decode are passed over.
    fn apply_ready(&mut self, data: &Json)
        requires
            old(self).wf(),
        ensures
            final(self).wf(),
            final(self).discord.connected,
            final(self).ui == old(self).ui,
            final(self).discord.current_user == ready_user(old(self).discord.current_user, *data),
            ready_taken(*data, *final(self)),
    {
        if let Some(u) = data.get("user") {
            if let Some(user) = User::from_json(u) {
                self.discord.current_user = Some(user);
            }
        }
        self.discord.connected = true;
        let ghost user = self.discord.current_user;
        let ghost users_j = array_member(*data, "users"@);
        let ghost guilds_j = array_member(*data, "guilds"@);
        let ghost private_j = array_member(*data, "private_channels"@);
        if let Some(Json::Array(users)) = data.get("users") {
            let mut i: usize = 0;
            while i < users.len()
                invariant
                    i <= users@.len(),
                    users@ == users_j,
                    self.discord.connected,
                    self.ui == old(self).ui,
                    self.discord.current_user == user,
                    self.wf(),
                    forall|ii: int| 0 <= ii < i && (#[trigger] user_of(users_j[ii])) is Some
                        ==> has_user(self.discord.users@, user_of(users_j[ii])->0.id@),
                decreases users.len() - i,
            {
                let ghost before = self.discord.users@;
                if let Some(u) = User::from_json(&users[i]) {
                    upsert_user(&mut self.discord.users, u);
                }
                proof {
                    lemma_users_grow(before, self.discord.users@);
                }
                i = i + 1;
            }
        }
        let ghost users_done = self.discord.users;
        if let Some(Json::Array(guilds)) = data.get("guilds") {
            let mut i: usize = 0;
            while i < guilds.len()
                invariant
                    i <= guilds@.len(),
                    guilds@ == guilds_j,
                    self.discord.connected,
                    self.ui == old(self).ui,
                    self.discord.current_user == user,
                    self.wf(),
                    self.discord.users == users_done,
                    forall|ii: int| 0 <= ii < users_j.len() && (#[trigger] user_of(users_j[ii])) is Some
                        ==> has_user(self.discord.users@, user_of(users_j[ii])->0.id@),
                    forall|ii: int| 0 <= ii < i && (#[trigger] ready_guild_of(guilds_j[ii])) is Some
                        ==> has_guild(self.discord.guilds@, ready_guild_of(guilds_j[ii])->0.id@),
                    forall|ii: int, jj: int| 0 <= ii < i && ready_guild_of(guilds_j[ii]) is Some
                        && 0 <= jj < array_member(guilds_j[ii], "channels"@).len()
                        && #[trigger] keeps_channel(array_member(guilds_j[ii], "channels"@)[jj])
                        ==> has_channel(self.discord.channels@, entry_id(array_member(guilds_j[ii], "channels"@)[jj])),
                decreases guilds.len() - i,
            {
                let entry = &guilds[i];
                let ghost chs = array_member(guilds_j[i as int], "channels"@);
                if let Some(guild) = Guild::from_ready_entry(entry) {
                    let gid = guild.id.clone();
                    let ghost gbefore = self.discord.guilds@;
                    upsert_guild(&mut self.discord.guilds, guild);
                    proof {
                        lemma_guilds_grow(gbefore, self.discord.guilds@);
                    }
                    if let Some(Json::Array(channels)) = entry.get("channels") {
                        let mut j: usize = 0;
                        while j < channels.len()
                            invariant
                                j <= channels@.len(),
                                channels@ == chs,
                                i < guilds_j.len(),
                                *entry == guilds_j[i as int],
                                ready_guild_of(guilds_j[i as int]) is Some,
                                self.discord.connected,
                                self.ui == old(self).ui,
                                self.discord.current_user == user,
                                self.wf(),
                                self.discord.users == users_done,
                                forall|ii: int| 0 <= ii < users_j.len() && (#[trigger] user_of(users_j[ii])) is Some
                                    ==> has_user(self.discord.users@, user_of(users_j[ii])->0.id@),
                                forall|ii: int| 0 <= ii <= i && (#[trigger] ready_guild_of(guilds_j[ii])) is Some
                                    ==> has_guild(self.discord.guilds@, ready_guild_of(guilds_j[ii])->0.id@),
                                forall|ii: int, jj: int| 0 <= ii < i && ready_guild_of(guilds_j[ii]) is Some
                                    && 0 <= jj < array_member(guilds_j[ii], "channels"@).len()
                                    && #[trigger] keeps_channel(array_member(guilds_j[ii], "channels"@)[jj])
                                    ==> has_channel(self.discord.channels@, entry_id(array_member(guilds_j[ii], "channels"@)[jj])),
                                forall|jj: int| 0 <= jj < j && #[trigger] keeps_channel(chs[jj])
                                    ==> has_channel(self.discord.channels@, entry_id(chs[jj])),
                            decreases channels.len() - j,
                        {
                            let ghost before = self.discord.channels@;
                            if let Some(c) = Channel::from_json(&channels[j]) {
                                let mut c = c;
                                c.guild_id = Some(gid.clone());
                                if c.channel_type == 0 {
                                    upsert_channel(&mut self.discord.channels, c);
                                }
                            }
                            proof {
                                lemma_channels_grow(before, self.discord.channels@);
                            }
                            j = j + 1;
                        }
                    }
                    proof {
                        assert forall|ii: int, jj: int| 0 <= ii < i + 1 && ready_guild_of(guilds_j[ii]) is Some
                            && 0 <= jj < array_member(guilds_j[ii], "channels"@).len()
                            && #[trigger] keeps_channel(array_member(guilds_j[ii], "channels"@)[jj])
                            implies has_channel(self.discord.channels@, entry_id(array_member(guilds_j[ii], "channels"@)[jj])) by {
                            if ii == i {
                                assert(keeps_channel(chs[jj]));
                            }
                        }
                    }
                }
                i = i + 1;
            }
        }
        if let Some(Json::Array(private)) = data.get("private_channels") {
            let mut i: usize = 0;
            while i < private.len()
                invariant
                    i <= private@.len(),
                    private@ == private_j,
                    self.discord.connected,
                    self.ui == old(self).ui,
                    self.discord.current_user == user,
                    self.wf(),
                    forall|ii: int| 0 <= ii < users_j.len() && (#[trigger] user_of(users_j[ii])) is Some
                        ==> has_user(self.discord.users@, user_of(users_j[ii])->0.id@),
                    forall|ii: int| 0 <= ii < guilds_j.len() && (#[trigger] ready_guild_of(guilds_j[ii])) is Some
                        ==> has_guild(self.discord.guilds@, ready_guild_of(guilds_j[ii])->0.id@),
                    forall|ii: int, jj: int| 0 <= ii < guilds_j.len() && ready_guild_of(guilds_j[ii]) is Some
                        && 0 <= jj < array_member(guilds_j[ii], "channels"@).len()
                        && #[trigger] keeps_channel(array_member(guilds_j[ii], "channels"@)[jj])
                        ==> has_channel(self.discord.channels@, entry_id(array_member(guilds_j[ii], "channels"@)[jj])),
                    forall|ii: int| 0 <= ii < i && #[trigger] channel_ok(private_j[ii])
                        ==> has_channel(self.discord.channels@, entry_id(private_j[ii])),
                decreases private.len() - i,
            {
                let ghost before = self.discord.channels@;
                if let Some(c) = Channel::from_json(&private[i]) {
                    let mut c = c;
                    let named = match &c.recipient_ids {
                        Some(ids) => Some(self.known_users(ids)),
                        None => None,
                    };
                    if named.is_some() {
                        c.recipients = named;
                    }
                    upsert_channel(&mut self.discord.channels, c);
                }
                proof {
                    lemma_channels_grow(before, self.discord.channels@);
                }
                i = i + 1;
            }
        }
    }

    /// The known users with the ids `ids`, in that order; unknown ids are
    /// passed over.
    fn known_users(&self, ids: &Vec<String>) -> (r: Vec<User>)
        ensures
            forall|k: int| 0 <= k < r@.len() ==> self.discord.users@.contains(#[trigger] r@[k]),
    {
        let mut out: Vec<User> = Vec::new();
        let mut i: usize = 0;
        while i < ids.len()
            invariant
                i <= ids@.len(),
                forall|k: int| 0 <= k < out@.len() ==> self.discord.users@.contains(#[trigger] out@[k]),
            decreases ids.len() - i,
        {
            let mut j: usize = 0;
            while j < self.discord.users.len()
                invariant
                    i < ids@.len(),
                    j <= self.discord.users@.len(),
                    forall|k: int| 0 <= k < out@.len() ==> self.discord.users@.contains(#[trigger] out@[k]),
                decreases self.discord.users.len() - j,
            {
                if self.discord.users[j].id == ids[i] {
                    out.push(copy_user(&self.discord.users[j]));
                    assert(self.discord.users@[j as int] == out@.last());
                    break;
                }
                j = j + 1;
            }
            i = i + 1;
        }
        out
    }

    /// Applies one event and says what work it calls for.
    pub fn update(&mut self, event: AppEvent) -> (r: Command)
        requires
            old(self).wf(),
        ensures
            final(self).wf(),
            event is Tick || event is Quit ==> r is Nothing && *final(self) == *old(self),
            event matches AppEvent::MessageSent(m) ==> r == Command::LoadMessages(m.channel_id)
                && *final(self) == *old(self),
            event matches AppEvent::GatewayReady(data) ==> final(self).discord.connected
                && final(self).discord.current_user == ready_user(old(self).discord.current_user, data)
                && ready_taken(data, *final(self)),
            (event is GatewayReady || event is GuildCreate) ==> (
                (old(self).ui.selected_channel is Some ==> r is Nothing
                    && final(self).ui.selected_channel == old(self).ui.selected_channel)
                && (r matches Command::LoadMessages(id) ==> final(self).ui.selected_channel == Some(id)
                    && final(self).ui.selected_index == Some(0usize))
                && (old(self).ui.selected_channel is None ==> picked_first(*final(self), *final(self), r))),
            event matches AppEvent::MessageCreate(m) ==> r is Nothing && final(self).ui == old(self).ui
                && final(self).discord.guilds == old(self).discord.guilds
                && final(self).discord.channels == old(self).discord.channels
                && final(self).discord.users == old(self).discord.users
                && final(self).discord.current_user == old(self).discord.current_user
                && final(self).discord.connected == old(self).discord.connected
                && appended(old(self).discord.messages@, m, final(self).discord.messages@),
            event matches AppEvent::MessagesLoaded { channel_id, messages } ==> r is Nothing
                && final(self).ui == old(self).ui
                && final(self).discord.guilds == old(self).discord.guilds
                && final(self).discord.channels == old(self).discord.channels
                && replaced_thread(old(self).discord.messages@, channel_id, messages, final(self).discord.messages@),
            event is MessageUpdate || event is MessageDelete ==> r is Nothing && final(self).ui == old(self).ui
                && final(self).discord.messages@.len() == old(self).discord.messages@.len(),
            event matches AppEvent::MessageDelete { id, channel_id } ==> forall|k: int|
                0 <= k < old(self).discord.messages@.len() ==> (#[trigger] final(self).discord.messages@[k]).0
                == old(self).discord.messages@[k].0 && (final(self).discord.messages@[k].1@ == if old(
                self).discord.messages@[k].0@ == channel_id@ {
                    messages_without(old(self).discord.messages@[k].1@, id@)
                } else {
                    old(self).discord.messages@[k].1@
                }),
            event matches AppEvent::MessageUpdate(m) ==> forall|k: int|
                0 <= k < old(self).discord.messages@.len() ==> (#[trigger] final(self).discord.messages@[k]).0
                == old(self).discord.messages@[k].0 && (old(self).discord.messages@[k].0@ != m.channel_id@
                ==> final(self).discord.messages@[k].1@ == old(self).discord.messages@[k].1@),
            event matches AppEvent::MessageUpdate(m) ==> forall|k: int, p: int|
                0 <= k < old(self).discord.messages@.len() && old(self).discord.messages@[k].0@ == m.channel_id@
                && 0 <= p < old(self).discord.messages@[k].1@.len()
                && old(self).discord.messages@[k].1@[p].id@ == m.id@
                && (forall|q: int| 0 <= q < p ==> (#[trigger] old(self).discord.messages@[k].1@[q]).id@ != m.id@)
                ==> final(self).discord.messages@[k].1@ == old(self).discord.messages@[k].1@.update(p, m),
            event matches AppEvent::MessageUpdate(m) ==> forall|k: int|
                0 <= k < old(self).discord.messages@.len() && old(self).discord.messages@[k].0@ == m.channel_id@
                && (forall|q: int| 0 <= q < old(self).discord.messages@[k].1@.len()
                    ==> (#[trigger] old(self).discord.messages@[k].1@[q]).id@ != m.id@)
                ==> final(self).discord.messages@[k].1@ == old(self).discord.messages@[k].1@,
            event matches AppEvent::GuildCreate { guild, channels } ==> (exists|k: int|
                0 <= k < final(self).discord.guilds@.len() && final(self).discord.guilds@[k] == guild)
                && forall|i: int| 0 <= i < channels@.len() ==> exists|k: int| 0 <= k < final(self).discord.channels@.len()
                    && (#[trigger] final(self).discord.channels@[k]).id@ == (#[trigger] channels@[i]).id@,
            event matches AppEvent::Input(c) ==> r is Nothing && (old(self).ui.input_mode == InputMode::Editing
                ==> final(self).ui.input_buffer@ == old(self).ui.input_buffer@.push(c)),
    {
        match event {
            AppEvent::GatewayReady(data) => {
                self.apply_ready(&data);
                let ghost mid = *self;
                let r = self.select_first_channel();
                proof {
                    lemma_picked_first_same_lists(mid, *self, r);
                }
                r
            },
            AppEvent::GuildCreate { guild, channels } => {
                let ghost g = guild;
                upsert_guild(&mut self.discord.guilds, guild);
                assert(exists|k: int| 0 <= k < self.discord.guilds@.len() && self.discord.guilds@[k] == g) by {
                    if exists|k: int| 0 <= k < old(self).discord.guilds@.len() && old(self).discord.guilds@[k].id@ == g.id@
                        && self.discord.guilds@ == old(self).discord.guilds@.update(k, g) {
                        let k = choose|k: int| 0 <= k < old(self).discord.guilds@.len() && old(self).discord.guilds@[k].id@ == g.id@
                            && self.discord.guilds@ == old(self).discord.guilds@.update(k, g);
                        assert(self.discord.guilds@[k] == g);
                    } else {
                        assert(self.discord.guilds@[self.discord.guilds@.len() - 1] == g);
                    }
                }
                let ghost all = channels@;
                let mut i: usize = 0;
                while i < channels.len()
                    invariant
                        i <= channels@.len(),
                        all == channels@,
                        self.ui == old(self).ui,
                        self.wf(),
                        exists|k: int| 0 <= k < self.discord.guilds@.len() && self.discord.guilds@[k] == g,
                        forall|j: int| 0 <= j < i ==> exists|k: int| 0 <= k < self.discord.channels@.len()
                            && (#[trigger] self.discord.channels@[k]).id@ == (#[trigger] all[j]).id@,
                    decreases channels.len() - i,
                {
                    let ghost before = self.discord.channels@;
                    let c = copy_channel(&channels[i]);
                    upsert_channel(&mut self.discord.channels, c);
                    assert(forall|k: int| 0 <= k < before.len() ==> (#[trigger] self.discord.channels@[k]).id@ == before[k].id@);
                    assert forall|j: int| 0 <= j < i + 1 implies exists|k: int| 0 <= k < self.discord.channels@.len()
                        && (#[trigger] self.discord.channels@[k]).id@ == (#[trigger] all[j]).id@ by {
                        if j < i {
                            let k = choose|k: int| 0 <= k < before.len() && (#[trigger] before[k]).id@ == all[j].id@;
                            assert(self.discord.channels@[k].id@ == before[k].id@);
                        } else {
                            if exists|k: int| 0 <= k < before.len() && before[k].id@ == c.id@
                                && self.discord.channels@ == before.update(k, c) {
                                let k = choose|k: int| 0 <= k < before.len() && before[k].id@ == c.id@
                                    && self.discord.channels@ == before.update(k, c);
                                assert(self.discord.channels@[k] == c);
                            } else {
                                assert(self.discord.channels@[self.discord.channels@.len() - 1] == c);
                            }
                        }
                    }
                    i = i + 1;
                }
                let ghost mid = *self;
                let r = self.select_first_channel();
                proof {
                    lemma_picked_first_same_lists(mid, *self, r);
                }
                r
            },
            AppEvent::MessageCreate(m) => {
                let ghost mm = m;
                append_message(&mut self.discord.messages, m);
                assert(exists|k: int| 0 <= k < self.discord.messages@.len()
                    && self.discord.messages@[k].0@ == mm.channel_id@
                    && self.discord.messages@[k].1@.last() == mm);
                Command::Nothing
            },
            AppEvent::MessageUpdate(m) => {
                let ghost mm = m;
                if let Some(k) = thread_position(&self.discord.messages, &m.channel_id) {
                    if let Some(p) = message_position(&self.discord.messages[k].1, &m.id) {
                        let ghost before = self.discord.messages@;
                        let (cid, list) = self.discord.messages.remove(k);
                        let mut list = list;
                        list.set(p, m);
                        self.discord.messages.insert(k, (cid, list));
                        assert(forall|j: int| 0 <= j < before.len() && j != k ==> self.discord.messages@[j] == before[j]);
                        assert(self.discord.messages@[k as int].1@ == before[k as int].1@.update(p as int, mm));
                        assert(forall|j: int| 0 <= j < before.len() ==> self.discord.messages@[j].0 == before[j].0);
                        assert forall|row2: int, pos2: int|
                            0 <= row2 < before.len() && before[row2].0@ == mm.channel_id@
                            && 0 <= pos2 < before[row2].1@.len() && before[row2].1@[pos2].id@ == mm.id@
                            && (forall|q: int| 0 <= q < pos2 ==> (#[trigger] before[row2].1@[q]).id@ != mm.id@)
                            implies self.discord.messages@[row2].1@ == before[row2].1@.update(pos2, mm) by {
                            if row2 != k {
                                if row2 < k {
                                    assert(before[row2].0@ != before[k as int].0@);
                                } else {
                                    assert(before[k as int].0@ != before[row2].0@);
                                }
                            }
                            if pos2 < p {
                                assert(before[k as int].1@[pos2].id@ != mm.id@);
                            } else if pos2 > p {
                                assert(before[row2].1@[p as int].id@ != mm.id@);
                            }
                        }
                    }
                }
                Command::Nothing
            },
            AppEvent::MessageDelete { id, channel_id } => {
                if let Some(k) = thread_position(&self.discord.messages, &channel_id) {
                    let ghost before = self.discord.messages@;
                    let (cid, list) = self.discord.messages.remove(k);
                    let kept = drop_message(list, &id);
                    self.discord.messages.insert(k, (cid, kept));
                    assert(forall|j: int| 0 <= j < before.len() && j != k ==> self.discord.messages@[j] == before[j]);
                    assert(forall|j: int| 0 <= j < before.len() ==> self.discord.messages@[j].0 == before[j].0);
                }
                Command::Nothing
            },
            AppEvent::MessagesLoaded { channel_id, messages } => {
                set_thread(&mut self.discord.messages, channel_id, messages);
                Command::Nothing
            },
            AppEvent::MessageSent(m) => Command::LoadMessages(m.channel_id),
            AppEvent::KeyPress(key) => self.handle_key_press(key),
            AppEvent::Input(c) => {
                if matches!(self.ui.input_mode, InputMode::Editing) {
                    push_char(&mut self.ui.input_buffer, c);
                }
                Command::Nothing
            },
            AppEvent::Tick => Command::Nothing,
            AppEvent::Quit => Command::Nothing,
        }
    }
}

impl Default for AppState {
    /// The same empty state as `new`.
    fn default() -> (r: AppState)
        ensures
            r.wf(),
            r.discord.channels@.len() == 0,
            r.ui.selected_channel is None,
            !r.discord.connected,
    {
        AppState::new()
    }
}

} // verus!
