//! OneBot v11 messages: what the protocol end sends, as events, and which
//! request a reply answers.

use vstd::prelude::*;

use crate::decimal::{decimal, i64_to_string};
use crate::json::{item_models, Json, JsonModel};
use crate::text::{chars_of, str_eq};

verus! {

/// Connection settings.
#[derive(Debug, Clone)]
pub struct Config {
    /// Forward-WS endpoint of the OneBot implementation, e.g.
    /// `ws://127.0.0.1:3001`.
    pub ws_url: String,
    /// `access_token`; appended to `ws_url` as a query parameter. Empty = no
    /// auth.
    pub access_token: String,
}

/// One chat target: friend or group.
#[derive(Debug, Clone)]
pub struct Peer {
    /// `user_id` for friends, `group_id` for groups.
    pub id: i64,
    /// Friend: non-empty `remark`, else `nickname`; group: `group_name`.
    pub name: String,
    pub is_group: bool,
}

/// What a [`Peer`] says.
#[verifier::ext_equal]
pub struct PeerModel {
    pub id: i64,
    pub name: Seq<char>,
    pub is_group: bool,
}

impl View for Peer {
    type V = PeerModel;

    open spec fn view(&self) -> PeerModel {
        PeerModel { id: self.id, name: self.name@, is_group: self.is_group }
    }
}

/// What a list of peers says, in order.
pub open spec fn peer_models(peers: Seq<Peer>) -> Seq<PeerModel> {
    peers.map_values(|p: Peer| p@)
}

/// Event delivered to the UI layer.
#[derive(Debug)]
pub enum Event {
    /// Reply to the automatic `get_login_info` after (re)connecting.
    Login { nickname: String, uin: String },
    /// WS established (including after a reconnect).
    Connected,
    /// Private (`message_type == "private"`) message.
    PrivateMessage { sender_id: i64, sender_name: String, text: String, time: i64 },
    /// Group (`message_type == "group"`) message.
    GroupMessage { group_id: i64, sender_id: i64, sender_name: String, text: String, time: i64 },
    /// Merged `get_friend_list` + `get_group_list` reply, pulled automatically
    /// after each (re)connection. Friends first, groups after.
    Roster { peers: Vec<Peer> },
}

/// What an [`Event`] says.
#[verifier::ext_equal]
pub enum EventModel {
    Login { nickname: Seq<char>, uin: Seq<char> },
    Connected,
    PrivateMessage { sender_id: i64, sender_name: Seq<char>, text: Seq<char>, time: i64 },
    GroupMessage {
        group_id: i64,
        sender_id: i64,
        sender_name: Seq<char>,
        text: Seq<char>,
        time: i64,
    },
    Roster { peers: Seq<PeerModel> },
}

impl View for Event {
    type V = EventModel;

    open spec fn view(&self) -> EventModel {
        match *self {
            Event::Login { nickname, uin } => EventModel::Login {
                nickname: nickname@,
                uin: uin@,
            },
            Event::Connected => EventModel::Connected,
            Event::PrivateMessage { sender_id, sender_name, text, time } =>
                EventModel::PrivateMessage {
                sender_id,
                sender_name: sender_name@,
                text: text@,
                time,
            },
            Event::GroupMessage { group_id, sender_id, sender_name, text, time } =>
                EventModel::GroupMessage {
                group_id,
                sender_id,
                sender_name: sender_name@,
                text: text@,
                time,
            },
            Event::Roster { peers } => EventModel::Roster { peers: peer_models(peers@) },
        }
    }
}

/// What an optional event says.
pub open spec fn event_model(event: Option<Event>) -> Option<EventModel> {
    match event {
        Some(e) => Some(e@),
        None => None,
    }
}

/// What an optional string says.
pub open spec fn text_model(text: Option<String>) -> Option<Seq<char>> {
    match text {
        Some(s) => Some(s@),
        None => None,
    }
}

/// What an optional list of peers says.
pub open spec fn roster_model(peers: Option<Vec<Peer>>) -> Option<Seq<PeerModel>> {
    match peers {
        Some(list) => Some(peer_models(list@)),
        None => None,
    }
}

// ---- the connection URL ----

/// The URL with the access token as a query parameter: after `&` when the URL
/// has a query already, after `?` when it has none.
pub open spec fn authed(ws_url: Seq<char>, access_token: Seq<char>) -> Seq<char> {
    if access_token.len() == 0 {
        ws_url
    } else {
        ws_url + (if ws_url.contains('?') {
            seq!['&']
        } else {
            seq!['?']
        }) + "access_token="@ + access_token
    }
}

/// Append `?access_token=` to the configured URL (empty token = untouched).
pub fn authed_url(config: &Config) -> (url: String)
    ensures
        url@ == authed(config.ws_url@, config.access_token@),
{
    if config.access_token.as_str().is_empty() {
        return config.ws_url.clone();
    }
    let chars = chars_of(config.ws_url.as_str());
    let mut query = false;
    for i in 0..chars.len()
        invariant
            chars@ == config.ws_url@,
            query == chars@.take(i as int).contains('?'),
    {
        proof {
            let before = chars@.take(i as int);
            let after = chars@.take(i + 1);
            assert(after[i as int] == chars@[i as int]);
            if before.contains('?') {
                let j = choose|j: int| 0 <= j < before.len() && before[j] == '?';
                assert(after[j] == '?');
            }
            if after.contains('?') && chars@[i as int] != '?' {
                let j = choose|j: int| 0 <= j < after.len() && after[j] == '?';
                assert(before[j] == '?');
            }
        }
        if chars[i] == '?' {
            query = true;
        }
    }
    assert(chars@.take(chars@.len() as int) =~= chars@);
    let mut url = config.ws_url.clone();
    url.push(
        if query {
            '&'
        } else {
            '?'
        },
    );
    url.append("access_token=");
    url.append(config.access_token.as_str());
    assert(url@ =~= authed(config.ws_url@, config.access_token@));
    url
}

// ---- events ----

/// The text that one message segment adds: only `text` segments do.
pub open spec fn segment_text(segment: JsonModel) -> Seq<char> {
    if segment.field("type"@).text() == Some("text"@) {
        segment.field("data"@).field("text"@).text_or_empty()
    } else {
        Seq::empty()
    }
}

/// The texts of the segments, one after the other.
pub open spec fn segments_text(segments: Seq<JsonModel>) -> Seq<char>
    decreases segments.len(),
{
    if segments.len() == 0 {
        Seq::empty()
    } else {
        segments_text(segments.drop_last()) + segment_text(segments.last())
    }
}

/// The text of a `message` field: a plain string, or its text segments
/// joined; empty for anything else.
pub open spec fn message_text_of(m: JsonModel) -> Seq<char> {
    match m {
        JsonModel::Text(s) => s,
        JsonModel::Array(segments) => segments_text(segments),
        _ => Seq::empty(),
    }
}

/// Flatten a OneBot `message` field: plain string, or segments joined by
/// their `text` parts (non-text segments, such as images, are dropped).
pub fn message_text(m: &Json) -> (out: String)
    ensures
        out@ == message_text_of(m@),
{
    match m {
        Json::Text(s) => s.clone(),
        Json::Array(segments) => {
            let ghost models = item_models(segments@);
            let mut out = String::new();
            for i in 0..segments.len()
                invariant
                    models == item_models(segments@),
                    models.len() == segments@.len(),
                    out@ == segments_text(models.take(i as int)),
            {
                let segment = &segments[i];
                proof {
                    assert(models[i as int] == segment@);
                    assert(models.take(i + 1).drop_last() =~= models.take(i as int));
                    assert(models.take(i + 1).last() == models[i as int]);
                }
                if segment.field("type").is_text("text") {
                    out.append(segment.field("data").field("text").text_or_empty());
                }
                assert(out@ =~= segments_text(models.take(i + 1)));
            }
            assert(models.take(models.len() as int) =~= models);
            out
        },
        _ => String::new(),
    }
}

/// The name a sender shows: a group member's card, or the nickname when there
/// is no card or an empty one. `None` when neither can be read.
pub open spec fn sender_name_of(sender: JsonModel) -> Option<Seq<char>> {
    let card = sender.field("card"@).text_or_empty();
    if card.len() == 0 {
        sender.field("nickname"@).text()
    } else {
        Some(card)
    }
}

/// The text of the `message` field of an event; `None` when the field is
/// missing or neither a string nor a list of segments.
pub open spec fn body_of(m: JsonModel) -> Option<Seq<char>> {
    if m is Text || m is Array {
        Some(message_text_of(m))
    } else {
        None
    }
}

/// The event that an event frame stands for. `None` when it is no message of
/// type `private` or `group`, and when a field that it needs cannot be read,
/// missing or of another type: the sender's id or name, the message, the time,
/// or the group of a group message.
pub open spec fn event_of(v: JsonModel) -> Option<EventModel> {
    let sender = v.field("sender"@);
    if v.field("post_type"@).text() != Some("message"@) {
        None
    } else {
        match (
            sender.field("user_id"@).integer(),
            sender_name_of(sender),
            body_of(v.field("message"@)),
            v.field("time"@).integer(),
        ) {
            (Some(sender_id), Some(sender_name), Some(text), Some(time)) => if v.field(
                "message_type"@,
            ).text() == Some("private"@) {
                Some(EventModel::PrivateMessage { sender_id, sender_name, text, time })
            } else if v.field("message_type"@).text() == Some("group"@) {
                match v.field("group_id"@).integer() {
                    Some(group_id) => Some(
                        EventModel::GroupMessage { group_id, sender_id, sender_name, text, time },
                    ),
                    None => None,
                }
            } else {
                None
            },
            _ => None,
        }
    }
}

/// Read the name a sender shows. Group members show their card; fall back to
/// nickname when empty.
fn sender_name(sender: &Json) -> (out: Option<&str>)
    ensures
        match out {
            Some(name) => sender_name_of(sender@) == Some(name@),
            None => sender_name_of(sender@) is None,
        },
{
    let card = sender.field("card").text_or_empty();
    if card.is_empty() {
        sender.field("nickname").as_str()
    } else {
        Some(card)
    }
}

/// Read the text of an event's `message` field.
fn read_body(m: &Json) -> (out: Option<String>)
    ensures
        text_model(out) == body_of(m@),
{
    match m {
        Json::Text(_) => Some(message_text(m)),
        Json::Array(_) => Some(message_text(m)),
        _ => None,
    }
}

/// Parse an event frame; `None` for non-message events and unreadable fields.
pub fn parse_event(v: &Json) -> (out: Option<Event>)
    ensures
        event_model(out) == event_of(v@),
{
    proof {
        reveal_strlit("private");
        reveal_strlit("group");
        assert("private"@.len() != "group"@.len());
    }
    if !v.field("post_type").is_text("message") {
        return None;
    }
    let sender = v.field("sender");
    match (
        sender.field("user_id").as_i64(),
        sender_name(sender),
        read_body(v.field("message")),
        v.field("time").as_i64(),
    ) {
        (Some(sender_id), Some(name), Some(text), Some(time)) => {
            let sender_name = name.to_owned();
            let kind = v.field("message_type");
            if kind.is_text("private") {
                Some(Event::PrivateMessage { sender_id, sender_name, text, time })
            } else if kind.is_text("group") {
                match v.field("group_id").as_i64() {
                    Some(group_id) => Some(
                        Event::GroupMessage { group_id, sender_id, sender_name, text, time },
                    ),
                    None => None,
                }
            } else {
                None
            }
        },
        _ => None,
    }
}

// ---- the roster ----

/// The peer that a roster entry stands for; `None` when its id is missing.
pub open spec fn peer_of(e: JsonModel, is_group: bool) -> Option<PeerModel> {
    let id = if is_group {
        e.field("group_id"@).integer()
    } else {
        e.field("user_id"@).integer()
    };
    let remark = e.field("remark"@).text_or_empty();
    let name = if is_group {
        e.field("group_name"@).text_or_empty()
    } else if remark.len() == 0 {
        e.field("nickname"@).text_or_empty()
    } else {
        remark
    };
    match id {
        Some(id) => Some(PeerModel { id, name, is_group }),
        None => None,
    }
}

/// The peers of a list reply: the entries that have an id, in order.
pub open spec fn peers_of(entries: Seq<JsonModel>, is_group: bool) -> Seq<PeerModel>
    decreases entries.len(),
{
    if entries.len() == 0 {
        Seq::empty()
    } else {
        let before = peers_of(entries.drop_last(), is_group);
        match peer_of(entries.last(), is_group) {
            Some(peer) => before.push(peer),
            None => before,
        }
    }
}

/// Parse one roster entry; `None` when its id is missing. Friend name prefers
/// a non-empty `remark`; group name is `group_name` (kept even when empty: the
/// peer still exists and is addressable).
pub fn parse_peer(e: &Json, is_group: bool) -> (out: Option<Peer>)
    ensures
        match out {
            Some(peer) => peer_of(e@, is_group) == Some(peer@),
            None => peer_of(e@, is_group) is None,
        },
{
    let id = if is_group {
        e.field("group_id").as_i64()
    } else {
        e.field("user_id").as_i64()
    };
    match id {
        Some(id) => {
            let name = if is_group {
                e.field("group_name").text_or_empty()
            } else {
                let remark = e.field("remark").text_or_empty();
                if remark.is_empty() {
                    e.field("nickname").text_or_empty()
                } else {
                    remark
                }
            };
            Some(Peer { id, name: name.to_owned(), is_group })
        },
        None => None,
    }
}

/// The peers of one list reply.
fn parse_peers(entries: &Vec<Json>, is_group: bool) -> (out: Vec<Peer>)
    ensures
        peer_models(out@) == peers_of(item_models(entries@), is_group),
{
    let ghost models = item_models(entries@);
    let mut out: Vec<Peer> = Vec::new();
    for i in 0..entries.len()
        invariant
            models == item_models(entries@),
            models.len() == entries@.len(),
            peer_models(out@) == peers_of(models.take(i as int), is_group),
    {
        proof {
            assert(models[i as int] == entries@[i as int]@);
            assert(models.take(i + 1).drop_last() =~= models.take(i as int));
            assert(models.take(i + 1).last() == models[i as int]);
        }
        let ghost before = out@;
        match parse_peer(&entries[i], is_group) {
            Some(peer) => {
                out.push(peer);
                assert(peer_models(out@) =~= peer_models(before).push(peer@));
            },
            None => {},
        }
    }
    assert(models.take(models.len() as int) =~= models);
    out
}

// ---- replies ----

/// Reply slots tracked per connection: which echo belongs to which request,
/// plus the roster halves parsed so far. [`Event::Roster`] fires once both the
/// friends and groups replies arrive; a half that never answers leaves the
/// slot pending until the next reconnect re-requests it.
#[derive(Debug)]
pub struct ReplySlots {
    pub login: Option<String>,
    pub friends: Option<String>,
    pub groups: Option<String>,
    pub roster_friends: Option<Vec<Peer>>,
    pub roster_groups: Option<Vec<Peer>>,
}

/// What [`ReplySlots`] hold.
#[verifier::ext_equal]
pub struct SlotsModel {
    pub login: Option<Seq<char>>,
    pub friends: Option<Seq<char>>,
    pub groups: Option<Seq<char>>,
    pub roster_friends: Option<Seq<PeerModel>>,
    pub roster_groups: Option<Seq<PeerModel>>,
}

impl View for ReplySlots {
    type V = SlotsModel;

    open spec fn view(&self) -> SlotsModel {
        SlotsModel {
            login: text_model(self.login),
            friends: text_model(self.friends),
            groups: text_model(self.groups),
            roster_friends: roster_model(self.roster_friends),
            roster_groups: roster_model(self.roster_groups),
        }
    }
}

impl SlotsModel {
    /// Nothing asked, nothing received.
    pub open spec fn empty() -> SlotsModel {
        SlotsModel {
            login: None,
            friends: None,
            groups: None,
            roster_friends: None,
            roster_groups: None,
        }
    }

    /// Whether some request still waits for this echo.
    pub open spec fn awaits(self, echo: Seq<char>) -> bool {
        self.login == Some(echo) || self.friends == Some(echo) || self.groups == Some(echo)
    }

    /// Between replies at most one half of the roster waits for the other.
    pub open spec fn half_open(self) -> bool {
        self.roster_friends is None || self.roster_groups is None
    }

    /// No two requests wait for one echo.
    pub open spec fn distinct(self) -> bool {
        &&& self.login is Some ==> self.login != self.friends && self.login != self.groups
        &&& self.friends is Some ==> self.friends != self.groups
    }
}

impl Default for ReplySlots {
    fn default() -> (slots: ReplySlots)
        ensures
            slots@ == SlotsModel::empty(),
    {
        ReplySlots {
            login: None,
            friends: None,
            groups: None,
            roster_friends: None,
            roster_groups: None,
        }
    }
}

/// The login event that the data of a `get_login_info` reply stands for.
pub open spec fn login_of(data: JsonModel) -> Option<EventModel> {
    match (data.field("nickname"@).text(), data.field("user_id"@).integer()) {
        (Some(nickname), Some(id)) => Some(
            EventModel::Login { nickname, uin: decimal(id as int) },
        ),
        _ => None,
    }
}

/// Merge the roster halves once both are in: friends first, then groups.
pub open spec fn merged(slots: SlotsModel) -> (Option<EventModel>, SlotsModel) {
    match (slots.roster_friends, slots.roster_groups) {
        (Some(friends), Some(groups)) => (
            Some(EventModel::Roster { peers: friends + groups }),
            SlotsModel { roster_friends: None, roster_groups: None, ..slots },
        ),
        _ => (None, slots),
    }
}

/// What a reply frame leads to: the event it completes, if any, and the slots
/// after it.
///
/// A failed reply, and one whose echo nobody waits for, changes nothing. A
/// matched slot is consumed even when the data turn out unreadable.
pub open spec fn reply_of(v: JsonModel, slots: SlotsModel) -> (Option<EventModel>, SlotsModel) {
    let data = v.field("data"@);
    if failure_of(v) is Some {
        (None, slots)
    } else {
        match v.field("echo"@).text() {
            None => (None, slots),
            Some(echo) => if slots.login == Some(echo) {
                (login_of(data), SlotsModel { login: None, ..slots })
            } else if slots.friends == Some(echo) {
                match data.items() {
                    Some(entries) => merged(
                        SlotsModel {
                            friends: None,
                            roster_friends: Some(peers_of(entries, false)),
                            ..slots
                        },
                    ),
                    None => (None, SlotsModel { friends: None, ..slots }),
                }
            } else if slots.groups == Some(echo) {
                match data.items() {
                    Some(entries) => merged(
                        SlotsModel {
                            groups: None,
                            roster_groups: Some(peers_of(entries, true)),
                            ..slots
                        },
                    ),
                    None => (None, SlotsModel { groups: None, ..slots }),
                }
            } else {
                (None, slots)
            },
        }
    }
}

/// What a failed reply says: its `retcode`, -1 when that is missing or no
/// integer, and its `wording`, empty when that is missing or no text. `None`
/// for a reply whose `retcode` is 0.
pub open spec fn failure_of(v: JsonModel) -> Option<(i64, Seq<char>)> {
    let retcode = match v.field("retcode"@).integer() {
        Some(n) => n,
        None => -1i64,
    };
    if retcode != 0 {
        Some((retcode, v.field("wording"@).text_or_empty()))
    } else {
        None
    }
}

/// What a failure that was found says.
pub open spec fn failure_model(failure: Option<(i64, String)>) -> Option<(i64, Seq<char>)> {
    match failure {
        Some((retcode, wording)) => Some((retcode, wording@)),
        None => None,
    }
}

/// What to log of a reply frame before it is dropped: the `retcode` and the
/// `wording` of a failed one.
pub fn reply_failure(v: &Json) -> (out: Option<(i64, String)>)
    ensures
        failure_model(out) == failure_of(v@),
{
    let retcode: i64 = match v.field("retcode").as_i64() {
        Some(n) => n,
        None => -1,
    };
    if retcode != 0 {
        Some((retcode, v.field("wording").text_or_empty().to_owned()))
    } else {
        None
    }
}

/// Whether a slot waits for this echo.
fn slot_is(slot: &Option<String>, echo: &str) -> (out: bool)
    ensures
        out == (text_model(*slot) == Some(echo@)),
{
    match slot {
        Some(s) => str_eq(s.as_str(), echo),
        None => false,
    }
}

/// Emit one merged roster if both halves are in; friends first.
fn merge_roster(slots: &mut ReplySlots) -> (out: Option<Event>)
    ensures
        (event_model(out), final(slots)@) == merged(old(slots)@),
{
    match (slots.roster_friends.take(), slots.roster_groups.take()) {
        (Some(mut peers), Some(mut groups)) => {
            let ghost friends = peers@;
            let ghost rest = groups@;
            peers.append(&mut groups);
            assert(peer_models(peers@) =~= peer_models(friends) + peer_models(rest));
            Some(Event::Roster { peers })
        },
        (friends, groups) => {
            slots.roster_friends = friends;
            slots.roster_groups = groups;
            None
        },
    }
}

/// Parse an API reply frame. `retcode != 0`: dropped, with [`reply_failure`]
/// to log; echo matching a [`ReplySlots`] slot: [`Event::Login`], or [`Event::Roster`] once both
/// roster halves have arrived; anything else: `None`.
pub fn parse_reply(v: &Json, slots: &mut ReplySlots) -> (out: Option<Event>)
    ensures
        (event_model(out), final(slots)@) == reply_of(v@, old(slots)@),
{
    if reply_failure(v).is_some() {
        return None;
    }
    let echo = match v.field("echo").as_str() {
        Some(s) => s,
        None => {
            return None;
        },
    };
    let data = v.field("data");
    if slot_is(&slots.login, echo) {
        slots.login = None;
        match (data.field("nickname").as_str(), data.field("user_id").as_i64()) {
            (Some(nickname), Some(id)) => Some(
                Event::Login { nickname: nickname.to_owned(), uin: i64_to_string(id) },
            ),
            _ => None,
        }
    } else if slot_is(&slots.friends, echo) {
        slots.friends = None;
        match data.as_array() {
            Some(entries) => {
                slots.roster_friends = Some(parse_peers(entries, false));
                merge_roster(slots)
            },
            None => None,
        }
    } else if slot_is(&slots.groups, echo) {
        slots.groups = None;
        match data.as_array() {
            Some(entries) => {
                slots.roster_groups = Some(parse_peers(entries, true));
                merge_roster(slots)
            },
            None => None,
        }
    } else {
        None
    }
}

} // verus!
