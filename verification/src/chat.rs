//! What the chat window shows: avatar letters and colours, clock times,
//! message rows and their grouping, the sidebar, and where a draft goes.
//! Clocks and widgets stay with the caller.

use vstd::prelude::*;

use crate::convo::{HasRowMeta, GROUP_GAP_MIN};
use crate::decimal::{decimal, i64_to_string, i64_value, parse_i64};
use crate::onebot::{peer_models, Event, EventModel, Peer, PeerModel};
use crate::text::{blank, char_code, chars_of, is_blank, str_eq};
use crate::transport::{Action, ActionModel};

verus! {

// ---- avatars ----

/// The uppercase mapping of a character.
pub uninterp spec fn uppercase_of(c: char) -> Seq<char>;

/// `char::to_uppercase`, collected: the uppercase mapping of the character as
/// one or more characters.
#[verifier::external_body]
fn uppercase(c: char) -> (out: String)
    ensures
        out@ == uppercase_of(c),
        out@.len() >= 1,
{
    c.to_uppercase().collect()
}

/// The character an avatar letter is made from: the first of the name.
pub open spec fn first_char(name: Seq<char>) -> char {
    if name.len() == 0 {
        '?'
    } else {
        name[0]
    }
}

/// The first character of a name; `?` for an empty one.
pub fn first_of(name: &str) -> (c: char)
    ensures
        c == first_char(name@),
{
    let chars = chars_of(name);
    if chars.len() == 0 {
        '?'
    } else {
        chars[0]
    }
}

/// Avatar letter: first char uppercased.
pub fn initial(name: &str) -> (out: String)
    ensures
        out@ == uppercase_of(first_char(name@)),
{
    uppercase(first_of(name))
}

/// The sum of the code points of a text.
pub open spec fn code_sum(text: Seq<char>) -> int
    decreases text.len(),
{
    if text.len() == 0 {
        0
    } else {
        code_sum(text.drop_last()) + text.last() as int
    }
}

/// Stable avatar palette index (0..7) for a name.
pub fn color_of(name: &str) -> (color: i32)
    ensures
        color == code_sum(name@) % 8,
        0 <= color < 8,
{
    let chars = chars_of(name);
    let mut sum: u32 = 0;
    for i in 0..chars.len()
        invariant
            chars@ == name@,
            sum == code_sum(name@.take(i as int)) % 8,
            sum < 8,
    {
        let code: u32 = char_code(chars[i]);
        proof {
            assert(name@.take(i + 1).drop_last() =~= name@.take(i as int));
            assert(code_sum(name@.take(i + 1)) == code_sum(name@.take(i as int)) + code);
        }
        sum = (sum + code % 8) % 8;
    }
    assert(name@.take(name@.len() as int) =~= name@);
    sum as i32
}

// ---- the clock ----

/// The quotient, rounded towards zero.
pub open spec fn quotient(a: int, b: int) -> int {
    if a >= 0 {
        a / b
    } else {
        -((-a) / b)
    }
}

/// What the rounded quotient leaves; it has the sign of `a`.
pub open spec fn remainder(a: int, b: int) -> int {
    if a >= 0 {
        a % b
    } else {
        -((-a) % b)
    }
}

/// Minutes since midnight (UTC), given the seconds since the Unix epoch;
/// granularity, one minute.
pub fn now_minutes(unix_secs: u64) -> (minute: i64)
    ensures
        minute == (unix_secs / 60) % 1440,
        minute == minute_of_day(unix_secs as int),
        0 <= minute < 1440,
{
    (unix_secs / 60 % 1440) as i64
}

/// The minute since the Unix epoch in which a time stamp falls; below 0 before
/// the epoch.
pub open spec fn epoch_minute(unix: int) -> int {
    unix / 60
}

/// The minute of the day (UTC) of a message's time stamp.
pub open spec fn minute_of_day(unix: int) -> int {
    epoch_minute(unix) % 1440
}

/// The minute since the Unix epoch in which a time stamp falls.
fn stamp_minute(unix: i64) -> (minute: i64)
    ensures
        minute == epoch_minute(unix as int),
{
    let minute: i64 = unix / 60;
    if unix % 60 < 0 {
        minute - 1
    } else {
        minute
    }
}

/// The minute of the day (UTC) of a message's time stamp, before the epoch
/// too.
pub fn incoming_minute(unix: i64) -> (minute: i64)
    ensures
        minute == minute_of_day(unix as int),
        0 <= minute < 1440,
{
    let minute: i64 = stamp_minute(unix) % 1440;
    if minute < 0 {
        minute + 1440
    } else {
        minute
    }
}

/// A number in two columns, filled up with a zero.
pub open spec fn two_columns(n: int) -> Seq<char> {
    if 0 <= n < 10 {
        seq!['0'] + decimal(n)
    } else {
        decimal(n)
    }
}

/// Minutes since midnight as `HH:MM`.
pub open spec fn clock(min: int) -> Seq<char> {
    two_columns(remainder(quotient(min, 60), 24)) + seq![':'] + two_columns(remainder(min, 60))
}

fn push_two_columns(out: &mut String, n: i64)
    ensures
        final(out)@ == old(out)@ + two_columns(n as int),
{
    if 0 <= n && n < 10 {
        out.push('0');
    }
    out.append(i64_to_string(n).as_str());
    assert(out@ =~= old(out)@ + two_columns(n as int));
}

/// Format minutes since midnight as "HH:MM".
pub fn fmt_time(min: i64) -> (out: String)
    ensures
        out@ == clock(min as int),
{
    let mut out = String::new();
    push_two_columns(&mut out, min / 60 % 24);
    out.push(':');
    push_two_columns(&mut out, min % 60);
    assert(out@ =~= clock(min as int));
    out
}

// ---- message rows ----

/// One row of the transcript, ready to display. The picture of a sticker row
/// is added by the caller.
#[derive(Debug)]
pub struct MessageRow {
    pub author: String,
    /// Avatar letter.
    pub initial: String,
    /// Stable row identity: assigned once and never re-assigned.
    pub uid: i32,
    pub body: String,
    /// Clock time, `HH:MM`.
    pub time: String,
    /// Avatar palette index.
    pub color: i32,
    /// Whether the row joins the group of the row before it.
    pub grouped: bool,
}

/// What a [`MessageRow`] shows.
#[verifier::ext_equal]
pub struct RowModel {
    pub author: Seq<char>,
    pub initial: Seq<char>,
    pub uid: i32,
    pub body: Seq<char>,
    pub time: Seq<char>,
    pub color: int,
    pub grouped: bool,
}

impl View for MessageRow {
    type V = RowModel;

    open spec fn view(&self) -> RowModel {
        RowModel {
            author: self.author@,
            initial: self.initial@,
            uid: self.uid,
            body: self.body@,
            time: self.time@,
            color: self.color as int,
            grouped: self.grouped,
        }
    }
}

impl Clone for MessageRow {
    fn clone(&self) -> (row: MessageRow)
        ensures
            row@ == self@,
    {
        MessageRow {
            author: self.author.clone(),
            initial: self.initial.clone(),
            uid: self.uid,
            body: self.body.clone(),
            time: self.time.clone(),
            color: self.color,
            grouped: self.grouped,
        }
    }
}

impl HasRowMeta for MessageRow {
    open spec fn regrouped(before: MessageRow, after: MessageRow, grouped: bool) -> bool {
        after == (MessageRow { grouped, ..before })
    }

    fn set_grouped(&mut self, grouped: bool) {
        self.grouped = grouped;
    }
}

/// The row of a message.
pub open spec fn row_of(
    author: Seq<char>,
    body: Seq<char>,
    minute: int,
    uid: i32,
    grouped: bool,
) -> RowModel {
    RowModel {
        author,
        initial: uppercase_of(first_char(author)),
        uid,
        body,
        time: clock(minute),
        color: code_sum(author) % 8,
        grouped,
    }
}

/// The row identity after this one; the count wraps around.
pub open spec fn uid_after(uid: i32) -> i32 {
    if uid == i32::MAX {
        i32::MIN
    } else {
        (uid + 1) as i32
    }
}

/// Minutes of a day.
pub const DAY_MIN: i64 = 1440;

/// Minutes from one minute of the day to another on the clock, which starts
/// over at midnight.
pub open spec fn clock_gap(from: int, to: int) -> int {
    if from <= to {
        to - from
    } else {
        to - from + DAY_MIN
    }
}

/// What grouping goes by of the last row: its author, its minute of the day
/// and, when it came with a time stamp, the minute since the epoch.
#[verifier::ext_equal]
pub struct LastModel {
    pub author: Seq<char>,
    pub minute: int,
    pub stamp: Option<int>,
}

/// Minutes from the last row to one at `minute`: those between the two time
/// stamps, or on the clock where only minutes of the day are known.
pub open spec fn gap_since(last: LastModel, minute: int, stamp: Option<int>) -> int {
    match (last.stamp, stamp) {
        (Some(from), Some(to)) => to - from,
        _ => clock_gap(last.minute, minute),
    }
}

/// Whether a row by `author` at `minute` joins the group of the row before it:
/// same author, and a gap of at most five minutes.
pub open spec fn merges(
    last: Option<LastModel>,
    author: Seq<char>,
    minute: int,
    stamp: Option<int>,
) -> bool {
    last matches Some(last) && last.author == author && 0 <= gap_since(last, minute, stamp)
        <= GROUP_GAP_MIN
}

/// What grouping goes by of the last row.
#[derive(Debug)]
struct LastRow {
    author: String,
    minute: i64,
    stamp: Option<i64>,
}

/// What the shared transcript remembers of its rows: the author and time of
/// the last one, for grouping, and the identity of the next. Text sends,
/// sticker sends and incoming messages share it, so that their rows merge
/// consistently.
#[derive(Debug)]
pub struct Transcript {
    last: Option<LastRow>,
    next_uid: i32,
}

spec fn stamp_model(stamp: Option<i64>) -> Option<int> {
    match stamp {
        Some(minute) => Some(minute as int),
        None => None,
    }
}

impl Transcript {
    /// What grouping goes by of the last row.
    pub closed spec fn last(self) -> Option<LastModel> {
        match self.last {
            Some(row) => Some(
                LastModel {
                    author: row.author@,
                    minute: row.minute as int,
                    stamp: stamp_model(row.stamp),
                },
            ),
            None => None,
        }
    }

    /// The identity that the next row gets.
    pub closed spec fn uid(self) -> i32 {
        self.next_uid
    }

    /// Minutes are those of a day, and time stamps can be compared.
    pub open spec fn wf(self) -> bool {
        self.last() matches Some(last) ==> {
            &&& 0 <= last.minute < 1440
            &&& last.stamp matches Some(stamp) ==> epoch_minute(i64::MIN as int) <= stamp
                <= epoch_minute(i64::MAX as int)
        }
    }

    /// Whether `after` is the transcript once a row by `author` at `minute` is
    /// added, under a time stamp if it came with one.
    pub open spec fn added(
        self,
        after: Transcript,
        author: Seq<char>,
        minute: int,
        stamp: Option<int>,
    ) -> bool {
        &&& after.wf()
        &&& after.last() == Some(LastModel { author, minute, stamp })
        &&& after.uid() == uid_after(self.uid())
    }

    /// The row that a message becomes.
    pub open spec fn next_row(
        self,
        author: Seq<char>,
        body: Seq<char>,
        minute: int,
        stamp: Option<int>,
    ) -> RowModel {
        row_of(
            author,
            body,
            minute,
            self.uid(),
            merges(self.last(), author, minute, stamp),
        )
    }

    /// Whether `after` is the transcript once a message by `author` with the
    /// time stamp `unix` came in.
    pub open spec fn received(self, after: Transcript, author: Seq<char>, unix: int) -> bool {
        self.added(after, author, minute_of_day(unix), Some(epoch_minute(unix)))
    }

    /// The row that an incoming message becomes.
    pub open spec fn incoming_row(
        self,
        author: Seq<char>,
        body: Seq<char>,
        unix: int,
    ) -> RowModel {
        self.next_row(author, body, minute_of_day(unix), Some(epoch_minute(unix)))
    }

    pub fn new() -> (out: Transcript)
        ensures
            out.wf(),
            out.last() is None,
            out.uid() == 0,
    {
        Transcript { last: None, next_uid: 0 }
    }

    /// Stable row identity: each call gives the next one.
    pub fn next_uid(&mut self) -> (uid: i32)
        ensures
            uid == old(self).uid(),
            final(self).uid() == uid_after(uid),
            final(self).last() == old(self).last(),
    {
        let uid: i32 = self.next_uid;
        self.next_uid = if uid == i32::MAX {
            i32::MIN
        } else {
            uid + 1
        };
        uid
    }

    /// Append a row: whether it joins the group of the last one, and what the
    /// next one goes by.
    fn append(&mut self, author: &str, body: &str, minute: i64, stamp: Option<i64>) -> (row:
        MessageRow)
        requires
            old(self).wf(),
            0 <= minute < 1440,
            stamp matches Some(minute) ==> epoch_minute(i64::MIN as int) <= minute
                <= epoch_minute(i64::MAX as int),
        ensures
            row@ == old(self).next_row(author@, body@, minute as int, stamp_model(stamp)),
            old(self).added(*final(self), author@, minute as int, stamp_model(stamp)),
    {
        let grouped = match &self.last {
            Some(last) => if str_eq(last.author.as_str(), author) {
                let gap: i64 = match (last.stamp, stamp) {
                    (Some(from), Some(to)) => to - from,
                    _ => if last.minute <= minute {
                        minute - last.minute
                    } else {
                        minute - last.minute + DAY_MIN
                    },
                };
                0 <= gap && gap <= GROUP_GAP_MIN
            } else {
                false
            },
            None => false,
        };
        let uid: i32 = self.next_uid();
        self.last = Some(LastRow { author: author.to_owned(), minute, stamp });
        MessageRow {
            author: author.to_owned(),
            initial: initial(author),
            uid,
            body: body.to_owned(),
            time: fmt_time(minute),
            color: color_of(author),
            grouped,
        }
    }

    /// Add a row at a minute of the day. Group rule: same author AND gap of at
    /// most 5 minutes merges; anything else reopens the group. With only the
    /// minute of the day known the gap is the one on the clock, over midnight
    /// too.
    pub fn add(&mut self, author: &str, body: &str, minute: i64) -> (row: MessageRow)
        requires
            old(self).wf(),
            0 <= minute < 1440,
        ensures
            row@ == old(self).next_row(author@, body@, minute as int, None),
            old(self).added(*final(self), author@, minute as int, None),
    {
        self.append(author, body, minute, None)
    }

    /// Add one incoming OneBot message: same 5-minute same-author grouping
    /// rule as local sends, at the UTC minute of its time stamp. The gap of two
    /// incoming messages is the one between their time stamps.
    pub fn push_incoming(&mut self, author: &str, body: &str, unix: i64) -> (row: MessageRow)
        requires
            old(self).wf(),
        ensures
            row@ == old(self).incoming_row(author@, body@, unix as int),
            old(self).received(*final(self), author@, unix as int),
    {
        let minute: i64 = incoming_minute(unix);
        self.append(author, body, minute, Some(stamp_minute(unix)))
    }
}

// ---- the sidebar ----

/// One sidebar row: a section header, or a chat target. A row without a real
/// peer has an empty `peer_id`.
#[derive(Debug, Clone)]
pub struct Channel {
    pub name: String,
    pub header: bool,
    /// The peer's id as text.
    pub peer_id: String,
    pub is_group: bool,
}

/// What a [`Channel`] shows.
#[verifier::ext_equal]
pub struct ChannelModel {
    pub name: Seq<char>,
    pub header: bool,
    pub peer_id: Seq<char>,
    pub is_group: bool,
}

impl View for Channel {
    type V = ChannelModel;

    open spec fn view(&self) -> ChannelModel {
        ChannelModel {
            name: self.name@,
            header: self.header,
            peer_id: self.peer_id@,
            is_group: self.is_group,
        }
    }
}

/// What a list of sidebar rows shows, in order.
pub open spec fn channel_models(rows: Seq<Channel>) -> Seq<ChannelModel> {
    rows.map_values(|c: Channel| c@)
}

/// The header row of a section.
pub open spec fn header_row(label: Seq<char>) -> ChannelModel {
    ChannelModel { name: label, header: true, peer_id: Seq::empty(), is_group: false }
}

/// The row of a peer.
pub open spec fn peer_row(peer: PeerModel) -> ChannelModel {
    ChannelModel {
        name: peer.name,
        header: false,
        peer_id: decimal(peer.id as int),
        is_group: peer.is_group,
    }
}

/// The rows of the peers of one kind, in roster order.
pub open spec fn kind_rows(peers: Seq<PeerModel>, is_group: bool) -> Seq<ChannelModel>
    decreases peers.len(),
{
    if peers.len() == 0 {
        Seq::empty()
    } else if peers.last().is_group == is_group {
        kind_rows(peers.drop_last(), is_group).push(peer_row(peers.last()))
    } else {
        kind_rows(peers.drop_last(), is_group)
    }
}

/// One section: its header and the peers of its kind; nothing when there are
/// none.
pub open spec fn section(
    label: Seq<char>,
    peers: Seq<PeerModel>,
    is_group: bool,
) -> Seq<ChannelModel> {
    let rows = kind_rows(peers, is_group);
    if rows.len() == 0 {
        rows
    } else {
        seq![header_row(label)] + rows
    }
}

/// The sidebar of a roster: the friends' section, then the groups'.
pub open spec fn sidebar_of(peers: Seq<PeerModel>) -> Seq<ChannelModel> {
    section("私信"@, peers, false) + section("群聊"@, peers, true)
}

/// Add one section of the sidebar to `rows`.
fn add_section(rows: &mut Vec<Channel>, label: &str, peers: &Vec<Peer>, is_group: bool)
    ensures
        channel_models(final(rows)@) == channel_models(old(rows)@) + section(
            label@,
            peer_models(peers@),
            is_group,
        ),
{
    let ghost models = peer_models(peers@);
    let ghost before = channel_models(rows@);
    let mut found: Vec<Channel> = Vec::new();
    assert(channel_models(found@) =~= kind_rows(models.take(0), is_group));
    for i in 0..peers.len()
        invariant
            models == peer_models(peers@),
            channel_models(found@) == kind_rows(models.take(i as int), is_group),
    {
        let peer = &peers[i];
        let ghost earlier = channel_models(found@);
        proof {
            assert(models.take(i + 1).drop_last() =~= models.take(i as int));
            assert(models.take(i + 1).last() == peer@);
        }
        if peer.is_group == is_group {
            let row = Channel {
                name: peer.name.clone(),
                header: false,
                peer_id: i64_to_string(peer.id),
                is_group: peer.is_group,
            };
            let ghost model = row@;
            found.push(row);
            assert(channel_models(found@) =~= earlier.push(model));
        }
    }
    assert(models.take(models.len() as int) =~= models);
    if found.len() > 0 {
        let ghost tail = channel_models(found@);
        assert(tail.len() > 0);
        rows.push(
            Channel {
                name: label.to_owned(),
                header: true,
                peer_id: String::new(),
                is_group: false,
            },
        );
        rows.append(&mut found);
        assert(channel_models(rows@) =~= before + (seq![header_row(label@)] + tail));
    } else {
        assert(channel_models(found@).len() == 0);
        assert(channel_models(rows@) =~= before + section(label@, models, is_group));
    }
}

/// The sidebar of a roster: two segments, header row first; a segment without
/// peers is left out. Ids travel as strings.
pub fn sidebar(peers: &Vec<Peer>) -> (rows: Vec<Channel>)
    ensures
        channel_models(rows@) == sidebar_of(peer_models(peers@)),
{
    let mut rows: Vec<Channel> = Vec::new();
    add_section(&mut rows, "私信", peers, false);
    add_section(&mut rows, "群聊", peers, true);
    assert(channel_models(rows@) =~= sidebar_of(peer_models(peers@)));
    rows
}

/// The row to select first: the first that is no header; 0 when there is none.
pub fn first_selectable(rows: &Vec<Channel>) -> (at: usize)
    ensures
        at < rows@.len() ==> (!rows@[at as int].header || at == 0),
        forall|i: int| 0 <= i < at ==> (#[trigger] rows@[i]).header,
        (exists|i: int| 0 <= i < rows@.len() && !(#[trigger] rows@[i]).header) ==> at < rows@.len()
            && !rows@[at as int].header,
        (forall|i: int| 0 <= i < rows@.len() ==> (#[trigger] rows@[i]).header) ==> at == 0,
{
    for i in 0..rows.len()
        invariant
            forall|j: int| 0 <= j < i ==> (#[trigger] rows@[j]).header,
    {
        if !rows[i].header {
            return i;
        }
    }
    0
}

/// The connection label that an event sets.
pub open spec fn label_of(event: EventModel) -> Option<Seq<char>> {
    match event {
        EventModel::Connected => Some("已连接"@),
        EventModel::Login { nickname, uin } => Some("已连接 · "@ + nickname),
        _ => None,
    }
}

/// What an event changes in the window.
#[derive(Debug)]
pub enum Change {
    /// Show this connection label.
    Label(String),
    /// Append this row to the transcript.
    Row(MessageRow),
    /// Replace the sidebar and select a row of it.
    Sidebar { rows: Vec<Channel>, selected: usize },
}

impl Transcript {
    /// Whether `change` is what an event changes in the window, and `after` the
    /// transcript then.
    pub open spec fn applies(self, after: Transcript, event: EventModel, change: Change) -> bool {
        match change {
            Change::Label(text) => label_of(event) == Some(text@) && after == self,
            Change::Row(row) => match event {
                EventModel::PrivateMessage { sender_id, sender_name, text, time } => row@
                    == self.incoming_row(sender_name, text, time as int) && self.received(
                    after,
                    sender_name,
                    time as int,
                ),
                EventModel::GroupMessage { group_id, sender_id, sender_name, text, time } => row@
                    == self.incoming_row(sender_name, text, time as int) && self.received(
                    after,
                    sender_name,
                    time as int,
                ),
                _ => false,
            },
            Change::Sidebar { rows, selected } => {
                &&& event is Roster
                &&& channel_models(rows@) == sidebar_of(event->peers)
                &&& selected == if event->peers.len() == 0 {
                    0int
                } else {
                    1
                }
                &&& after == self
            },
        }
    }

    /// What an event changes in the window. Private and group messages share
    /// one transcript.
    pub fn apply(&mut self, event: Event) -> (change: Change)
        requires
            old(self).wf(),
        ensures
            final(self).wf(),
            old(self).applies(*final(self), event@, change),
            match event@ {
                EventModel::PrivateMessage { sender_id, sender_name, text, time } => {
                    &&& change matches Change::Row(row) && row@ == old(self).incoming_row(
                        sender_name,
                        text,
                        time as int,
                    )
                    &&& old(self).received(*final(self), sender_name, time as int)
                },
                EventModel::GroupMessage { group_id, sender_id, sender_name, text, time } => {
                    &&& change matches Change::Row(row) && row@ == old(self).incoming_row(
                        sender_name,
                        text,
                        time as int,
                    )
                    &&& old(self).received(*final(self), sender_name, time as int)
                },
                EventModel::Roster { peers } => {
                    &&& change matches Change::Sidebar { rows, selected } && channel_models(rows@)
                        == sidebar_of(peers) && selected == if sidebar_of(peers).len() == 0 {
                        0int
                    } else {
                        1
                    }
                    &&& *final(self) == *old(self)
                },
                _ => {
                    &&& change matches Change::Label(text) && label_of(event@) == Some(text@)
                    &&& *final(self) == *old(self)
                },
            },
    {
        match event {
            Event::Connected => Change::Label("已连接".to_owned()),
            Event::Login { nickname, uin: _ } => {
                let mut label = "已连接 · ".to_owned();
                label.append(nickname.as_str());
                Change::Label(label)
            },
            Event::PrivateMessage { sender_id: _, sender_name, text, time } => Change::Row(
                self.push_incoming(sender_name.as_str(), text.as_str(), time),
            ),
            Event::GroupMessage { group_id: _, sender_id: _, sender_name, text, time } =>
                Change::Row(self.push_incoming(sender_name.as_str(), text.as_str(), time)),
            Event::Roster { peers } => {
                let rows = sidebar(&peers);
                let selected: usize = first_selectable(&rows);
                proof {
                    lemma_sidebar_opens_with_a_header(peer_models(peers@));
                    let models = channel_models(rows@);
                    if models.len() > 0 {
                        assert(models[0].header == rows@[0].header);
                        assert(models[1].header == rows@[1].header);
                    }
                }
                Change::Sidebar { rows, selected }
            },
        }
    }
}

// ---- sending ----

/// The peer that the selected row addresses: its id, and whether it is a
/// group. Header rows and rows whose id is no number address nobody; a
/// negative selection stands for the first row.
pub open spec fn target_of(rows: Seq<ChannelModel>, selected: int) -> Option<(i64, bool)> {
    let at = if selected < 0 {
        0
    } else {
        selected
    };
    if at < rows.len() {
        match i64_value(rows[at].peer_id) {
            Some(id) => Some((id, rows[at].is_group)),
            None => None,
        }
    } else {
        None
    }
}

/// The peer that the selected row addresses.
pub fn send_target(rows: &Vec<Channel>, selected: i32) -> (out: Option<(i64, bool)>)
    ensures
        out == target_of(channel_models(rows@), selected as int),
{
    let at: usize = if selected < 0 {
        0
    } else {
        selected as usize
    };
    if at >= rows.len() {
        return None;
    }
    let row = &rows[at];
    assert(channel_models(rows@)[at as int] == row@);
    match parse_i64(row.peer_id.as_str()) {
        Some(id) => Some((id, row.is_group)),
        None => None,
    }
}

/// The message to a peer.
pub open spec fn addressed(target: (i64, bool), text: Seq<char>) -> ActionModel {
    if target.1 {
        ActionModel::SendGroup { group_id: target.0, text }
    } else {
        ActionModel::SendPrivate { user_id: target.0, text }
    }
}

/// What sending a draft leads to: a message to the selected peer, where there
/// is one, and the row that echoes the draft.
#[derive(Debug)]
pub struct Sent {
    pub action: Option<Action>,
    pub row: MessageRow,
}

impl Transcript {
    /// Whether `out` is what sending a draft leads to, and `after` the
    /// transcript then.
    pub open spec fn sends(
        self,
        after: Transcript,
        draft: Seq<char>,
        rows: Seq<ChannelModel>,
        selected: int,
        online: bool,
        minute: int,
        out: Option<Sent>,
    ) -> bool {
        match out {
            None => blank(draft) && after == self,
            Some(sent) => {
                &&& !blank(draft)
                &&& sent.row@ == self.next_row("you"@, draft, minute, None)
                &&& self.added(after, "you"@, minute, None)
                &&& match sent.action {
                    Some(action) => online && target_of(rows, selected) is Some && action@
                        == addressed(target_of(rows, selected)->0, draft),
                    None => !online || target_of(rows, selected) is None,
                }
            },
        }
    }

    /// Send a draft at the given minute of the day. A blank draft is not
    /// sent. `online` says that there is a transport; without one, and where
    /// the selected row addresses nobody, the draft is echoed locally only.
    pub fn send(
        &mut self,
        draft: &str,
        rows: &Vec<Channel>,
        selected: i32,
        online: bool,
        minute: i64,
    ) -> (out: Option<Sent>)
        requires
            old(self).wf(),
            0 <= minute < 1440,
        ensures
            (out is None) == blank(draft@),
            old(self).sends(
                *final(self),
                draft@,
                channel_models(rows@),
                selected as int,
                online,
                minute as int,
                out,
            ),
            out is None ==> *final(self) == *old(self),
            out matches Some(sent) ==> {
                &&& sent.row@ == old(self).next_row("you"@, draft@, minute as int, None)
                &&& old(self).added(*final(self), "you"@, minute as int, None)
                &&& match (online, target_of(channel_models(rows@), selected as int)) {
                    (true, Some(target)) => sent.action matches Some(action) && action@
                        == addressed(target, draft@),
                    _ => sent.action is None,
                }
            },
    {
        if is_blank(draft) {
            return None;
        }
        let action = if online {
            match send_target(rows, selected) {
                Some((id, true)) => Some(
                    Action::SendGroup { group_id: id, text: draft.to_owned() },
                ),
                Some((id, false)) => Some(
                    Action::SendPrivate { user_id: id, text: draft.to_owned() },
                ),
                None => None,
            }
        } else {
            None
        };
        let row = self.add("you", draft, minute);
        Some(Sent { action, row })
    }

    /// Send a sticker at the given minute of the day: a row without text, to
    /// which the caller adds the picture.
    pub fn send_sticker(&mut self, minute: i64) -> (row: MessageRow)
        requires
            old(self).wf(),
            0 <= minute < 1440,
        ensures
            row@ == old(self).next_row("you"@, ""@, minute as int, None),
            row@.body.len() == 0,
            old(self).added(*final(self), "you"@, minute as int, None),
    {
        proof {
            reveal_strlit("");
        }
        self.add("you", "", minute)
    }
}

/// Every row of a kind is the row of a peer of that kind.
pub proof fn lemma_kind_rows(peers: Seq<PeerModel>, is_group: bool, i: int)
    requires
        0 <= i < kind_rows(peers, is_group).len(),
    ensures
        !kind_rows(peers, is_group)[i].header,
        exists|j: int|
            0 <= j < peers.len() && (#[trigger] peers[j]).is_group == is_group && kind_rows(
                peers,
                is_group,
            )[i] == peer_row(peers[j]),
    decreases peers.len(),
{
    let rows = kind_rows(peers, is_group);
    let before = kind_rows(peers.drop_last(), is_group);
    if i < before.len() {
        lemma_kind_rows(peers.drop_last(), is_group, i);
        let j = choose|j: int|
            0 <= j < peers.len() - 1 && (#[trigger] peers.drop_last()[j]).is_group == is_group
                && before[i] == peer_row(peers.drop_last()[j]);
        assert(peers[j].is_group == is_group && rows[i] == peer_row(peers[j]));
    } else {
        assert(peers[peers.len() - 1].is_group == is_group);
    }
}

/// The first row of a sidebar is a header, the second is a peer's.
proof fn lemma_sidebar_opens_with_a_header(peers: Seq<PeerModel>)
    ensures
        sidebar_of(peers).len() != 1,
        (sidebar_of(peers).len() == 0) == (peers.len() == 0),
        sidebar_of(peers).len() > 0 ==> sidebar_of(peers)[0].header && !sidebar_of(
            peers,
        )[1].header,
{
    let friends = kind_rows(peers, false);
    let groups = kind_rows(peers, true);
    if peers.len() > 0 {
        assert(kind_rows(peers, peers.last().is_group).len() > 0);
    }
    if friends.len() > 0 {
        lemma_kind_rows(peers, false, 0);
        assert(sidebar_of(peers)[1] == friends[0]);
    } else if groups.len() > 0 {
        lemma_kind_rows(peers, true, 0);
        assert(sidebar_of(peers)[1] == groups[0]);
    }
}

} // verus!