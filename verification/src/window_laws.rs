//! Laws of what the window shows, stated over names, minutes, time stamps and
//! the rows themselves.

use vstd::prelude::*;

use crate::chat::{
    addressed, channel_models, clock, clock_gap, code_sum, epoch_minute, first_char, header_row,
    kind_rows, label_of, minute_of_day, peer_row, quotient, remainder, row_of, sidebar_of,
    target_of, two_columns, uppercase_of, Channel, ChannelModel, Change, MessageRow, RowModel, Sent,
    Transcript,
};
use crate::convo::HasRowMeta;
use crate::decimal::{decimal, digits, i64_value, law_decimal_reads_back};
use crate::onebot::{EventModel, PeerModel};
use crate::text::is_space;
use crate::transport::{Action, ActionModel};

verus! {

// ---- avatars ----

/// The avatar letter comes from the first character of a name, whatever
/// follows it; a question mark stands in for an empty name.
pub proof fn law_avatar_letter_is_the_first(c: char, rest: Seq<char>)
    ensures
        first_char(seq![c] + rest) == c,
        first_char(Seq::empty()) == '?',
{
}

/// The colour of a name adds up over its characters: the code points of the
/// whole name are those of its parts together, one character counts with its
/// code point, and an empty name with nothing.
pub proof fn law_colour_adds_up(a: Seq<char>, b: Seq<char>, c: char)
    ensures
        code_sum(a + b) == code_sum(a) + code_sum(b),
        code_sum(seq![c]) == c as int,
        code_sum(Seq::empty()) == 0,
    decreases b.len(),
{
    if b.len() == 0 {
        assert(a + b =~= a);
    } else {
        law_colour_adds_up(a, b.drop_last(), c);
        assert((a + b).drop_last() =~= a + b.drop_last());
        assert((a + b).last() == b.last());
    }
    assert(seq![c].drop_last() =~= Seq::<char>::empty());
    assert(code_sum(seq![c].drop_last()) == 0);
}

// ---- the clock ----

/// A time stamp falls in the minute that it is counted in: whole days, then
/// the minutes of the day, then the seconds of the minute, before the epoch
/// and after it.
pub proof fn law_time_stamp_falls_in_its_minute(day: int, minute: int, second: int)
    requires
        0 <= minute < 1440,
        0 <= second < 60,
    ensures
        minute_of_day(86400 * day + 60 * minute + second) == minute,
        epoch_minute(86400 * day + 60 * minute + second) == 1440 * day + minute,
{
    let unix = 86400 * day + 60 * minute + second;
    assert(unix / 60 == 1440 * day + minute);
    vstd::arithmetic::div_mod::lemma_mod_multiples_vanish(day, minute, 1440);
}

proof fn lemma_two_columns_read(n: int)
    requires
        0 <= n < 100,
    ensures
        two_columns(n).len() == 2,
        two_columns(n)[0] as int == '0' as int + n / 10,
        two_columns(n)[1] as int == '0' as int + n % 10,
{
    reveal_with_fuel(digits, 3);
    let d = digits(n as nat);
    if n < 10 {
        assert(d =~= seq![(48 + n) as char]);
    } else {
        assert(d =~= seq![(48 + n / 10) as char, (48 + n % 10) as char]);
    }
}

/// The clock shows the hour and the minute of the hour, two digits each, with
/// a colon in between, for every minute of the day.
pub proof fn law_clock_shows_hour_and_minute(hour: int, minute: int)
    requires
        0 <= hour < 24,
        0 <= minute < 60,
    ensures
        clock(60 * hour + minute).len() == 5,
        clock(60 * hour + minute)[0] as int == '0' as int + hour / 10,
        clock(60 * hour + minute)[1] as int == '0' as int + hour % 10,
        clock(60 * hour + minute)[2] == ':',
        clock(60 * hour + minute)[3] as int == '0' as int + minute / 10,
        clock(60 * hour + minute)[4] as int == '0' as int + minute % 10,
{
    let at = 60 * hour + minute;
    assert(at / 60 == hour && at % 60 == minute);
    lemma_two_columns_read(hour);
    lemma_two_columns_read(minute);
    assert(hour % 24 == hour);
}

/// The clock starts over after a day.
pub proof fn law_clock_starts_over(minute: int)
    requires
        minute >= 0,
    ensures
        clock(minute + 1440) == clock(minute),
{
    assert((minute + 1440) / 60 == minute / 60 + 24);
    assert((minute + 1440) % 60 == minute % 60);
}

/// Before midnight the clock shows what the same number of minutes after it
/// would, with a minus sign on each part that is not zero; a part with a sign
/// takes no zero in front.
pub proof fn law_clock_before_midnight_has_signs(minute: int)
    requires
        minute < 0,
    ensures
        clock(minute) == ({
            let hour = ((-minute) / 60) % 24;
            let rest = (-minute) % 60;
            (if hour == 0 {
                seq!['0', '0']
            } else {
                seq!['-'] + digits(hour as nat)
            }) + seq![':'] + (if rest == 0 {
                seq!['0', '0']
            } else {
                seq!['-'] + digits(rest as nat)
            })
        }),
{
    reveal_with_fuel(digits, 2);
    let q = -minute;
    assert(quotient(minute, 60) == -(q / 60));
    assert(remainder(minute, 60) == -(q % 60));
    if q / 60 == 0 {
        assert(remainder(quotient(minute, 60), 24) == 0);
    } else {
        assert(remainder(quotient(minute, 60), 24) == -((q / 60) % 24));
    }
    assert(digits(0) =~= seq!['0']);
    assert(seq!['0'] + seq!['0'] =~= seq!['0', '0']);
}

/// The gap on the clock is less than a day, and that many minutes on from the
/// one minute the clock shows the other.
pub proof fn law_clock_gap_leads_on(from: int, to: int)
    requires
        0 <= from < 1440,
        0 <= to < 1440,
    ensures
        0 <= clock_gap(from, to) < 1440,
        (from + clock_gap(from, to)) % 1440 == to,
{
}

// ---- rows ----

/// A row shows its author, body and uid as given, the letter and colour of its
/// author, and the clock at its minute.
pub proof fn law_row_shows_what_it_is_given(
    author: Seq<char>,
    body: Seq<char>,
    minute: int,
    uid: i32,
    grouped: bool,
)
    ensures
        ({
            let row = row_of(author, body, minute, uid, grouped);
            &&& row.author == author
            &&& row.body == body
            &&& row.uid == uid
            &&& row.grouped == grouped
            &&& row.initial == uppercase_of(first_char(author))
            &&& row.time == clock(minute)
            &&& 0 <= row.color < 8
            &&& (code_sum(author) - row.color) % 8 == 0
        }),
{
}

/// The next row of a transcript has the author and body of the message, the
/// transcript's next identity, and the clock at its minute. It is grouped
/// when, and only when, there is a row before it by the same author and at
/// most five minutes back: by the time stamps of both, or on the clock where
/// one has none.
pub proof fn law_next_row_is_the_message(
    transcript: Transcript,
    author: Seq<char>,
    body: Seq<char>,
    minute: int,
    stamp: Option<int>,
)
    ensures
        ({
            let row = transcript.next_row(author, body, minute, stamp);
            &&& row.author == author
            &&& row.body == body
            &&& row.uid == transcript.uid()
            &&& row.time == clock(minute)
            &&& row.initial == uppercase_of(first_char(author))
            &&& row.grouped <==> {
                &&& transcript.last() is Some
                &&& transcript.last()->0.author == author
                &&& stamp is Some && transcript.last()->0.stamp is Some ==> 0 <= stamp->0
                    - transcript.last()->0.stamp->0 <= 5
                &&& !(stamp is Some && transcript.last()->0.stamp is Some) ==> 0 <= clock_gap(
                    transcript.last()->0.minute,
                    minute,
                ) <= 5
            }
        }),
{
}

/// Once a row is added it is the last one: the next row is grouped by its
/// author, its minute and its time stamp, and takes another identity.
pub proof fn law_added_row_is_the_last(
    before: Transcript,
    after: Transcript,
    author: Seq<char>,
    minute: int,
    stamp: Option<int>,
)
    requires
        before.added(after, author, minute, stamp),
    ensures
        after.last() is Some,
        after.last()->0.author == author,
        after.last()->0.minute == minute,
        after.last()->0.stamp == stamp,
        after.uid() != before.uid(),
        before.uid() < i32::MAX ==> after.uid() == before.uid() + 1,
        before.uid() == i32::MAX ==> after.uid() == i32::MIN,
{
}

/// A message that comes in takes its minute and its time stamp from its time.
pub proof fn law_incoming_row_is_at_its_time(
    before: Transcript,
    after: Transcript,
    author: Seq<char>,
    body: Seq<char>,
    day: int,
    minute: int,
    second: int,
)
    requires
        0 <= minute < 1440,
        0 <= second < 60,
        before.received(after, author, 86400 * day + 60 * minute + second),
    ensures
        after.last() is Some,
        after.last()->0.author == author,
        after.last()->0.minute == minute,
        after.last()->0.stamp == Some(1440 * day + minute),
        before.incoming_row(author, body, 86400 * day + 60 * minute + second).time == clock(
            minute,
        ),
        before.incoming_row(author, body, 86400 * day + 60 * minute + second).body == body,
        before.incoming_row(author, body, 86400 * day + 60 * minute + second).author == author,
        before.incoming_row(author, body, 86400 * day + 60 * minute + second).uid == before.uid(),
{
    law_time_stamp_falls_in_its_minute(day, minute, second);
}

/// A row says what its fields hold, and setting its group flag changes the
/// flag alone.
pub proof fn law_row_says_its_fields(row: MessageRow, after: MessageRow, grouped: bool)
    ensures
        row@ == (RowModel {
            author: row.author@,
            initial: row.initial@,
            uid: row.uid,
            body: row.body@,
            time: row.time@,
            color: row.color as int,
            grouped: row.grouped,
        }),
        MessageRow::regrouped(row, after, grouped) ==> {
            &&& after.grouped == grouped
            &&& after.author == row.author && after.initial == row.initial
            &&& after.uid == row.uid && after.body == row.body
            &&& after.time == row.time && after.color == row.color
        },
{
}

// ---- the sidebar ----

/// A peer's row shows its name, whole, and carries its id, any of 64 bits, so
/// that the id reads back from it.
pub proof fn law_peer_row_carries_the_peer(peer: PeerModel)
    ensures
        peer_row(peer).name == peer.name,
        !peer_row(peer).header,
        peer_row(peer).is_group == peer.is_group,
        i64_value(peer_row(peer).peer_id) == Some(peer.id),
        peer_row(peer).peer_id == decimal(peer.id as int),
{
    law_decimal_reads_back(peer.id);
}

/// A header row shows its label and carries no id.
pub proof fn law_header_row_carries_no_id(label: Seq<char>)
    ensures
        header_row(label).name == label,
        header_row(label).header,
        header_row(label).peer_id.len() == 0,
        !header_row(label).is_group,
{
}

/// One more peer in the roster adds its row at the end of its kind, and no row
/// to the other.
pub proof fn law_each_peer_adds_its_row(peers: Seq<PeerModel>, peer: PeerModel)
    ensures
        kind_rows(Seq::empty(), true).len() == 0,
        kind_rows(Seq::empty(), false).len() == 0,
        kind_rows(peers.push(peer), peer.is_group) == kind_rows(peers, peer.is_group).push(
            peer_row(peer),
        ),
        kind_rows(peers.push(peer), !peer.is_group) == kind_rows(peers, !peer.is_group),
{
    assert(peers.push(peer).drop_last() =~= peers);
    assert(peers.push(peer).last() == peer);
}

/// The sidebar is the friends under the header `私信` and then the groups under
/// the header `群聊`, each kind in roster order, and a kind without peers is
/// left out with its header.
pub proof fn law_sidebar_is_friends_then_groups(peers: Seq<PeerModel>, i: int)
    ensures
        ({
            let friends = kind_rows(peers, false);
            let groups = kind_rows(peers, true);
            let rows = sidebar_of(peers);
            let above = if friends.len() > 0 {
                friends.len() + 1
            } else {
                0
            };
            let below = if groups.len() > 0 {
                groups.len() + 1
            } else {
                0
            };
            &&& rows.len() == above + below
            &&& friends.len() > 0 ==> rows[0].header && rows[0].name == "私信"@
            &&& 0 <= i < friends.len() ==> rows[i + 1] == friends[i]
            &&& groups.len() > 0 ==> rows[above as int].header && rows[above as int].name == "群聊"@
            &&& 0 <= i < groups.len() ==> rows[above + 1 + i] == groups[i]
        }),
{
}

proof fn lemma_kind_lengths(peers: Seq<PeerModel>)
    ensures
        kind_rows(peers, false).len() + kind_rows(peers, true).len() == peers.len(),
    decreases peers.len(),
{
    if peers.len() > 0 {
        lemma_kind_lengths(peers.drop_last());
    }
}

/// The sidebar has one row for each peer, and besides them at most the two
/// headers.
pub proof fn law_sidebar_has_a_row_for_each_peer(peers: Seq<PeerModel>)
    ensures
        peers.len() <= sidebar_of(peers).len() <= peers.len() + 2,
        kind_rows(peers, false).len() + kind_rows(peers, true).len() == peers.len(),
{
    lemma_kind_lengths(peers);
}

/// A sidebar row says what its fields hold, and a list of them what each says.
pub proof fn law_channel_says_its_fields(row: Channel, rows: Seq<Channel>, i: int)
    ensures
        row@ == (ChannelModel {
            name: row.name@,
            header: row.header,
            peer_id: row.peer_id@,
            is_group: row.is_group,
        }),
        channel_models(rows).len() == rows.len(),
        0 <= i < rows.len() ==> channel_models(rows)[i] == rows[i]@,
{
}

/// The connection label of a fresh connection is `已连接`, and that of a login
/// adds the nickname, whole; nothing else sets a label.
pub proof fn law_label_names_the_login(
    nickname: Seq<char>,
    uin: Seq<char>,
    peers: Seq<PeerModel>,
    event: EventModel,
)
    ensures
        label_of(EventModel::Connected) == Some("已连接"@),
        label_of(EventModel::Login { nickname, uin }) matches Some(label) && label.len()
            == "已连接 · "@.len() + nickname.len() && label.take("已连接 · "@.len() as int)
            == "已连接 · "@ && label.skip("已连接 · "@.len() as int) == nickname,
        event is Roster || event is PrivateMessage || event is GroupMessage ==> label_of(event) is None,
{
    let label = "已连接 · "@ + nickname;
    let n = "已连接 · "@.len() as int;
    assert(label.take(n) =~= "已连接 · "@);
    assert(label.skip(n) =~= nickname);
}

// ---- sending ----

/// The selected row decides the target: the integer that its id reads as, and
/// its kind. A row whose id is none, and a selection beyond the rows, has no
/// target; a negative selection stands for the first row.
pub proof fn law_target_is_the_selected_row(rows: Seq<ChannelModel>, selected: int)
    ensures
        0 <= selected < rows.len() ==> (match i64_value(rows[selected].peer_id) {
            Some(id) => target_of(rows, selected) == Some((id, rows[selected].is_group)),
            None => target_of(rows, selected) is None,
        }),
        selected >= rows.len() ==> target_of(rows, selected) is None,
        selected < 0 ==> target_of(rows, selected) == target_of(rows, 0),
{
}

/// A message to a peer goes to that peer and carries the text as it is.
pub proof fn law_message_is_addressed_to_the_target(id: i64, text: Seq<char>)
    ensures
        addressed((id, true), text) == (ActionModel::SendGroup { group_id: id, text }),
        addressed((id, false), text) == (ActionModel::SendPrivate { user_id: id, text }),
{
}

/// A draft of white space alone is not sent and changes nothing. Any other is
/// echoed whole, in a row of the user's own, and goes whole to the peer of the
/// selected row where there is a transport and such a peer, and to nobody
/// else.
pub proof fn law_draft_is_sent_whole(
    before: Transcript,
    after: Transcript,
    draft: Seq<char>,
    rows: Seq<ChannelModel>,
    selected: int,
    online: bool,
    minute: int,
    out: Option<Sent>,
)
    requires
        0 <= selected < rows.len(),
        before.sends(after, draft, rows, selected, online, minute, out),
    ensures
        out is None <==> forall|i: int| 0 <= i < draft.len() ==> is_space(#[trigger] draft[i] as int),
        out is None ==> after == before,
        out matches Some(sent) ==> {
            &&& sent.row.author@ == "you"@
            &&& sent.row.body@ == draft
            &&& sent.row.uid == before.uid()
            &&& sent.row.time@ == clock(minute)
            &&& after.last() matches Some(last) && last.author == "you"@ && last.minute == minute
            &&& sent.action is Some <==> online && i64_value(rows[selected].peer_id) is Some
            &&& sent.action matches Some(Action::SendGroup { group_id, text }) ==> text@ == draft
                && i64_value(rows[selected].peer_id) == Some(group_id) && rows[selected].is_group
            &&& sent.action matches Some(Action::SendPrivate { user_id, text }) ==> text@ == draft
                && i64_value(rows[selected].peer_id) == Some(user_id) && !rows[selected].is_group
            &&& sent.action matches Some(action) ==> action is SendGroup || action is SendPrivate
        },
{
    if out is Some {
        let row = out->0.row;
        assert(row@.author == row.author@ && row@.body == row.body@ && row@.time == row.time@);
        if !online || target_of(rows, selected) is None {
            assert(out->0.action is None);
        }
    }
}

/// A message that comes in appends a row with its sender and its whole text,
/// and changes neither label nor sidebar; a roster replaces the sidebar and
/// selects its first peer; a connection and a login set the label.
pub proof fn law_event_changes_one_thing(
    before: Transcript,
    after: Transcript,
    event: EventModel,
    change: Change,
)
    requires
        before.applies(after, event, change),
    ensures
        event matches EventModel::PrivateMessage { sender_id, sender_name, text, time } ==> (
        change matches Change::Row(row) && row.author@ == sender_name && row.body@ == text
            && row.uid == before.uid()),
        event matches EventModel::GroupMessage { group_id, sender_id, sender_name, text, time }
            ==> (change matches Change::Row(row) && row.author@ == sender_name && row.body@ == text
            && row.uid == before.uid()),
        event matches EventModel::Roster { peers } ==> (change matches Change::Sidebar {
            rows,
            selected,
        } && rows@.len() == sidebar_of(peers).len() && (peers.len() > 0 ==> selected == 1) && (
        peers.len() == 0 ==> selected == 0)),
        event is Connected || event is Login ==> change is Label,
        !(change is Row) ==> after == before,
{
    match change {
        Change::Label(_) => {},
        Change::Row(row) => {
            assert(row@.author == row.author@ && row@.body == row.body@);
        },
        Change::Sidebar { rows, selected } => {
            assert(channel_models(rows@).len() == rows@.len());
        },
    }
}

} // verus!
