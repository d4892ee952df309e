//! Laws of the chat window: what holds of every roster, every run of rows and
//! every draft.

use vstd::prelude::*;

use crate::chat::{
    addressed, clock, clock_gap, epoch_minute, header_row, kind_rows, lemma_kind_rows,
    minute_of_day, peer_row, section, sidebar_of, target_of, two_columns, uid_after, ChannelModel,
    MessageRow, Transcript,
};
use crate::convo::GROUP_GAP_MIN;
use crate::decimal::{all_digits, digits, law_decimal_reads_back};
use crate::onebot::PeerModel;
use crate::transport::{message_params, Request};

verus! {

// ---- the sidebar ----

/// A row of a peer addresses that peer.
pub proof fn law_peer_row_addresses_its_peer(
    rows: Seq<ChannelModel>,
    selected: int,
    peer: PeerModel,
)
    requires
        0 <= selected < rows.len(),
        rows[selected] == peer_row(peer),
    ensures
        target_of(rows, selected) == Some((peer.id, peer.is_group)),
{
    law_decimal_reads_back(peer.id);
}

/// A header row addresses nobody.
pub proof fn law_header_addresses_nobody(
    rows: Seq<ChannelModel>,
    selected: int,
    label: Seq<char>,
)
    requires
        0 <= selected < rows.len(),
        rows[selected] == header_row(label),
    ensures
        target_of(rows, selected) is None,
{
}

proof fn lemma_listed(peers: Seq<PeerModel>, is_group: bool, j: int) -> (i: int)
    requires
        0 <= j < peers.len(),
        peers[j].is_group == is_group,
    ensures
        0 <= i < kind_rows(peers, is_group).len(),
        kind_rows(peers, is_group)[i] == peer_row(peers[j]),
    decreases peers.len(),
{
    let before = kind_rows(peers.drop_last(), is_group);
    if j == peers.len() - 1 {
        before.len() as int
    } else {
        lemma_listed(peers.drop_last(), is_group, j)
    }
}

/// Every peer of the roster has a row in the sidebar that addresses it.
pub proof fn law_every_peer_can_be_addressed(peers: Seq<PeerModel>, j: int)
    requires
        0 <= j < peers.len(),
    ensures
        exists|i: int|
            0 <= i < sidebar_of(peers).len() && #[trigger] sidebar_of(peers)[i] == peer_row(
                peers[j],
            ) && target_of(sidebar_of(peers), i) == Some((peers[j].id, peers[j].is_group)),
{
    let at = lemma_listed(peers, peers[j].is_group, j);
    let friends = section("私信"@, peers, false);
    let i = if peers[j].is_group {
        friends.len() + 1 + at
    } else {
        1 + at
    };
    assert(sidebar_of(peers)[i] == peer_row(peers[j]));
    law_peer_row_addresses_its_peer(sidebar_of(peers), i, peers[j]);
}

/// Every row of the sidebar is a header, which addresses nobody, or the row of
/// a peer of the roster, which addresses that peer.
pub proof fn law_sidebar_addresses_the_roster_only(peers: Seq<PeerModel>, i: int)
    requires
        0 <= i < sidebar_of(peers).len(),
    ensures
        sidebar_of(peers)[i].header ==> target_of(sidebar_of(peers), i) is None,
        !sidebar_of(peers)[i].header ==> exists|j: int|
            0 <= j < peers.len() && sidebar_of(peers)[i] == peer_row(#[trigger] peers[j])
                && target_of(sidebar_of(peers), i) == Some((peers[j].id, peers[j].is_group)),
{
    let rows = sidebar_of(peers);
    let friends = section("私信"@, peers, false);
    let is_group = i >= friends.len();
    let at = if is_group {
        i - friends.len() - 1
    } else {
        i - 1
    };
    if at < 0 {
        assert(rows[i] == header_row(
            if is_group {
                "群聊"@
            } else {
                "私信"@
            },
        ));
    } else {
        let kind = kind_rows(peers, is_group);
        assert(rows[i] == kind[at]);
        lemma_kind_rows(peers, is_group, at);
        let j = choose|j: int|
            0 <= j < peers.len() && (#[trigger] peers[j]).is_group == is_group && kind[at]
                == peer_row(peers[j]);
        law_peer_row_addresses_its_peer(rows, i, peers[j]);
    }
}

/// The friends are listed before the groups.
pub proof fn law_friends_are_listed_first(peers: Seq<PeerModel>, i: int, k: int)
    requires
        0 <= i < k < sidebar_of(peers).len(),
        sidebar_of(peers)[i].is_group,
    ensures
        sidebar_of(peers)[k].is_group,
{
    let friends = section("私信"@, peers, false);
    if i < friends.len() {
        if i > 0 {
            lemma_kind_rows(peers, false, i - 1);
        }
    } else {
        assert(i > friends.len());
        lemma_kind_rows(peers, true, k - friends.len() - 1);
        assert(sidebar_of(peers)[k] == kind_rows(peers, true)[k - friends.len() - 1]);
    }
}

/// The sidebar shows nothing when and only when the roster is empty.
pub proof fn law_sidebar_is_empty_with_the_roster(peers: Seq<PeerModel>)
    ensures
        (sidebar_of(peers).len() == 0) == (peers.len() == 0),
{
    if peers.len() > 0 {
        law_every_peer_can_be_addressed(peers, 0);
    }
}

/// A fresh roster opens on its first peer, unless it is empty: the second row
/// is no header.
pub proof fn law_roster_opens_on_a_peer(peers: Seq<PeerModel>)
    requires
        peers.len() > 0,
    ensures
        sidebar_of(peers).len() > 1,
        sidebar_of(peers)[0].header,
        !sidebar_of(peers)[1].header,
        target_of(sidebar_of(peers), 1) is Some,
{
    law_sidebar_is_empty_with_the_roster(peers);
    let friends = kind_rows(peers, false);
    if friends.len() > 0 {
        lemma_kind_rows(peers, false, 0);
        assert(sidebar_of(peers)[1] == friends[0]);
    } else {
        lemma_kind_rows(peers, true, 0);
        assert(sidebar_of(peers)[1] == kind_rows(peers, true)[0]);
    }
    law_sidebar_addresses_the_roster_only(peers, 1);
}

/// A draft sent from a peer's row becomes one request to that peer that
/// carries the draft as it was typed.
pub proof fn law_draft_reaches_the_selected_peer(
    rows: Seq<ChannelModel>,
    selected: int,
    peer: PeerModel,
    draft: Seq<char>,
)
    requires
        0 <= selected < rows.len(),
        rows[selected] == peer_row(peer),
    ensures
        target_of(rows, selected) is Some,
        addressed(target_of(rows, selected)->0, draft).requests() == seq![
            if peer.is_group {
                Request {
                    name: "send_group_msg"@,
                    params: message_params("group_id"@, peer.id, draft),
                }
            } else {
                Request {
                    name: "send_private_msg"@,
                    params: message_params("user_id"@, peer.id, draft),
                }
            },
        ],
{
    law_peer_row_addresses_its_peer(rows, selected, peer);
}

// ---- rows ----

/// After a row, the next one joins its group exactly when it is by the same
/// author and at most five minutes later, wherever the two rows came from: by
/// their time stamps where both have one, and else on the clock.
pub proof fn law_quick_follow_up_is_grouped(
    before: Transcript,
    after: Transcript,
    author: Seq<char>,
    minute: int,
    stamp: Option<int>,
    next_author: Seq<char>,
    body: Seq<char>,
    next_minute: int,
    next_stamp: Option<int>,
)
    requires
        before.added(after, author, minute, stamp),
    ensures
        after.next_row(next_author, body, next_minute, next_stamp).grouped == (next_author
            == author && 0 <= (if stamp is Some && next_stamp is Some {
            next_stamp->0 - stamp->0
        } else {
            clock_gap(minute, next_minute)
        }) <= GROUP_GAP_MIN),
{
}

/// Of two messages that come in one after the other, the second joins the
/// group of the first exactly when the author is the same and it is zero to
/// five minutes later, over midnight too; a day in between is never taken for
/// none.
pub proof fn law_incoming_messages_merge_by_their_stamps(
    before: Transcript,
    after: Transcript,
    author: Seq<char>,
    unix: int,
    next_author: Seq<char>,
    body: Seq<char>,
    next_unix: int,
)
    requires
        before.received(after, author, unix),
    ensures
        after.incoming_row(next_author, body, next_unix).grouped == (next_author == author && 0
            <= next_unix / 60 - unix / 60 <= GROUP_GAP_MIN),
{
}

/// The clock and the time stamps agree on what is at most five minutes apart:
/// where it is by the stamps, it is as far apart on the clock.
pub proof fn law_clock_gap_is_the_gap(unix: int, next_unix: int)
    requires
        0 <= epoch_minute(next_unix) - epoch_minute(unix) <= GROUP_GAP_MIN,
    ensures
        clock_gap(minute_of_day(unix), minute_of_day(next_unix)) == epoch_minute(next_unix)
            - epoch_minute(unix),
{
}

/// The first row of a transcript opens a group.
pub proof fn law_first_row_is_not_grouped(
    start: Transcript,
    author: Seq<char>,
    body: Seq<char>,
    minute: int,
    stamp: Option<int>,
)
    requires
        start.last() is None,
    ensures
        !start.next_row(author, body, minute, stamp).grouped,
{
}

/// The identity of the row `n` rows after the one with identity `uid`.
pub open spec fn uid_later(uid: i32, n: nat) -> i32
    decreases n,
{
    if n == 0 {
        uid
    } else {
        uid_after(uid_later(uid, (n - 1) as nat))
    }
}

proof fn lemma_uid_later(uid: i32, n: nat)
    ensures
        (uid_later(uid, n) - uid - n) % 0x1_0000_0000 == 0,
    decreases n,
{
    if n > 0 {
        lemma_uid_later(uid, (n - 1) as nat);
    }
}

/// Row identities count up from the first: the row `n` rows after it has an
/// identity `n` higher, so a transcript that began at 0 gives none below 0 to
/// its first 2^31 rows.
pub proof fn law_row_identities_count_up(uid: i32, n: nat)
    requires
        uid + n <= i32::MAX,
    ensures
        uid_later(uid, n) == uid + n,
    decreases n,
{
    if n > 0 {
        law_row_identities_count_up(uid, (n - 1) as nat);
    }
}

/// Row identities are not re-assigned: two of 2^32 rows in a row never share
/// one.
pub proof fn law_row_identities_differ(uid: i32, m: nat, n: nat)
    requires
        m < n < m + 0x1_0000_0000,
    ensures
        uid_later(uid, m) != uid_later(uid, n),
{
    lemma_uid_later(uid, m);
    lemma_uid_later(uid, n);
}

/// A row looks the same whoever receives it: its avatar and its clock time
/// follow from its author and its minute alone.
pub proof fn law_row_looks_follow_the_author(
    a: Transcript,
    b: Transcript,
    author: Seq<char>,
    body: Seq<char>,
    minute: int,
    stamp: Option<int>,
)
    ensures
        a.next_row(author, body, minute, stamp).initial == b.next_row(author, body, minute, stamp).initial,
        a.next_row(author, body, minute, stamp).color == b.next_row(author, body, minute, stamp).color,
        a.next_row(author, body, minute, stamp).time == b.next_row(author, body, minute, stamp).time,
        0 <= a.next_row(author, body, minute, stamp).color < 8,
{
}

/// A row that a conversation keeps is the row that was pushed.
pub proof fn law_kept_row_is_the_pushed_row(pushed: MessageRow, kept: MessageRow)
    requires
        cloned::<MessageRow>(pushed, kept),
    ensures
        kept@ == pushed@,
{
}

proof fn lemma_two_columns(n: int)
    requires
        0 <= n < 60,
    ensures
        two_columns(n).len() == 2,
        all_digits(two_columns(n)),
{
    reveal_with_fuel(digits, 3);
    let d = digits(n as nat);
    if n < 10 {
        assert(d.len() == 1);
    } else {
        assert(d.len() == 2);
    }
}

/// A minute of the day shows as two digits, a colon and two digits.
pub proof fn law_clock_has_five_columns(minute: int)
    requires
        0 <= minute < 1440,
    ensures
        clock(minute).len() == 5,
        clock(minute)[2] == ':',
        all_digits(clock(minute).take(2)),
        all_digits(clock(minute).skip(3)),
{
    lemma_two_columns(minute / 60);
    lemma_two_columns(minute % 60);
    assert((minute / 60) % 24 == minute / 60);
    assert(clock(minute).take(2) =~= two_columns(minute / 60));
    assert(clock(minute).skip(3) =~= two_columns(minute % 60));
}

/// Time stamps a whole number of days apart have the same minute of the day,
/// before the epoch and after it.
pub proof fn law_minute_repeats_daily(unix: int, days: int)
    ensures
        minute_of_day(unix + 86400 * days) == minute_of_day(unix),
        0 <= minute_of_day(unix) < 1440,
{
    assert((unix + 86400 * days) / 60 == unix / 60 + 1440 * days);
    vstd::arithmetic::div_mod::lemma_mod_multiples_vanish(days, unix / 60, 1440);
    assert(1440 * days + unix / 60 == unix / 60 + 1440 * days);
}

} // verus!
