//! What holds of the OneBot client across calls: replies, rosters, echoes,
//! message texts, reconnects and the action queue.

use vstd::prelude::*;

use crate::decimal::{decimal, i64_value, law_decimal_distinct, law_decimal_reads_back};
use crate::json::{json_value, JsonModel};
use crate::onebot::{
    authed, body_of, event_of, failure_of, login_of, message_text_of, peer_of, peers_of, reply_of,
    segment_text, segments_text, sender_name_of, EventModel, SlotsModel,
};
use crate::transport::{
    carry, delay_after, dispatched, frames, in_order, issued, law_client_awaits_its_own_requests,
    logged, Action, ActionModel, Client, Handle, Request,
};

verus! {

// ---- replies ----

/// A failed reply is dropped before slot matching: no event, and the pending
/// echoes and the roster halves stay as they were.
pub proof fn law_failed_reply_changes_nothing(v: JsonModel, slots: SlotsModel)
    requires
        v.field("retcode"@).integer() != Some(0i64),
    ensures
        reply_of(v, slots) == (None::<EventModel>, slots),
{
}

/// A failed reply is logged, with what it says, and dropped: it gives no
/// event, and nothing but a failed reply is logged.
pub proof fn law_failed_reply_is_logged_and_dropped(v: JsonModel, slots: SlotsModel)
    ensures
        (failure_of(v) is None) == (v.field("retcode"@).integer() == Some(0i64)),
        failure_of(v) matches Some((retcode, wording)) ==> retcode != 0,
        logged(v) is Some ==> logged(v) == failure_of(v) && dispatched(v, slots) == (
            None::<EventModel>,
            slots,
        ),
        !v.has("post_type"@) && v.has("echo"@) && failure_of(v) is Some ==> logged(v) is Some,
{
}

/// A reply whose echo no request waits for changes nothing.
pub proof fn law_unknown_echo_changes_nothing(v: JsonModel, slots: SlotsModel)
    requires
        v.field("echo"@).text() matches Some(echo) ==> !slots.awaits(echo),
    ensures
        reply_of(v, slots) == (None::<EventModel>, slots),
{
}

/// A good reply to an awaited echo consumes its slot, whatever its data, and
/// leaves the other requests waiting.
pub proof fn law_matched_slot_is_consumed(v: JsonModel, slots: SlotsModel, echo: Seq<char>)
    requires
        slots.distinct(),
        slots.awaits(echo),
        v.field("retcode"@).integer() == Some(0i64),
        v.field("echo"@).text() == Some(echo),
    ensures
        !reply_of(v, slots).1.awaits(echo),
        forall|other: Seq<char>|
            other != echo ==> (#[trigger] reply_of(v, slots).1.awaits(other) == slots.awaits(
                other,
            )),
{
}

/// The same reply twice counts once.
pub proof fn law_reply_counts_once(v: JsonModel, slots: SlotsModel)
    requires
        slots.distinct(),
    ensures
        reply_of(v, reply_of(v, slots).1) == (None::<EventModel>, reply_of(v, slots).1),
{
}

/// One half of the roster never fires: a roster event needs the other half
/// already in, holds the friends before the groups, and empties both halves.
pub proof fn law_roster_needs_both_halves(v: JsonModel, slots: SlotsModel)
    requires
        slots.half_open(),
        reply_of(v, slots).0 matches Some(EventModel::Roster { .. }),
    ensures
        ({
            let after = reply_of(v, slots).1;
            let entries = v.field("data"@).items()->0;
            let peers = reply_of(v, slots).0->0->peers;
            &&& after.roster_friends is None && after.roster_groups is None
            &&& ({
                ||| slots.roster_friends matches Some(friends) && peers == friends + peers_of(
                    entries,
                    true,
                )
                ||| slots.roster_groups matches Some(groups) && peers == peers_of(entries, false)
                    + groups
            })
        }),
{
}

/// At most one half of the roster waits for the other, after every reply too.
pub proof fn law_at_most_one_half_waits(v: JsonModel, slots: SlotsModel)
    requires
        slots.half_open(),
    ensures
        reply_of(v, slots).1.half_open(),
{
}

/// The two list replies may come in either order: the first gives no event,
/// and the second the same roster and the same slots.
pub proof fn law_roster_order_is_free(friends: JsonModel, groups: JsonModel, slots: SlotsModel)
    requires
        slots.distinct(),
        slots.friends is Some,
        slots.groups is Some,
        slots.roster_friends is None,
        slots.roster_groups is None,
        friends.field("retcode"@).integer() == Some(0i64),
        groups.field("retcode"@).integer() == Some(0i64),
        friends.field("echo"@).text() == slots.friends,
        groups.field("echo"@).text() == slots.groups,
        friends.field("data"@).items() is Some,
        groups.field("data"@).items() is Some,
    ensures
        reply_of(friends, slots).0 is None,
        reply_of(groups, slots).0 is None,
        reply_of(groups, reply_of(friends, slots).1) == reply_of(
            friends,
            reply_of(groups, slots).1,
        ),
        reply_of(groups, reply_of(friends, slots).1).0 == Some(
            EventModel::Roster {
                peers: peers_of(friends.field("data"@).items()->0, false) + peers_of(
                    groups.field("data"@).items()->0,
                    true,
                ),
            },
        ),
{
}

/// A list reply gives peers of its own kind only.
pub proof fn law_peers_are_of_one_kind(entries: Seq<JsonModel>, is_group: bool, i: int)
    requires
        0 <= i < peers_of(entries, is_group).len(),
    ensures
        peers_of(entries, is_group)[i].is_group == is_group,
    decreases entries.len(),
{
    if entries.len() > 0 && i < peers_of(entries.drop_last(), is_group).len() {
        law_peers_are_of_one_kind(entries.drop_last(), is_group, i);
    }
}

/// Whether the stored halves hold friends and groups as they should.
pub open spec fn halves_in_kind(slots: SlotsModel) -> bool {
    &&& slots.roster_friends matches Some(friends) ==> forall|i: int|
        0 <= i < friends.len() ==> !(#[trigger] friends[i]).is_group
    &&& slots.roster_groups matches Some(groups) ==> forall|i: int|
        0 <= i < groups.len() ==> (#[trigger] groups[i]).is_group
}

/// Friends come first in every roster: no friend follows a group. The stored
/// halves stay in kind.
pub proof fn law_friends_come_first(v: JsonModel, slots: SlotsModel)
    requires
        halves_in_kind(slots),
    ensures
        halves_in_kind(reply_of(v, slots).1),
        reply_of(v, slots).0 matches Some(EventModel::Roster { peers }) ==> forall|i: int, j: int|
            0 <= i < j < peers.len() && (#[trigger] peers[i]).is_group ==> (
            #[trigger] peers[j]).is_group,
{
    let entries = v.field("data"@).items()->0;
    assert forall|i: int| 0 <= i < peers_of(entries, false).len() implies !(#[trigger] peers_of(
        entries,
        false,
    )[i]).is_group by {
        law_peers_are_of_one_kind(entries, false, i);
    }
    assert forall|i: int| 0 <= i < peers_of(entries, true).len() implies (#[trigger] peers_of(
        entries,
        true,
    )[i]).is_group by {
        law_peers_are_of_one_kind(entries, true, i);
    }
}

/// Every entry with an id is listed.
pub proof fn law_entry_with_id_is_listed(entries: Seq<JsonModel>, is_group: bool, i: int)
    requires
        0 <= i < entries.len(),
        peer_of(entries[i], is_group) is Some,
    ensures
        peers_of(entries, is_group).contains(peer_of(entries[i], is_group)->0),
    decreases entries.len(),
{
    let peers = peers_of(entries, is_group);
    let peer = peer_of(entries[i], is_group)->0;
    if i == entries.len() - 1 {
        assert(peers[peers.len() - 1] == peer);
    } else {
        let before = peers_of(entries.drop_last(), is_group);
        law_entry_with_id_is_listed(entries.drop_last(), is_group, i);
        let j = choose|j: int| 0 <= j < before.len() && before[j] == peer;
        assert(peers[j] == peer);
    }
}

/// An entry without an id is skipped: the list is the one without it.
pub proof fn law_entry_without_id_is_skipped(
    before: Seq<JsonModel>,
    entry: JsonModel,
    after: Seq<JsonModel>,
    is_group: bool,
)
    requires
        peer_of(entry, is_group) is None,
    ensures
        peers_of(before.push(entry) + after, is_group) == peers_of(before + after, is_group),
    decreases after.len(),
{
    let with = before.push(entry) + after;
    let without = before + after;
    if after.len() == 0 {
        assert(with.drop_last() =~= before);
        assert(without =~= before);
    } else {
        assert(with.drop_last() =~= before.push(entry) + after.drop_last());
        assert(without.drop_last() =~= before + after.drop_last());
        law_entry_without_id_is_skipped(before, entry, after.drop_last(), is_group);
    }
}

/// The `uin` of a login event stands for the `user_id` of the reply.
pub proof fn law_login_uin_is_the_user_id(data: JsonModel)
    requires
        login_of(data) is Some,
    ensures
        login_of(data)->0 matches EventModel::Login { nickname, uin } && data.field(
            "nickname"@,
        ).text() == Some(nickname) && i64_value(uin) == data.field("user_id"@).integer(),
{
    law_decimal_reads_back(data.field("user_id"@).integer()->0);
}

// ---- echoes ----

/// Replies are matched per connection: the echo of a request made before the
/// session began is awaited by no slot of it.
pub proof fn law_old_echo_is_not_awaited(slots: SlotsModel, since: int, upto: int, k: int)
    requires
        0 <= k <= since <= upto <= i64::MAX,
        in_order(slots, since, upto),
    ensures
        !slots.awaits(decimal(k)),
{
    assert forall|slot: Option<Seq<char>>| #[trigger] issued(slot, since, upto) implies slot
        != Some(decimal(k)) by {
        if slot is Some {
            let n = choose|n: int| since < n <= upto && slot->0 == #[trigger] decimal(n);
            law_decimal_distinct(n as i64, k as i64);
        }
    }
}

/// A late reply to a request of an earlier connection changes nothing: it
/// gives no event, and every request of the session that runs still waits.
pub proof fn law_late_reply_is_dropped(client: Client, v: JsonModel, k: int)
    requires
        client.wf(),
        client.slots() is Some,
        0 <= k <= client.since(),
        !v.has("post_type"@),
        v.field("echo"@).text() == Some(decimal(k)),
    ensures
        dispatched(v, client.slots()->0) == (None::<EventModel>, client.slots()->0),
{
    law_client_awaits_its_own_requests(client);
    law_old_echo_is_not_awaited(client.slots()->0, client.since(), client.requests(), k);
}

/// The next echo is one that nobody waits for.
pub proof fn law_next_echo_is_fresh(slots: SlotsModel, since: int, upto: int)
    requires
        0 <= since <= upto < i64::MAX,
        in_order(slots, since, upto),
    ensures
        !slots.awaits(decimal(upto + 1)),
{
    assert forall|slot: Option<Seq<char>>| #[trigger] issued(slot, since, upto) implies slot
        != Some(decimal(upto + 1)) by {
        if slot is Some {
            let n = choose|n: int| since < n <= upto && slot->0 == #[trigger] decimal(n);
            law_decimal_distinct(n as i64, (upto + 1) as i64);
        }
    }
}

/// The frames of one batch of requests have echoes that differ.
pub proof fn law_batch_echoes_differ(requests: Seq<Request>, echo: int, i: int, j: int)
    requires
        0 <= echo,
        echo + requests.len() <= i64::MAX,
        0 <= i < j < requests.len(),
    ensures
        frames(requests, echo)[i].field("echo"@) != frames(requests, echo)[j].field("echo"@),
{
    law_decimal_distinct((echo + 1 + i) as i64, (echo + 1 + j) as i64);
}

/// What goes out says what was asked: the text of each frame reads back as an
/// object with the request's name, its parameters and its echo.
pub proof fn law_sent_text_says_the_request(
    texts: Seq<String>,
    requests: Seq<Request>,
    echo: int,
    i: int,
)
    requires
        carry(texts, frames(requests, echo)),
        0 <= i < requests.len(),
    ensures
        json_value(texts[i]@) matches Some(v) && v.field("action"@).text() == Some(
            requests[i].name,
        ) && v.field("params"@) == requests[i].params && v.field("echo"@).text() == Some(
            decimal(echo + 1 + i),
        ),
{
    reveal_strlit("action");
    reveal_strlit("params");
    reveal_strlit("echo");
    assert("action"@[0] != "params"@[0]);
    assert("echo"@.len() != "action"@.len());
    assert("echo"@.len() != "params"@.len());
}

/// A message action sends its text to its target, once.
pub proof fn law_message_reaches_its_target(id: i64, text: Seq<char>)
    ensures
        ({
            let private = (ActionModel::SendPrivate { user_id: id, text }).requests();
            let group = (ActionModel::SendGroup { group_id: id, text }).requests();
            &&& private.len() == 1 && private[0].name == "send_private_msg"@
            &&& private[0].params.field("user_id"@).integer() == Some(id)
            &&& private[0].params.field("message"@).text() == Some(text)
            &&& group.len() == 1 && group[0].name == "send_group_msg"@
            &&& group[0].params.field("group_id"@).integer() == Some(id)
            &&& group[0].params.field("message"@).text() == Some(text)
        }),
{
    reveal_strlit("user_id");
    reveal_strlit("group_id");
    reveal_strlit("message");
    assert("user_id"@[0] != "message"@[0]);
    assert("group_id"@[0] != "message"@[0]);
}

/// Answering a login request gives the login: a good reply under the echo of
/// the request, with a nickname and an id.
pub proof fn law_login_request_is_answered(
    v: JsonModel,
    slots: SlotsModel,
    echo: int,
    nickname: Seq<char>,
    id: i64,
)
    requires
        v.has("echo"@),
        !v.has("post_type"@),
        v.field("retcode"@).integer() == Some(0i64),
        v.field("echo"@).text() == Some(decimal(echo + 1)),
        v.field("data"@).field("nickname"@).text() == Some(nickname),
        v.field("data"@).field("user_id"@).integer() == Some(id),
    ensures
        dispatched(v, ActionModel::GetLoginInfo.recorded(echo, slots)) == (
            Some(EventModel::Login { nickname, uin: decimal(id as int) }),
            SlotsModel { login: None, ..slots },
        ),
{
}

/// An event frame never touches the slots, and a frame that is neither event
/// nor reply leads to nothing.
pub proof fn law_only_replies_touch_slots(v: JsonModel, slots: SlotsModel)
    requires
        v.has("post_type"@) || !v.has("echo"@),
    ensures
        dispatched(v, slots).1 == slots,
        !v.has("post_type"@) ==> dispatched(v, slots).0 is None,
{
}

// ---- message texts ----

/// The text of two runs of segments is the texts of both, one after the
/// other.
pub proof fn law_segments_join(a: Seq<JsonModel>, b: Seq<JsonModel>)
    ensures
        segments_text(a + b) == segments_text(a) + segments_text(b),
    decreases b.len(),
{
    if b.len() == 0 {
        assert(a + b =~= a);
        assert(segments_text(a) + segments_text(b) =~= segments_text(a));
    } else {
        law_segments_join(a, b.drop_last());
        assert((a + b).drop_last() =~= a + b.drop_last());
        assert(segments_text(a + b) =~= segments_text(a) + segments_text(b));
    }
}

/// A segment of another type than `text` adds nothing, wherever it stands.
pub proof fn law_other_segments_are_dropped(
    before: Seq<JsonModel>,
    segment: JsonModel,
    after: Seq<JsonModel>,
)
    requires
        segment.field("type"@).text() != Some("text"@),
    ensures
        message_text_of(JsonModel::Array(before.push(segment) + after)) == message_text_of(
            JsonModel::Array(before + after),
        ),
{
    law_segments_join(before.push(segment), after);
    law_segments_join(before, after);
    assert(before.push(segment).drop_last() =~= before);
    assert(segment_text(segment) =~= Seq::<char>::empty());
    assert(segments_text(before.push(segment)) =~= segments_text(before));
}

/// A message sent as one text segment reads as the same message sent as a
/// plain string.
pub proof fn law_string_and_segment_agree(segment: JsonModel, text: Seq<char>)
    requires
        segment.field("type"@).text() == Some("text"@),
        segment.field("data"@).field("text"@).text() == Some(text),
    ensures
        message_text_of(JsonModel::Array(seq![segment])) == message_text_of(JsonModel::Text(text)),
{
    assert(seq![segment].drop_last() =~= Seq::<JsonModel>::empty());
    assert(segments_text(Seq::<JsonModel>::empty()) =~= Seq::<char>::empty());
    assert(segments_text(seq![segment]) =~= text);
}

/// An event whose fields cannot be read is no event: one without a sender's id
/// or a name, without a message that is text or segments, without a time, or
/// of a group without the group's id.
pub proof fn law_unreadable_event_is_dropped(v: JsonModel)
    requires
        ({
            ||| v.field("sender"@).field("user_id"@).integer() is None
            ||| sender_name_of(v.field("sender"@)) is None
            ||| body_of(v.field("message"@)) is None
            ||| v.field("time"@).integer() is None
            ||| v.field("message_type"@).text() == Some("group"@) && v.field(
                "group_id"@,
            ).integer() is None
        }),
    ensures
        event_of(v) is None,
{
    reveal_strlit("private");
    reveal_strlit("group");
    assert("private"@.len() != "group"@.len());
}

/// An event whose fields can all be read is delivered, with what they say.
pub proof fn law_readable_event_is_delivered(v: JsonModel)
    requires
        v.field("post_type"@).text() == Some("message"@),
        v.field("sender"@).field("user_id"@).integer() is Some,
        v.field("sender"@).field("nickname"@).text() is Some,
        body_of(v.field("message"@)) is Some,
        v.field("time"@).integer() is Some,
        v.field("message_type"@).text() == Some("private"@) || (v.field("message_type"@).text()
            == Some("group"@) && v.field("group_id"@).integer() is Some),
    ensures
        event_of(v) == Some(
            if v.field("message_type"@).text() == Some("private"@) {
                EventModel::PrivateMessage {
                    sender_id: v.field("sender"@).field("user_id"@).integer()->0,
                    sender_name: sender_name_of(v.field("sender"@))->0,
                    text: message_text_of(v.field("message"@)),
                    time: v.field("time"@).integer()->0,
                }
            } else {
                EventModel::GroupMessage {
                    group_id: v.field("group_id"@).integer()->0,
                    sender_id: v.field("sender"@).field("user_id"@).integer()->0,
                    sender_name: sender_name_of(v.field("sender"@))->0,
                    text: message_text_of(v.field("message"@)),
                    time: v.field("time"@).integer()->0,
                }
            },
        ),
{
}

/// Only message events give events, and each of the kind its frame names.
pub proof fn law_event_kind_follows_the_frame(v: JsonModel)
    ensures
        event_of(v) is Some ==> v.field("post_type"@).text() == Some("message"@),
        event_of(v) matches Some(e) ==> (e is PrivateMessage) == (v.field("message_type"@).text()
            == Some("private"@)),
        event_of(v) matches Some(e) ==> (e is GroupMessage) == (v.field("message_type"@).text()
            == Some("group"@)),
{
    reveal_strlit("private");
    reveal_strlit("group");
    assert("private"@.len() != "group"@.len());
}

// ---- the URL ----

/// The URL starts with the configured endpoint, ends with the token, and is
/// the endpoint itself when there is no token.
pub proof fn law_url_extends_the_endpoint(ws_url: Seq<char>, token: Seq<char>)
    ensures
        ws_url.is_prefix_of(authed(ws_url, token)),
        token.is_suffix_of(authed(ws_url, token)),
        token.len() == 0 <==> authed(ws_url, token) == ws_url,
{
    let url = authed(ws_url, token);
    if token.len() > 0 {
        assert(url.len() > ws_url.len());
        assert(url.subrange(0, ws_url.len() as int) =~= ws_url);
        assert(url.subrange(url.len() - token.len(), url.len() as int) =~= token);
    } else {
        assert(url.subrange(0, ws_url.len() as int) =~= ws_url);
        assert(url.subrange(url.len() - token.len(), url.len() as int) =~= token);
    }
}

// ---- reconnects and the queue ----

/// The waits grow, start at one second, and stay at ten from the fourth on.
pub proof fn law_waits_grow_to_ten(a: int, b: int)
    requires
        0 <= a <= b,
    ensures
        delay_after(0) == 1,
        1 <= delay_after(a) <= delay_after(b) <= 10,
        b >= 3 ==> delay_after(b) == 10,
{
}

/// Whether `queues` are the states of one queue that takes in `actions`, one
/// after the other.
pub open spec fn filling(queues: Seq<Handle>, actions: Seq<Action>) -> bool {
    &&& queues.len() == actions.len() + 1
    &&& forall|i: int|
        #![trigger actions[i]]
        0 <= i < actions.len() ==> queues[i].sent(queues[i + 1], actions[i])
}

/// Whether `queues` are the states of one queue that gives out `actions`, one
/// after the other.
pub open spec fn draining(queues: Seq<Handle>, actions: Seq<Action>) -> bool {
    &&& queues.len() == actions.len() + 1
    &&& forall|i: int|
        #![trigger actions[i]]
        0 <= i < actions.len() ==> queues[i].taken(queues[i + 1], actions[i])
}

/// What is sent waits behind what waits already, in the order it was sent.
pub proof fn law_sent_actions_wait_in_order(queues: Seq<Handle>, actions: Seq<Action>)
    requires
        filling(queues, actions),
        queues[0].live(),
    ensures
        queues.last().live(),
        queues.last().pending() == queues[0].pending() + actions,
    decreases actions.len(),
{
    if actions.len() == 0 {
        assert(queues[0].pending() + actions =~= queues[0].pending());
    } else {
        let n = actions.len() - 1;
        assert forall|i: int|
            #![trigger actions.drop_last()[i]]
            0 <= i < n implies queues.drop_last()[i].sent(
            queues.drop_last()[i + 1],
            actions.drop_last()[i],
        ) by {
            assert(actions[i] == actions.drop_last()[i]);
        }
        law_sent_actions_wait_in_order(queues.drop_last(), actions.drop_last());
        assert(queues[n].sent(queues[n + 1], actions[n]));
        assert(queues.drop_last().last() == queues[n]);
        assert(queues.last().pending() =~= queues[0].pending() + actions);
    }
}

/// What is taken is what waited longest, in order, and the rest still waits.
pub proof fn law_actions_are_taken_in_order(queues: Seq<Handle>, actions: Seq<Action>)
    requires
        draining(queues, actions),
    ensures
        actions.len() <= queues[0].pending().len(),
        actions == queues[0].pending().take(actions.len() as int),
        queues.last().pending() == queues[0].pending().skip(actions.len() as int),
    decreases actions.len(),
{
    let start = queues[0].pending();
    if actions.len() == 0 {
        assert(start.take(0) =~= actions);
        assert(start.skip(0) =~= start);
    } else {
        let n = actions.len() - 1;
        assert forall|i: int|
            #![trigger actions.drop_last()[i]]
            0 <= i < n implies queues.drop_last()[i].taken(
            queues.drop_last()[i + 1],
            actions.drop_last()[i],
        ) by {
            assert(actions[i] == actions.drop_last()[i]);
        }
        law_actions_are_taken_in_order(queues.drop_last(), actions.drop_last());
        assert(queues[n].taken(queues[n + 1], actions[n]));
        assert(queues.drop_last().last() == queues[n]);
        assert(actions =~= actions.drop_last().push(actions[n]));
        assert(start.take(n + 1) =~= start.take(n).push(start[n]));
        assert(start.skip(n).skip(1) =~= start.skip(n + 1));
    }
}

/// First in, first out: from an empty queue, the actions leave in the order
/// they were sent.
pub proof fn law_queue_keeps_order(
    filled: Seq<Handle>,
    sent: Seq<Action>,
    drained: Seq<Handle>,
    taken: Seq<Action>,
)
    requires
        filling(filled, sent),
        filled[0].live(),
        filled[0].pending().len() == 0,
        draining(drained, taken),
        drained[0] == filled.last(),
    ensures
        taken.len() <= sent.len(),
        taken == sent.take(taken.len() as int),
{
    law_sent_actions_wait_in_order(filled, sent);
    law_actions_are_taken_in_order(drained, taken);
    assert(filled[0].pending() + sent =~= sent);
}

} // verus!
