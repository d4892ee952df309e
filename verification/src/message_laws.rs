//! Laws of what comes in: the connection's URL, message texts, events, the
//! roster and replies, stated over the fields of the frames.

use vstd::prelude::*;

use crate::decimal::decimal;
use crate::json::JsonModel;
use crate::onebot::{
    authed, event_model, event_of, failure_model, failure_of, message_text_of, peer_models,
    peer_of, peers_of, reply_of, roster_model, text_model, Event, EventModel, Peer, PeerModel,
    ReplySlots, SlotsModel,
};
use crate::onebot_laws::law_segments_join;

verus! {

// ---- the URL ----

/// With a token the URL is the endpoint, one separator, `access_token=` and
/// the token, with nothing in between. The separator opens the query of an
/// endpoint that has none and continues one that is there, so the URL always
/// has a question mark.
pub proof fn law_token_is_a_query_parameter(ws_url: Seq<char>, token: Seq<char>)
    requires
        token.len() > 0,
    ensures
        authed(ws_url, token).len() == ws_url.len() + 14 + token.len(),
        authed(ws_url, token).take(ws_url.len() as int) == ws_url,
        authed(ws_url, token).subrange(ws_url.len() as int + 1, ws_url.len() as int + 14)
            == seq!['a', 'c', 'c', 'e', 's', 's', '_', 't', 'o', 'k', 'e', 'n', '='],
        authed(ws_url, token).skip(ws_url.len() as int + 14) == token,
        (forall|i: int| 0 <= i < ws_url.len() ==> #[trigger] ws_url[i] != '?') ==> authed(
            ws_url,
            token,
        )[ws_url.len() as int] == '?',
        forall|i: int|
            0 <= i < ws_url.len() && #[trigger] ws_url[i] == '?' ==> authed(
                ws_url,
                token,
            )[ws_url.len() as int] == '&',
        authed(ws_url, token).contains('?'),
{
    reveal_strlit("access_token=");
    let url = authed(ws_url, token);
    let n = ws_url.len() as int;
    assert(url.take(n) =~= ws_url);
    assert(url.subrange(n + 1, n + 14) =~= seq![
        'a', 'c', 'c', 'e', 's', 's', '_', 't', 'o', 'k', 'e', 'n', '=',
    ]);
    assert(url.skip(n + 14) =~= token);
    if forall|i: int| 0 <= i < n ==> #[trigger] ws_url[i] != '?' {
        assert(!ws_url.contains('?'));
        assert(url[n] == '?');
    } else {
        let i = choose|i: int| 0 <= i < n && #[trigger] ws_url[i] == '?';
        assert(ws_url.contains('?'));
        assert(url[i] == '?');
    }
}

/// Without a token the URL is the endpoint.
pub proof fn law_url_without_a_token_is_the_endpoint(ws_url: Seq<char>, token: Seq<char>)
    requires
        token.len() == 0,
    ensures
        authed(ws_url, token) == ws_url,
{
}

// ---- message texts ----

/// A message that is a plain string is that string, of any length.
pub proof fn law_string_message_is_whole(text: Seq<char>)
    ensures
        message_text_of(JsonModel::Text(text)) == text,
{
}

/// One more segment adds its text when it is a `text` segment, all of it and
/// at the end, and nothing when it is not; a message without segments is
/// empty. So the text is as long as the texts of all `text` segments together.
pub proof fn law_each_segment_adds_its_text(segments: Seq<JsonModel>, segment: JsonModel)
    ensures
        message_text_of(JsonModel::Array(Seq::empty())).len() == 0,
        segment.field("type"@) == JsonModel::Text("text"@) ==> message_text_of(
            JsonModel::Array(segments.push(segment)),
        ) == message_text_of(JsonModel::Array(segments)) + segment.field("data"@).field(
            "text"@,
        ).text_or_empty(),
        segment.field("type"@) != JsonModel::Text("text"@) ==> message_text_of(
            JsonModel::Array(segments.push(segment)),
        ) == message_text_of(JsonModel::Array(segments)),
{
    assert(segments.push(segment).drop_last() =~= segments);
    assert(segments.push(segment).last() == segment);
    let before = message_text_of(JsonModel::Array(segments));
    assert(before + Seq::<char>::empty() =~= before);
}

/// The text of a message of segments is the texts of its parts, one after the
/// other, wherever it is parted.
pub proof fn law_message_parts_join(a: Seq<JsonModel>, b: Seq<JsonModel>)
    ensures
        message_text_of(JsonModel::Array(a + b)) == message_text_of(JsonModel::Array(a))
            + message_text_of(JsonModel::Array(b)),
        message_text_of(JsonModel::Array(a + b)).len() == message_text_of(
            JsonModel::Array(a),
        ).len() + message_text_of(JsonModel::Array(b)).len(),
{
    law_segments_join(a, b);
}

/// What is neither a string nor a list has no text.
pub proof fn law_other_message_is_empty(m: JsonModel)
    requires
        !(m is Text),
        !(m is Array),
    ensures
        message_text_of(m).len() == 0,
{
}

// ---- events ----

/// A frame gives an event exactly when it is a message of a known type and
/// every field the event needs can be read: the sender's id, a name (a card
/// that is not empty, or the nickname), the message, the time, and the group
/// of a group message.
pub proof fn law_event_needs_its_fields(v: JsonModel)
    ensures
        event_of(v) is Some <==> {
            let sender = v.field("sender"@);
            &&& v.field("post_type"@) == JsonModel::Text("message"@)
            &&& sender.field("user_id"@) is Number && sender.field("user_id"@)->Number_0 is Some
            &&& sender.field("nickname"@) is Text || (sender.field("card"@) is Text && sender.field(
                "card"@,
            )->Text_0.len() > 0)
            &&& v.field("message"@) is Text || v.field("message"@) is Array
            &&& v.field("time"@) is Number && v.field("time"@)->Number_0 is Some
            &&& {
                ||| v.field("message_type"@) == JsonModel::Text("private"@)
                ||| v.field("message_type"@) == JsonModel::Text("group"@) && v.field(
                    "group_id"@,
                ) is Number && v.field("group_id"@)->Number_0 is Some
            }
        },
{
    reveal_strlit("private");
    reveal_strlit("group");
    assert("private"@.len() != "group"@.len());
}

/// Whether a name is the one a sender goes by: the card when it is a text that
/// is not empty, and else the nickname.
pub open spec fn names_the_sender(name: Seq<char>, sender: JsonModel) -> bool {
    if sender.field("card"@) is Text && sender.field("card"@)->Text_0.len() > 0 {
        sender.field("card"@) == JsonModel::Text(name)
    } else {
        sender.field("nickname"@) == JsonModel::Text(name)
    }
}

/// A private message event says who sent what and when, as the frame has it.
pub proof fn law_private_event_says_the_frame(v: JsonModel)
    requires
        event_of(v) is Some,
        v.field("message_type"@) == JsonModel::Text("private"@),
    ensures
        event_of(v)->0 matches EventModel::PrivateMessage { sender_id, sender_name, text, time } && {
            &&& v.field("sender"@).field("user_id"@) == JsonModel::Number(Some(sender_id))
            &&& v.field("time"@) == JsonModel::Number(Some(time))
            &&& text == message_text_of(v.field("message"@))
            &&& names_the_sender(sender_name, v.field("sender"@))
        },
{
    reveal_strlit("private");
    reveal_strlit("group");
    assert("private"@.len() != "group"@.len());
}

/// A group message event says in which group who sent what and when, as the
/// frame has it.
pub proof fn law_group_event_says_the_frame(v: JsonModel)
    requires
        event_of(v) is Some,
        v.field("message_type"@) == JsonModel::Text("group"@),
    ensures
        event_of(v)->0 matches EventModel::GroupMessage {
            group_id,
            sender_id,
            sender_name,
            text,
            time,
        } && {
            &&& v.field("group_id"@) == JsonModel::Number(Some(group_id))
            &&& v.field("sender"@).field("user_id"@) == JsonModel::Number(Some(sender_id))
            &&& v.field("time"@) == JsonModel::Number(Some(time))
            &&& text == message_text_of(v.field("message"@))
            &&& names_the_sender(sender_name, v.field("sender"@))
        },
{
    reveal_strlit("private");
    reveal_strlit("group");
    assert("private"@.len() != "group"@.len());
}

/// An event says what its fields hold.
pub proof fn law_event_says_its_fields(event: Event)
    ensures
        event_model(Some(event)) == Some(event@),
        event_model(None) is None,
        event matches Event::Connected ==> event@ is Connected,
        event matches Event::Login { nickname, uin } ==> event@ == (EventModel::Login {
            nickname: nickname@,
            uin: uin@,
        }),
        event matches Event::PrivateMessage { sender_id, sender_name, text, time } ==> event@ == (
        EventModel::PrivateMessage { sender_id, sender_name: sender_name@, text: text@, time }),
        event matches Event::GroupMessage { group_id, sender_id, sender_name, text, time }
            ==> event@ == (EventModel::GroupMessage {
            group_id,
            sender_id,
            sender_name: sender_name@,
            text: text@,
            time,
        }),
        event matches Event::Roster { peers } ==> event@ == (EventModel::Roster {
            peers: peer_models(peers@),
        }),
{
}

// ---- the roster ----

/// A friend entry whose `user_id` is an integer, any of 64 bits, is a peer
/// with exactly that id; one whose `user_id` holds no integer is none. It goes
/// by its remark, or its nickname where there is no remark.
pub proof fn law_friend_entry_keeps_its_id(e: JsonModel)
    ensures
        peer_of(e, false) is None <==> !(e.field("user_id"@) is Number && e.field(
            "user_id"@,
        )->Number_0 is Some),
        peer_of(e, false) matches Some(peer) ==> {
            &&& e.field("user_id"@) == JsonModel::Number(Some(peer.id))
            &&& !peer.is_group
            &&& e.field("remark"@).text_or_empty().len() > 0 ==> peer.name == e.field(
                "remark"@,
            ).text_or_empty()
            &&& e.field("remark"@).text_or_empty().len() == 0 ==> peer.name == e.field(
                "nickname"@,
            ).text_or_empty()
        },
{
}

/// A group entry whose `group_id` is an integer, any of 64 bits, is a peer
/// with exactly that id; one whose `group_id` holds no integer is none. It
/// goes by its group name, an empty one too.
pub proof fn law_group_entry_keeps_its_id(e: JsonModel)
    ensures
        peer_of(e, true) is None <==> !(e.field("group_id"@) is Number && e.field(
            "group_id"@,
        )->Number_0 is Some),
        peer_of(e, true) matches Some(peer) ==> {
            &&& e.field("group_id"@) == JsonModel::Number(Some(peer.id))
            &&& peer.is_group
            &&& peer.name == e.field("group_name"@).text_or_empty()
        },
{
}

/// A list gives the peers of its parts, one after the other: one more entry
/// adds its peer at the end, or nothing when it is none.
pub proof fn law_each_entry_adds_its_peer(entries: Seq<JsonModel>, entry: JsonModel, is_group: bool)
    ensures
        peers_of(Seq::empty(), is_group).len() == 0,
        peer_of(entry, is_group) matches Some(peer) ==> peers_of(entries.push(entry), is_group)
            == peers_of(entries, is_group).push(peer),
        peer_of(entry, is_group) is None ==> peers_of(entries.push(entry), is_group) == peers_of(
            entries,
            is_group,
        ),
{
    assert(entries.push(entry).drop_last() =~= entries);
    assert(entries.push(entry).last() == entry);
}

/// Every entry of a list whose id field holds an integer is in the list of
/// peers, under that very id.
pub proof fn law_every_id_is_listed(entries: Seq<JsonModel>, is_group: bool, i: int, id: i64)
    requires
        0 <= i < entries.len(),
        entries[i].field(
            if is_group {
                "group_id"@
            } else {
                "user_id"@
            },
        ) == JsonModel::Number(Some(id)),
    ensures
        exists|k: int|
            0 <= k < peers_of(entries, is_group).len() && (#[trigger] peers_of(
                entries,
                is_group,
            )[k]).id == id && peers_of(entries, is_group)[k].is_group == is_group,
    decreases entries.len(),
{
    let peers = peers_of(entries, is_group);
    let before = peers_of(entries.drop_last(), is_group);
    if i == entries.len() - 1 {
        assert(peers[peers.len() - 1].id == id);
    } else {
        law_every_id_is_listed(entries.drop_last(), is_group, i, id);
        let k = choose|k: int|
            0 <= k < before.len() && (#[trigger] before[k]).id == id && before[k].is_group
                == is_group;
        assert(peers[k] == before[k]);
    }
}

/// Every peer of a list has the id of one of its entries.
pub proof fn law_every_peer_has_an_entry(entries: Seq<JsonModel>, is_group: bool, k: int)
    requires
        0 <= k < peers_of(entries, is_group).len(),
    ensures
        exists|i: int|
            0 <= i < entries.len() && (#[trigger] entries[i]).field(
                if is_group {
                    "group_id"@
                } else {
                    "user_id"@
                },
            ) == JsonModel::Number(Some(peers_of(entries, is_group)[k].id)),
    decreases entries.len(),
{
    let peers = peers_of(entries, is_group);
    let before = peers_of(entries.drop_last(), is_group);
    let name = if is_group {
        "group_id"@
    } else {
        "user_id"@
    };
    if k < before.len() {
        law_every_peer_has_an_entry(entries.drop_last(), is_group, k);
        let i = choose|i: int|
            0 <= i < entries.len() - 1 && (#[trigger] entries.drop_last()[i]).field(name)
                == JsonModel::Number(Some(before[k].id));
        assert(entries[i].field(name) == JsonModel::Number(Some(peers[k].id)));
    } else {
        assert(entries[entries.len() - 1].field(name) == JsonModel::Number(Some(peers[k].id)));
    }
}

/// The answer that completes the roster brings every friend and every group
/// that it names, whatever their ids, into the one roster event.
pub proof fn law_completing_reply_brings_every_id(
    v: JsonModel,
    slots: SlotsModel,
    entries: Seq<JsonModel>,
    i: int,
    id: i64,
    is_group: bool,
)
    requires
        v.field("retcode"@) == JsonModel::Number(Some(0i64)),
        v.field("echo"@) is Text,
        slots.login != Some(v.field("echo"@)->Text_0),
        v.field("data"@) == JsonModel::Array(entries),
        0 <= i < entries.len(),
        is_group ==> slots.groups == Some(v.field("echo"@)->Text_0) && slots.friends != Some(
            v.field("echo"@)->Text_0,
        ) && slots.roster_friends is Some && entries[i].field("group_id"@) == JsonModel::Number(
            Some(id),
        ),
        !is_group ==> slots.friends == Some(v.field("echo"@)->Text_0) && slots.roster_groups is Some
            && entries[i].field("user_id"@) == JsonModel::Number(Some(id)),
    ensures
        reply_of(v, slots).0 matches Some(EventModel::Roster { peers }) && exists|k: int|
            0 <= k < peers.len() && (#[trigger] peers[k]).id == id && peers[k].is_group == is_group,
{
    law_every_id_is_listed(entries, is_group, i, id);
    let half = peers_of(entries, is_group);
    let k = choose|k: int|
        0 <= k < half.len() && (#[trigger] half[k]).id == id && half[k].is_group == is_group;
    let peers = reply_of(v, slots).0->0->peers;
    if is_group {
        let friends = slots.roster_friends->0;
        assert(peers == friends + half);
        assert(peers[friends.len() + k] == half[k]);
    } else {
        assert(peers == half + slots.roster_groups->0);
        assert(peers[k] == half[k]);
    }
}

/// A peer says what its fields hold, and a list of peers what each says.
pub proof fn law_peer_says_its_fields(peer: Peer, peers: Seq<Peer>, i: int)
    ensures
        peer@ == (PeerModel { id: peer.id, name: peer.name@, is_group: peer.is_group }),
        peer_models(peers).len() == peers.len(),
        0 <= i < peers.len() ==> peer_models(peers)[i] == peers[i]@,
{
}

// ---- replies ----

/// A reply fails exactly when its `retcode` is not 0, a missing one too. What
/// is logged is that code, -1 where there is none, and the wording, empty
/// where there is none.
pub proof fn law_failure_is_the_retcode(v: JsonModel)
    ensures
        failure_of(v) is None <==> v.field("retcode"@) == JsonModel::Number(Some(0i64)),
        failure_of(v) matches Some((code, wording)) ==> {
            &&& v.field("retcode"@) == JsonModel::Number(Some(code)) || (code == -1 && !(v.field(
                "retcode"@,
            ) is Number && v.field("retcode"@)->Number_0 is Some))
            &&& v.field("wording"@) == JsonModel::Text(wording) || (wording.len() == 0 && !(v.field(
                "wording"@,
            ) is Text))
        },
{
}

/// The failure that was found says what its parts hold.
pub proof fn law_failure_says_its_parts(code: i64, wording: String)
    ensures
        failure_model(Some((code, wording))) == Some((code, wording@)),
        failure_model(None) is None,
{
}

/// The good answer to a login request consumes the request and nothing else.
/// It gives the login, under the nickname and the id that it holds, and no
/// event where one of the two is missing.
pub proof fn law_login_answer_gives_the_login(v: JsonModel, slots: SlotsModel)
    requires
        v.field("retcode"@) == JsonModel::Number(Some(0i64)),
        v.field("echo"@) is Text,
        slots.login == Some(v.field("echo"@)->Text_0),
    ensures
        reply_of(v, slots).1.login is None,
        reply_of(v, slots).1.friends == slots.friends,
        reply_of(v, slots).1.groups == slots.groups,
        reply_of(v, slots).1.roster_friends == slots.roster_friends,
        reply_of(v, slots).1.roster_groups == slots.roster_groups,
        reply_of(v, slots).0 is Some <==> v.field("data"@).field("nickname"@) is Text && v.field(
            "data"@,
        ).field("user_id"@) is Number && v.field("data"@).field("user_id"@)->Number_0 is Some,
        reply_of(v, slots).0 matches Some(event) ==> (event matches EventModel::Login {
            nickname,
            uin,
        } && v.field("data"@).field("nickname"@) == JsonModel::Text(nickname) && uin == decimal(
            v.field("data"@).field("user_id"@)->Number_0->0 as int,
        )),
{
}

/// The good answer to the friend list request consumes the request. With the
/// groups in, it completes the roster: the friends, then the groups, once.
/// Without them the friends wait. An answer that is no list gives nothing.
pub proof fn law_friend_answer_fills_its_half(v: JsonModel, slots: SlotsModel)
    requires
        v.field("retcode"@) == JsonModel::Number(Some(0i64)),
        v.field("echo"@) is Text,
        slots.login != Some(v.field("echo"@)->Text_0),
        slots.friends == Some(v.field("echo"@)->Text_0),
    ensures
        ({
            let (event, after) = reply_of(v, slots);
            &&& after.login == slots.login && after.groups == slots.groups
            &&& after.friends is None
            &&& v.field("data"@) matches JsonModel::Array(entries) ==> match slots.roster_groups {
                Some(groups) => {
                    &&& event == Some(
                        EventModel::Roster { peers: peers_of(entries, false) + groups },
                    )
                    &&& after.roster_friends is None && after.roster_groups is None
                },
                None => {
                    &&& event is None
                    &&& after.roster_friends == Some(peers_of(entries, false))
                    &&& after.roster_groups is None
                },
            }
            &&& !(v.field("data"@) is Array) ==> event is None && after.roster_friends
                == slots.roster_friends && after.roster_groups == slots.roster_groups
        }),
{
}

/// The good answer to the group list request consumes the request. With the
/// friends in, it completes the roster: the friends, then the groups, once.
/// Without them the groups wait. An answer that is no list gives nothing.
pub proof fn law_group_answer_fills_its_half(v: JsonModel, slots: SlotsModel)
    requires
        v.field("retcode"@) == JsonModel::Number(Some(0i64)),
        v.field("echo"@) is Text,
        slots.login != Some(v.field("echo"@)->Text_0),
        slots.friends != Some(v.field("echo"@)->Text_0),
        slots.groups == Some(v.field("echo"@)->Text_0),
    ensures
        ({
            let (event, after) = reply_of(v, slots);
            &&& after.login == slots.login && after.friends == slots.friends
            &&& after.groups is None
            &&& v.field("data"@) matches JsonModel::Array(entries) ==> match slots.roster_friends {
                Some(friends) => {
                    &&& event == Some(
                        EventModel::Roster { peers: friends + peers_of(entries, true) },
                    )
                    &&& after.roster_friends is None && after.roster_groups is None
                },
                None => {
                    &&& event is None
                    &&& after.roster_groups == Some(peers_of(entries, true))
                    &&& after.roster_friends is None
                },
            }
            &&& !(v.field("data"@) is Array) ==> event is None && after.roster_friends
                == slots.roster_friends && after.roster_groups == slots.roster_groups
        }),
{
}

/// A reply that failed, that has no echo, or whose echo is none of the three
/// that are waited for, gives no event and leaves every slot alone.
pub proof fn law_other_replies_are_passed_over(v: JsonModel, slots: SlotsModel)
    requires
        ({
            ||| v.field("retcode"@) != JsonModel::Number(Some(0i64))
            ||| !(v.field("echo"@) is Text)
            ||| slots.login != Some(v.field("echo"@)->Text_0) && slots.friends != Some(
                v.field("echo"@)->Text_0,
            ) && slots.groups != Some(v.field("echo"@)->Text_0)
        }),
    ensures
        reply_of(v, slots).0 is None,
        reply_of(v, slots).1 == slots,
{
}

/// Slots say what their fields hold, and fresh ones wait for nothing.
pub proof fn law_slots_say_their_fields(slots: ReplySlots, text: String, peers: Vec<Peer>)
    ensures
        slots@.login == text_model(slots.login),
        slots@.friends == text_model(slots.friends),
        slots@.groups == text_model(slots.groups),
        slots@.roster_friends == roster_model(slots.roster_friends),
        slots@.roster_groups == roster_model(slots.roster_groups),
        text_model(Some(text)) == Some(text@),
        text_model(None) is None,
        roster_model(Some(peers)) == Some(peer_models(peers@)),
        roster_model(None) is None,
        SlotsModel::empty().login is None,
        SlotsModel::empty().friends is None,
        SlotsModel::empty().groups is None,
        SlotsModel::empty().roster_friends is None,
        SlotsModel::empty().roster_groups is None,
{
}

} // verus!
