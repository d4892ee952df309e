//! Laws of what goes out and of the connection: the requests of an action,
//! the frames that carry them, what a frame that comes in leads to, the waits
//! between connections and the action queue.

use vstd::prelude::*;

use crate::decimal::decimal;
use crate::json::{json_text, json_value, JsonModel};
use crate::onebot::{
    event_model, event_of, failure_model, failure_of, reply_of, SlotsModel,
};
use crate::transport::{
    carry, delay_after, dispatched, frames, issued, logged, Action, ActionModel, Client, Handle,
    Input, Outcome, Request, Session, Step,
};

verus! {

// ---- actions ----

/// A private message is one `send_private_msg` request whose parameters are
/// the user's id and the text, both as given, and nothing else.
pub proof fn law_private_message_is_one_request(user_id: i64, text: Seq<char>, name: Seq<char>)
    ensures
        ({
            let requests = (ActionModel::SendPrivate { user_id, text }).requests();
            &&& requests.len() == 1
            &&& requests[0].name == "send_private_msg"@
            &&& requests[0].params.field("user_id"@) == JsonModel::Number(Some(user_id))
            &&& requests[0].params.field("message"@) == JsonModel::Text(text)
            &&& requests[0].params.has(name) <==> name == "user_id"@ || name == "message"@
        }),
{
    reveal_strlit("user_id");
    reveal_strlit("message");
    assert("user_id"@[0] != "message"@[0]);
}

/// A group message is one `send_group_msg` request whose parameters are the
/// group's id and the text, both as given, and nothing else.
pub proof fn law_group_message_is_one_request(group_id: i64, text: Seq<char>, name: Seq<char>)
    ensures
        ({
            let requests = (ActionModel::SendGroup { group_id, text }).requests();
            &&& requests.len() == 1
            &&& requests[0].name == "send_group_msg"@
            &&& requests[0].params.field("group_id"@) == JsonModel::Number(Some(group_id))
            &&& requests[0].params.field("message"@) == JsonModel::Text(text)
            &&& requests[0].params.has(name) <==> name == "group_id"@ || name == "message"@
        }),
{
    reveal_strlit("group_id");
    reveal_strlit("message");
    assert("group_id"@[0] != "message"@[0]);
}

/// Asking who we are is one request, and asking for the roster is two: the
/// friends, then the groups. None of them has parameters.
pub proof fn law_questions_have_no_parameters(name: Seq<char>)
    ensures
        ({
            let login = ActionModel::GetLoginInfo.requests();
            let roster = ActionModel::GetRoster.requests();
            &&& login.len() == 1 && login[0].name == "get_login_info"@
            &&& roster.len() == 2 && roster[0].name == "get_friend_list"@ && roster[1].name
                == "get_group_list"@
            &&& login[0].params is Object && !login[0].params.has(name)
            &&& roster[0].params is Object && !roster[0].params.has(name)
            &&& roster[1].params is Object && !roster[1].params.has(name)
        }),
{
}

/// An action waits for the answers it needs, each under the echo of its own
/// request, and for no others: a message waits for none, a login request for
/// one, a roster request for two. What was waited for besides stays.
pub proof fn law_action_waits_for_its_answers(
    id: i64,
    text: Seq<char>,
    echo: int,
    slots: SlotsModel,
)
    ensures
        (ActionModel::SendPrivate { user_id: id, text }).recorded(echo, slots) == slots,
        (ActionModel::SendGroup { group_id: id, text }).recorded(echo, slots) == slots,
        ({
            let after = ActionModel::GetLoginInfo.recorded(echo, slots);
            &&& after.login == Some(decimal(echo + 1))
            &&& after.friends == slots.friends && after.groups == slots.groups
            &&& after.roster_friends == slots.roster_friends
            &&& after.roster_groups == slots.roster_groups
        }),
        ({
            let after = ActionModel::GetRoster.recorded(echo, slots);
            &&& after.friends == Some(decimal(echo + 1))
            &&& after.groups == Some(decimal(echo + 2))
            &&& after.login == slots.login
            &&& after.roster_friends == slots.roster_friends
            &&& after.roster_groups == slots.roster_groups
        }),
{
}

/// An action says what its fields hold.
pub proof fn law_action_says_its_fields(action: Action)
    ensures
        action matches Action::SendPrivate { user_id, text } ==> action@ == (
        ActionModel::SendPrivate { user_id, text: text@ }),
        action matches Action::SendGroup { group_id, text } ==> action@ == (
        ActionModel::SendGroup { group_id, text: text@ }),
        action is GetLoginInfo ==> action@ is GetLoginInfo,
        action is GetRoster ==> action@ is GetRoster,
{
}

// ---- frames ----

/// Each request becomes one frame, in order, that holds the request's name,
/// its parameters and the number of the request, counted over all requests,
/// and nothing else.
pub proof fn law_frame_holds_its_request(
    requests: Seq<Request>,
    echo: int,
    i: int,
    name: Seq<char>,
)
    requires
        0 <= i < requests.len(),
    ensures
        frames(requests, echo).len() == requests.len(),
        frames(requests, echo)[i].field("action"@) == JsonModel::Text(requests[i].name),
        frames(requests, echo)[i].field("params"@) == requests[i].params,
        frames(requests, echo)[i].field("echo"@) == JsonModel::Text(decimal(echo + 1 + i)),
        frames(requests, echo)[i].has(name) <==> name == "action"@ || name == "params"@ || name
            == "echo"@,
{
    reveal_strlit("action");
    reveal_strlit("params");
    reveal_strlit("echo");
    assert("action"@[0] != "params"@[0]);
    assert("echo"@.len() != "action"@.len());
    assert("echo"@.len() != "params"@.len());
}

/// The texts that go out are those of the frames: as many, in order, each the
/// JSON text of its frame and each reading back as it.
pub proof fn law_texts_are_the_frames(texts: Seq<String>, requests: Seq<Request>, echo: int, i: int)
    requires
        carry(texts, frames(requests, echo)),
        0 <= i < requests.len(),
    ensures
        texts.len() == requests.len(),
        texts[i]@ == json_text(frames(requests, echo)[i]),
        json_value(texts[i]@) == Some(frames(requests, echo)[i]),
{
}

/// A frame with a post type is an event and touches no slot. One with an echo
/// is a reply. Any other leads to nothing.
pub proof fn law_frame_is_an_event_or_a_reply(v: JsonModel, slots: SlotsModel)
    ensures
        v.has("post_type"@) ==> dispatched(v, slots).0 == event_of(v) && dispatched(v, slots).1
            == slots && logged(v) is None,
        !v.has("post_type"@) && v.has("echo"@) ==> dispatched(v, slots).0 == reply_of(v, slots).0
            && dispatched(v, slots).1 == reply_of(v, slots).1 && logged(v) == failure_of(v),
        !v.has("post_type"@) && !v.has("echo"@) ==> dispatched(v, slots).0 is None && dispatched(
            v,
            slots,
        ).1 == slots && logged(v) is None,
{
}

/// Only an action out of the queue makes a session send, and it sends the
/// requests of that action.
pub proof fn law_only_actions_are_sent(input: Input)
    ensures
        input matches Input::Queued(action) ==> Session::asked(input) == action@.requests(),
        !(input is Queued) ==> Session::asked(input).len() == 0,
{
}

/// A session is over exactly when its socket or its queue is closed, and it
/// finds fault with a frame exactly when that is not JSON; neither touches a
/// slot. It sends only what an action asks for, and delivers only what a frame
/// leads to.
pub proof fn law_session_does_what_the_input_asks(
    before: Session,
    after: Session,
    input: Input,
    out: Step,
)
    requires
        before.steps(after, input, out),
    ensures
        out is Stop <==> input is Closed || input is QueueClosed,
        out is BadFrame <==> (input matches Input::Text(t) && json_value(t@) is None),
        out is Stop || out is BadFrame || input is OtherFrame ==> after.slots@ == before.slots@
            && after.echo == before.echo,
        input matches Input::Text(t) ==> (json_value(t@) matches Some(v) ==> (
        out matches Step::Continue { send, event, failed } && send@.len() == 0 && event_model(event)
            == dispatched(v, before.slots@).0 && after.slots@ == dispatched(v, before.slots@).1
            && failure_model(failed) == logged(v) && after.echo == before.echo)),
        input matches Input::Queued(action) ==> (out matches Step::Continue {
            send,
            event,
            failed,
        } && event is None && failed is None && send@.len() == action@.requests().len()
            && after.echo == before.echo + action@.requests().len() && after.slots@
            == action@.recorded(before.echo as int, before.slots@)),
        input is OtherFrame ==> (out matches Step::Continue { send, event, failed } && send@.len()
            == 0 && event is None && failed is None),
{
}

/// A client ends its session exactly when the socket or the queue is closed,
/// waits one second then, and counts its requests on over all connections. It
/// delivers only what a frame leads to and sends only what an action asks for.
pub proof fn law_client_does_what_happened_asks(
    before: Client,
    after: Client,
    input: Input,
    out: Outcome,
)
    requires
        before.slots() is Some,
        before.acts(after, input, out),
    ensures
        out is Ended <==> input is Closed || input is QueueClosed,
        out matches Outcome::Ended { seconds } ==> seconds == 1 && after.slots() is None,
        out is BadFrame <==> (input matches Input::Text(t) && json_value(t@) is None),
        !(input is Queued) ==> after.requests() == before.requests(),
        input matches Input::Text(t) ==> (json_value(t@) matches Some(v) ==> (
        out matches Outcome::Continue { send, event, failed } && send@.len() == 0 && event_model(
            event,
        ) == dispatched(v, before.slots()->0).0 && after.slots() == Some(
            dispatched(v, before.slots()->0).1,
        ) && failure_model(failed) == logged(v))),
        input matches Input::Queued(action) ==> (out matches Outcome::Continue {
            send,
            event,
            failed,
        } && event is None && failed is None && send@.len() == action@.requests().len()
            && after.requests() == before.requests() + action@.requests().len()),
        input is OtherFrame ==> out is Continue && after.slots() == before.slots(),
{
}

/// A slot that waits does so for the number of a request within the range, and
/// every such number may be waited for.
pub proof fn law_issued_echo_is_a_number_in_range(since: int, upto: int, k: int, slot: Seq<char>)
    ensures
        since < k <= upto ==> issued(Some(decimal(k)), since, upto),
        issued(Some(slot), since, upto) ==> exists|n: int|
            since < n <= upto && slot == #[trigger] decimal(n),
        issued(None, since, upto),
{
}

// ---- reconnects and the queue ----

/// The first wait is one second, the second two, the third five, and every
/// later one ten.
pub proof fn law_waits_are_one_two_five_ten(waits: int)
    requires
        waits >= 0,
    ensures
        waits == 0 ==> delay_after(waits) == 1,
        waits == 1 ==> delay_after(waits) == 2,
        waits == 2 ==> delay_after(waits) == 5,
        waits >= 3 ==> delay_after(waits) == 10,
{
}

/// An action that is sent while the transport is there waits last, with all
/// that waited before it in front. Once the transport is gone it is dropped,
/// and what waits stays as it was.
pub proof fn law_sent_action_waits_last(before: Handle, after: Handle, action: Action, i: int)
    requires
        before.sent(after, action),
    ensures
        after.live() == before.live(),
        before.live() ==> after.pending().len() == before.pending().len() + 1
            && after.pending().last() == action,
        before.live() && 0 <= i < before.pending().len() ==> after.pending()[i]
            == before.pending()[i],
        !before.live() ==> after.pending() == before.pending(),
{
}

/// The action that is taken is the one that waited first, and all behind it
/// move up by one.
pub proof fn law_taken_action_waited_first(before: Handle, after: Handle, action: Action, i: int)
    requires
        before.taken(after, action),
    ensures
        after.live() == before.live(),
        before.pending().len() == after.pending().len() + 1,
        before.pending()[0] == action,
        0 <= i < after.pending().len() ==> after.pending()[i] == before.pending()[i + 1],
{
}

} // verus!
