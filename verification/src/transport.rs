//! The decisions of the OneBot v11 forward-WS client: which frames an action
//! becomes, what a session does with each thing that happens to it, and how
//! long to wait before connecting again. Sockets, threads and clocks stay
//! with the caller.

use std::collections::VecDeque;

use vstd::prelude::*;

use crate::decimal::{decimal, i64_to_string, law_decimal_distinct};
use crate::json::{
    field_models, fields_map, json_text, json_value, parse_json, write_json, Json, JsonModel,
    MAX_DEPTH,
};
use crate::onebot::{
    event_model, event_of, failure_model, failure_of, parse_event, parse_reply, reply_failure,
    reply_of, Event, EventModel, ReplySlots, SlotsModel,
};

verus! {

// ---- actions ----

/// Action accepted on [`Handle::send`]; becomes one OneBot v11 frame or two.
#[derive(Debug)]
pub enum Action {
    /// `send_private_msg`
    SendPrivate { user_id: i64, text: String },
    /// `send_group_msg`
    SendGroup { group_id: i64, text: String },
    /// `get_login_info`
    GetLoginInfo,
    /// expands to a `get_friend_list` + `get_group_list` frame pair; the
    /// merged reply becomes [`Event::Roster`].
    GetRoster,
}

/// What an [`Action`] says.
#[verifier::ext_equal]
pub enum ActionModel {
    SendPrivate { user_id: i64, text: Seq<char> },
    SendGroup { group_id: i64, text: Seq<char> },
    GetLoginInfo,
    GetRoster,
}

impl View for Action {
    type V = ActionModel;

    open spec fn view(&self) -> ActionModel {
        match *self {
            Action::SendPrivate { user_id, text } => ActionModel::SendPrivate {
                user_id,
                text: text@,
            },
            Action::SendGroup { group_id, text } => ActionModel::SendGroup {
                group_id,
                text: text@,
            },
            Action::GetLoginInfo => ActionModel::GetLoginInfo,
            Action::GetRoster => ActionModel::GetRoster,
        }
    }
}

/// One API call: its name and its parameters.
#[verifier::ext_equal]
pub struct Request {
    pub name: Seq<char>,
    pub params: JsonModel,
}

/// An object without fields.
pub open spec fn no_params() -> JsonModel {
    JsonModel::Object(Map::empty())
}

/// The parameters of a message to one target.
pub open spec fn message_params(target: Seq<char>, id: i64, text: Seq<char>) -> JsonModel {
    JsonModel::Object(
        Map::empty().insert(target, JsonModel::Number(Some(id))).insert(
            "message"@,
            JsonModel::Text(text),
        ),
    )
}

impl ActionModel {
    /// The API calls that the action stands for, in the order they are sent.
    pub open spec fn requests(self) -> Seq<Request> {
        match self {
            ActionModel::SendPrivate { user_id, text } => seq![
                Request {
                    name: "send_private_msg"@,
                    params: message_params("user_id"@, user_id, text),
                },
            ],
            ActionModel::SendGroup { group_id, text } => seq![
                Request {
                    name: "send_group_msg"@,
                    params: message_params("group_id"@, group_id, text),
                },
            ],
            ActionModel::GetLoginInfo => seq![
                Request { name: "get_login_info"@, params: no_params() },
            ],
            ActionModel::GetRoster => seq![
                Request { name: "get_friend_list"@, params: no_params() },
                Request { name: "get_group_list"@, params: no_params() },
            ],
        }
    }

    /// The slots once the action is sent after `echo` earlier requests: the
    /// requests whose replies are consumed wait for their echoes.
    pub open spec fn recorded(self, echo: int, slots: SlotsModel) -> SlotsModel {
        match self {
            ActionModel::GetLoginInfo => SlotsModel { login: Some(decimal(echo + 1)), ..slots },
            ActionModel::GetRoster => SlotsModel {
                friends: Some(decimal(echo + 1)),
                groups: Some(decimal(echo + 2)),
                ..slots
            },
            _ => slots,
        }
    }
}

/// The frame of a request under the given echo.
pub open spec fn frame(request: Request, echo: int) -> JsonModel {
    JsonModel::Object(
        Map::empty().insert("action"@, JsonModel::Text(request.name)).insert(
            "params"@,
            request.params,
        ).insert("echo"@, JsonModel::Text(decimal(echo))),
    )
}

/// The frames of some requests that follow `echo` earlier ones: each has the
/// next echo.
pub open spec fn frames(requests: Seq<Request>, echo: int) -> Seq<JsonModel> {
    Seq::new(requests.len(), |i: int| frame(requests[i], echo + 1 + i))
}

/// Whether the texts are those of the frames, one for one. Each text reads
/// back as its frame.
pub open spec fn carry(texts: Seq<String>, frames: Seq<JsonModel>) -> bool {
    &&& texts.len() == frames.len()
    &&& forall|i: int|
        0 <= i < texts.len() ==> (#[trigger] texts[i])@ == json_text(frames[i]) && json_value(
            texts[i]@,
        ) == Some(frames[i])
}

/// Write one request with a fresh echo: the string of the counter, which
/// counts up across all requests. Returns the echo and the frame's text.
pub fn send_one(name: &str, params: Json, echo: &mut i64) -> (out: (String, String))
    requires
        *old(echo) < i64::MAX,
        params.writable((MAX_DEPTH - 1) as nat),
    ensures
        *final(echo) == *old(echo) + 1,
        out.0@ == decimal(*final(echo) as int),
        out.1@ == json_text(frame(Request { name: name@, params: params@ }, *final(echo) as int)),
        json_value(out.1@) == Some(
            frame(Request { name: name@, params: params@ }, *final(echo) as int),
        ),
{
    *echo = *echo + 1;
    let id = i64_to_string(*echo);
    let ghost request = Request { name: name@, params: params@ };
    let mut fields: Vec<(String, Json)> = Vec::new();
    fields.push(("action".to_owned(), Json::Text(name.to_owned())));
    fields.push(("params".to_owned(), params));
    fields.push(("echo".to_owned(), Json::Text(id.clone())));
    let value = Json::Object(fields);
    proof {
        let entries = field_models(fields@);
        assert(entries.len() == 3);
        let one = entries.drop_last().drop_last();
        assert(one.drop_last() =~= Seq::<(Seq<char>, JsonModel)>::empty());
        reveal_with_fuel(fields_map, 4);
        assert(value@->Object_0 =~= frame(request, *echo as int)->Object_0);
        assert(fields@[0].1.writable(126));
        assert(fields@[2].1.writable(126));
        assert forall|i: int| 0 <= i < fields@.len() implies (#[trigger] fields@[i]).1.writable(
            126,
        ) by {}
    }
    let text = write_json(&value);
    (id, text)
}

/// The parameters of a message to one target.
fn message_to(target: &str, id: i64, text: String) -> (out: Json)
    requires
        target@ != "message"@,
    ensures
        out@ == message_params(target@, id, text@),
        out.writable((MAX_DEPTH - 1) as nat),
{
    let mut fields: Vec<(String, Json)> = Vec::new();
    fields.push((target.to_owned(), Json::Number(Some(id))));
    fields.push(("message".to_owned(), Json::Text(text)));
    let value = Json::Object(fields);
    proof {
        let entries = field_models(fields@);
        assert(entries.len() == 2);
        assert(entries.drop_last().drop_last() =~= Seq::<(Seq<char>, JsonModel)>::empty());
        reveal_with_fuel(fields_map, 3);
        assert(value@->Object_0 =~= message_params(target@, id, text@)->Object_0);
        assert(fields@[0].1.writable(125));
        assert(fields@[1].1.writable(125));
    }
    value
}

/// An object without fields.
fn empty_object() -> (out: Json)
    ensures
        out@ == no_params(),
        out.writable((MAX_DEPTH - 1) as nat),
{
    let fields: Vec<(String, Json)> = Vec::new();
    assert(field_models(fields@).len() == 0);
    Json::Object(fields)
}

/// Write one action: [`Action::GetRoster`] expands to the two list requests;
/// echoes whose replies are consumed land in `slots`. Returns the texts to
/// send, in order.
pub fn send_action(action: Action, echo: &mut i64, slots: &mut ReplySlots) -> (texts: Vec<String>)
    requires
        *old(echo) + action@.requests().len() <= i64::MAX,
    ensures
        *final(echo) == *old(echo) + action@.requests().len(),
        carry(texts@, frames(action@.requests(), *old(echo) as int)),
        final(slots)@ == action@.recorded(*old(echo) as int, old(slots)@),
{
    let mut texts: Vec<String> = Vec::new();
    match action {
        Action::SendPrivate { user_id, text } => {
            proof {
                reveal_strlit("user_id");
                reveal_strlit("message");
                assert("user_id"@[0] != "message"@[0]);
            }
            let params = message_to("user_id", user_id, text);
            let (_, sent) = send_one("send_private_msg", params, echo);
            texts.push(sent);
        },
        Action::SendGroup { group_id, text } => {
            proof {
                reveal_strlit("group_id");
                reveal_strlit("message");
                assert("group_id"@[0] != "message"@[0]);
            }
            let params = message_to("group_id", group_id, text);
            let (_, sent) = send_one("send_group_msg", params, echo);
            texts.push(sent);
        },
        Action::GetLoginInfo => {
            let (id, sent) = send_one("get_login_info", empty_object(), echo);
            slots.login = Some(id);
            texts.push(sent);
        },
        Action::GetRoster => {
            let (id, sent) = send_one("get_friend_list", empty_object(), echo);
            slots.friends = Some(id);
            texts.push(sent);
            let (id, sent) = send_one("get_group_list", empty_object(), echo);
            slots.groups = Some(id);
            texts.push(sent);
        },
    }
    texts
}

// ---- one session ----

/// What a frame leads to: an event frame gives its event, a reply is matched
/// against the slots, anything else (heartbeats and the like) is passed over.
pub open spec fn dispatched(v: JsonModel, slots: SlotsModel) -> (Option<EventModel>, SlotsModel) {
    if v.has("post_type"@) {
        (event_of(v), slots)
    } else if v.has("echo"@) {
        reply_of(v, slots)
    } else {
        (None, slots)
    }
}

/// What to log of a frame: how the reply failed, if it is a failed reply.
pub open spec fn logged(v: JsonModel) -> Option<(i64, Seq<char>)> {
    if !v.has("post_type"@) && v.has("echo"@) {
        failure_of(v)
    } else {
        None
    }
}

/// What to log of a frame that was read as JSON.
pub fn failure(v: &Json) -> (out: Option<(i64, String)>)
    ensures
        failure_model(out) == logged(v@),
{
    if v.get("post_type").is_none() && v.get("echo").is_some() {
        reply_failure(v)
    } else {
        None
    }
}

/// Act on one frame that was read as JSON.
pub fn dispatch(v: &Json, slots: &mut ReplySlots) -> (out: Option<Event>)
    ensures
        (event_model(out), final(slots)@) == dispatched(v@, old(slots)@),
{
    if v.get("post_type").is_some() {
        parse_event(v)
    } else if v.get("echo").is_some() {
        parse_reply(v, slots)
    } else {
        None
    }
}

/// Something that happens to a connected session.
#[derive(Debug)]
pub enum Input {
    /// A text frame arrived.
    Text(String),
    /// A frame of another kind arrived; the WS layer answers pings itself.
    OtherFrame,
    /// The socket was closed, failed or ended.
    Closed,
    /// An action came out of the queue.
    Queued(Action),
    /// The sender side of the queue is gone.
    QueueClosed,
}

/// What to do next.
#[derive(Debug)]
pub enum Step {
    /// The session is over.
    Stop,
    /// The frame was not JSON; carry on.
    BadFrame,
    /// Send these texts, deliver this event, log this `retcode` and `wording`
    /// of a failed reply, carry on.
    Continue { send: Vec<String>, event: Option<Event>, failed: Option<(i64, String)> },
}

/// One connected session: the reply slots of this connection and the echo
/// counter, which outlives it.
#[derive(Debug)]
pub struct Session {
    pub slots: ReplySlots,
    pub echo: i64,
}

/// Whether an awaited echo is the number of a request after the first `since`
/// and among the first `upto`.
pub open spec fn issued(slot: Option<Seq<char>>, since: int, upto: int) -> bool {
    slot matches Some(text) ==> exists|k: int| since < k <= upto && text == #[trigger] decimal(k)
}

/// Whether every awaited echo was issued after the first `since` requests and
/// by the `upto`th, no two requests wait for one echo, and at most one half of
/// the roster is in.
pub open spec fn in_order(slots: SlotsModel, since: int, upto: int) -> bool {
    &&& issued(slots.login, since, upto)
    &&& issued(slots.friends, since, upto)
    &&& issued(slots.groups, since, upto)
    &&& slots.distinct()
    &&& slots.half_open()
}

impl Session {
    /// The session's slots are in order since the request counter stood at
    /// `since`.
    pub open spec fn wf(self, since: int) -> bool {
        &&& 0 <= since <= self.echo
        &&& in_order(self.slots@, since, self.echo as int)
    }

    /// Begin a session on a fresh connection: ask who we are, then pull the
    /// roster. `echo` is the number of requests made so far.
    pub fn open(echo: i64) -> (out: (Session, Vec<String>))
        requires
            0 <= echo <= i64::MAX - 3,
        ensures
            out.0.echo == echo + 3,
            out.0.slots@ == (SlotsModel {
                login: Some(decimal(echo + 1)),
                friends: Some(decimal(echo + 2)),
                groups: Some(decimal(echo + 3)),
                roster_friends: None,
                roster_groups: None,
            }),
            carry(
                out.1@,
                frames(
                    ActionModel::GetLoginInfo.requests() + ActionModel::GetRoster.requests(),
                    echo as int,
                ),
            ),
            out.0.wf(echo as int),
    {
        let mut slots = ReplySlots::default();
        let mut counter: i64 = echo;
        let mut texts = send_action(Action::GetLoginInfo, &mut counter, &mut slots);
        let mut more = send_action(Action::GetRoster, &mut counter, &mut slots);
        texts.append(&mut more);
        proof {
            law_decimal_distinct((echo + 1) as i64, (echo + 2) as i64);
            law_decimal_distinct((echo + 1) as i64, (echo + 3) as i64);
            law_decimal_distinct((echo + 2) as i64, (echo + 3) as i64);
        }
        (Session { slots, echo: counter }, texts)
    }

    /// The requests that an input makes the session send.
    pub open spec fn asked(input: Input) -> Seq<Request> {
        match input {
            Input::Queued(action) => action@.requests(),
            _ => Seq::empty(),
        }
    }

    /// Whether `out` is what the session does with an input, and `after` the
    /// session then.
    pub open spec fn steps(self, after: Session, input: Input, out: Step) -> bool {
        &&& after.echo == self.echo + Session::asked(input).len()
        &&& match out {
            Step::Stop => (input is Closed || input is QueueClosed) && after.slots@ == self.slots@,
            Step::BadFrame => (input matches Input::Text(t) && json_value(t@) is None)
                && after.slots@ == self.slots@,
            Step::Continue { send, event, failed } => {
                &&& carry(send@, frames(Session::asked(input), self.echo as int))
                &&& match input {
                    Input::Text(t) => {
                        &&& json_value(t@) is Some
                        &&& (event_model(event), after.slots@) == dispatched(
                            json_value(t@)->0,
                            self.slots@,
                        )
                        &&& failure_model(failed) == logged(json_value(t@)->0)
                    },
                    Input::Queued(action) => {
                        &&& event is None && failed is None
                        &&& after.slots@ == action@.recorded(self.echo as int, self.slots@)
                    },
                    Input::OtherFrame => event is None && failed is None && after.slots@
                        == self.slots@,
                    _ => false,
                }
            },
        }
    }

    /// Act on one input.
    pub fn step(&mut self, input: Input) -> (out: Step)
        requires
            old(self).echo + Session::asked(input).len() <= i64::MAX,
        ensures
            old(self).steps(*final(self), input, out),
            final(self).echo == old(self).echo + Session::asked(input).len(),
            (out is Stop) == (input is Closed || input is QueueClosed),
            (out is BadFrame) == (input matches Input::Text(t) && json_value(t@) is None),
            out matches Step::Continue { send, event, failed } ==> carry(
                send@,
                frames(Session::asked(input), old(self).echo as int),
            ),
            match input {
                Input::Text(t) => match json_value(t@) {
                    Some(v) => out matches Step::Continue { send, event, failed } && (
                        event_model(event),
                        final(self).slots@,
                    ) == dispatched(v, old(self).slots@) && failure_model(failed) == logged(v),
                    None => final(self).slots@ == old(self).slots@,
                },
                Input::Queued(action) => {
                    &&& out matches Step::Continue { send, event, failed } && event is None
                        && failed is None
                    &&& final(self).slots@ == action@.recorded(
                        old(self).echo as int,
                        old(self).slots@,
                    )
                },
                _ => {
                    &&& out matches Step::Continue { send, event, failed } ==> event is None
                        && failed is None
                    &&& final(self).slots@ == old(self).slots@
                },
            },
            forall|since: int| #[trigger]
                old(self).wf(since) ==> final(self).wf(since),
    {
        let ghost before = *self;
        match input {
            Input::Text(text) => match parse_json(text.as_str()) {
                Some(v) => {
                    let event = dispatch(&v, &mut self.slots);
                    proof {
                        assert forall|since: int| #[trigger] before.wf(since) implies self.wf(
                            since,
                        ) by {
                            lemma_dispatch_keeps_order(
                                v@,
                                before.slots@,
                                since,
                                before.echo as int,
                            );
                        }
                    }
                    Step::Continue { send: Vec::new(), event, failed: failure(&v) }
                },
                None => Step::BadFrame,
            },
            Input::OtherFrame => Step::Continue { send: Vec::new(), event: None, failed: None },
            Input::Closed => Step::Stop,
            Input::Queued(action) => {
                let ghost model = action@;
                let send = send_action(action, &mut self.echo, &mut self.slots);
                proof {
                    assert forall|since: int| #[trigger] before.wf(since) implies self.wf(
                        since,
                    ) by {
                        lemma_send_keeps_order(model, before.slots@, since, before.echo as int);
                    }
                }
                Step::Continue { send, event: None, failed: None }
            },
            Input::QueueClosed => Step::Stop,
        }
    }
}

proof fn lemma_dispatch_keeps_order(v: JsonModel, slots: SlotsModel, since: int, upto: int)
    requires
        in_order(slots, since, upto),
    ensures
        in_order(dispatched(v, slots).1, since, upto),
{
}

/// The next echo is awaited by no earlier request.
proof fn lemma_next_echo_fresh(slot: Option<Seq<char>>, since: int, upto: int, next: int)
    requires
        0 <= since <= upto < next <= i64::MAX,
        issued(slot, since, upto),
    ensures
        slot != Some(decimal(next)),
        issued(slot, since, next),
{
    if slot is Some {
        let k = choose|k: int| since < k <= upto && slot->0 == #[trigger] decimal(k);
        law_decimal_distinct(k as i64, next as i64);
    }
}

proof fn lemma_send_keeps_order(action: ActionModel, slots: SlotsModel, since: int, upto: int)
    requires
        0 <= since <= upto,
        upto + action.requests().len() <= i64::MAX,
        in_order(slots, since, upto),
    ensures
        in_order(action.recorded(upto, slots), since, upto + action.requests().len()),
{
    let next = upto + 1;
    lemma_next_echo_fresh(slots.login, since, upto, next);
    lemma_next_echo_fresh(slots.friends, since, upto, next);
    lemma_next_echo_fresh(slots.groups, since, upto, next);
    assert(issued(Some(decimal(next)), since, next));
    if action is GetRoster {
        lemma_next_echo_fresh(slots.login, since, upto, next + 1);
        assert(issued(Some(decimal(next)), since, next + 1));
        assert(issued(Some(decimal(next + 1)), since, next + 1));
        law_decimal_distinct(next as i64, (next + 1) as i64);
    }
}

// ---- reconnecting ----

/// Seconds to wait before the next connection attempt, after `failures`
/// earlier waits since the last good connection: 1, 2, 5, then always 10.
pub open spec fn delay_after(failures: int) -> u64 {
    if failures <= 0 {
        1
    } else if failures == 1 {
        2
    } else if failures == 2 {
        5
    } else {
        10
    }
}

/// Reconnect delays: 1s, 2s, 5s, then capped at 10s.
#[derive(Debug)]
pub struct Backoff {
    /// Waits since the last good connection, counted up to the cap.
    level: u8,
}

impl Backoff {
    /// Waits since the last good connection; 3 stands for three or more.
    pub closed spec fn waits(self) -> int {
        self.level as int
    }

    /// The count has not passed the cap.
    pub closed spec fn wf(self) -> bool {
        self.level <= 3
    }

    pub fn new() -> (out: Backoff)
        ensures
            out.wf(),
            out.waits() == 0,
    {
        Backoff { level: 0 }
    }

    /// The connection stands: start over.
    pub fn connected(&mut self)
        ensures
            final(self).wf(),
            final(self).waits() == 0,
    {
        self.level = 0;
    }

    /// Seconds to wait before the next attempt.
    pub fn next_delay(&mut self) -> (seconds: u64)
        requires
            old(self).wf(),
        ensures
            final(self).wf(),
            seconds == delay_after(old(self).waits()),
            final(self).waits() == if old(self).waits() < 3 {
                old(self).waits() + 1
            } else {
                3
            },
    {
        let seconds: u64 = if self.level == 0 {
            1
        } else if self.level == 1 {
            2
        } else if self.level == 2 {
            5
        } else {
            10
        };
        if self.level < 3 {
            self.level = self.level + 1;
        }
        seconds
    }
}

// ---- the reconnect loop ----

/// What a connected client does next.
#[derive(Debug)]
pub enum Outcome {
    /// The session is over: wait this many seconds, then connect again.
    Ended { seconds: u64 },
    /// The frame was not JSON; carry on.
    BadFrame,
    /// Send these texts, deliver this event, log this `retcode` and `wording`
    /// of a failed reply, carry on.
    Continue { send: Vec<String>, event: Option<Event>, failed: Option<(i64, String)> },
}

/// The client across connections: connect, run one session, wait, repeat. The
/// request counter and the waits outlive a session; the reply slots do not.
#[derive(Debug)]
pub struct Client {
    backoff: Backoff,
    /// Requests made before the session that runs, or in all when none does.
    echo: i64,
    session: Option<Session>,
}

impl Client {
    /// Waits since the last good connection; 3 stands for three or more.
    pub closed spec fn waits(self) -> int {
        self.backoff.waits()
    }

    /// Requests made so far, over all sessions.
    pub closed spec fn requests(self) -> int {
        match self.session {
            Some(session) => session.echo as int,
            None => self.echo as int,
        }
    }

    /// Requests made before the session that runs.
    pub closed spec fn since(self) -> int {
        self.echo as int
    }

    /// The reply slots of the session that runs, if one does.
    pub closed spec fn slots(self) -> Option<SlotsModel> {
        match self.session {
            Some(session) => Some(session.slots@),
            None => None,
        }
    }

    /// While a session runs nothing was waited for since it began, and its
    /// slots wait for requests of its own only.
    pub closed spec fn wf(self) -> bool {
        &&& self.backoff.wf()
        &&& 0 <= self.echo
        &&& self.session matches Some(session) ==> session.wf(self.echo as int)
            && self.backoff.waits() == 0
    }

    /// Requests made so far, over all sessions.
    pub fn request_count(&self) -> (count: i64)
        ensures
            count == self.requests(),
    {
        match &self.session {
            Some(session) => session.echo,
            None => self.echo,
        }
    }

    pub fn new() -> (client: Client)
        ensures
            client.wf(),
            client.slots() is None,
            client.waits() == 0,
            client.requests() == 0,
    {
        Client { backoff: Backoff::new(), echo: 0, session: None }
    }

    /// A connection stands: deliver the event, and send the opening requests:
    /// who we are, then the roster.
    pub fn connected(&mut self) -> (out: (Event, Vec<String>))
        requires
            old(self).wf(),
            old(self).slots() is None,
            old(self).requests() <= i64::MAX - 3,
        ensures
            final(self).wf(),
            out.0@ is Connected,
            carry(
                out.1@,
                frames(
                    ActionModel::GetLoginInfo.requests() + ActionModel::GetRoster.requests(),
                    old(self).requests(),
                ),
            ),
            final(self).waits() == 0,
            final(self).since() == old(self).requests(),
            final(self).requests() == old(self).requests() + 3,
            final(self).slots() == Some(
                ActionModel::GetRoster.recorded(
                    old(self).requests() + 1,
                    ActionModel::GetLoginInfo.recorded(old(self).requests(), SlotsModel::empty()),
                ),
            ),
    {
        self.backoff.connected();
        let (session, texts) = Session::open(self.echo);
        self.session = Some(session);
        (Event::Connected, texts)
    }

    /// A connection attempt failed: how many seconds to wait before the next.
    pub fn failed(&mut self) -> (seconds: u64)
        requires
            old(self).wf(),
            old(self).slots() is None,
        ensures
            final(self).wf(),
            seconds == delay_after(old(self).waits()),
            final(self).waits() == if old(self).waits() < 3 {
                old(self).waits() + 1
            } else {
                3
            },
            final(self).slots() is None,
            final(self).requests() == old(self).requests(),
    {
        self.backoff.next_delay()
    }

    /// Whether `out` is what the client does with what happened to its session,
    /// and `after` the client then.
    pub open spec fn acts(self, after: Client, input: Input, out: Outcome) -> bool {
        &&& after.requests() == self.requests() + Session::asked(input).len()
        &&& match out {
            Outcome::Ended { seconds } => {
                &&& input is Closed || input is QueueClosed
                &&& seconds == delay_after(0)
                &&& after.slots() is None && after.waits() == 1
            },
            Outcome::BadFrame => {
                &&& input matches Input::Text(t) && json_value(t@) is None
                &&& after.slots() == self.slots() && after.waits() == 0
            },
            Outcome::Continue { send, event, failed } => {
                &&& carry(send@, frames(Session::asked(input), self.requests()))
                &&& after.slots() is Some && after.waits() == 0
                &&& match input {
                    Input::Text(t) => {
                        &&& json_value(t@) is Some
                        &&& (event_model(event), after.slots()->0) == dispatched(
                            json_value(t@)->0,
                            self.slots()->0,
                        )
                        &&& failure_model(failed) == logged(json_value(t@)->0)
                    },
                    Input::Queued(action) => {
                        &&& event is None && failed is None
                        &&& after.slots()->0 == action@.recorded(self.requests(), self.slots()->0)
                    },
                    Input::OtherFrame => event is None && failed is None && after.slots()
                        == self.slots(),
                    _ => false,
                }
            },
        }
    }

    /// Something happened to the session that runs.
    pub fn happened(&mut self, input: Input) -> (out: Outcome)
        requires
            old(self).wf(),
            old(self).slots() is Some,
            old(self).requests() + Session::asked(input).len() <= i64::MAX,
        ensures
            final(self).wf(),
            old(self).acts(*final(self), input, out),
            final(self).requests() == old(self).requests() + Session::asked(input).len(),
            (final(self).slots() is None) == (out is Ended),
            (out is Ended) == (input is Closed || input is QueueClosed),
            out matches Outcome::Ended { seconds } ==> seconds == 1 && final(self).waits() == 1,
            out !is Ended ==> final(self).waits() == 0 && final(self).since() == old(self).since(),
            (out is BadFrame) == (input matches Input::Text(t) && json_value(t@) is None),
            out is BadFrame ==> final(self).slots() == old(self).slots(),
            out matches Outcome::Continue { send, event, failed } ==> {
                &&& carry(send@, frames(Session::asked(input), old(self).requests()))
                &&& match input {
                    Input::Text(t) => {
                        &&& (event_model(event), final(self).slots()->0) == dispatched(
                            json_value(t@)->0,
                            old(self).slots()->0,
                        )
                        &&& failure_model(failed) == logged(json_value(t@)->0)
                    },
                    Input::Queued(action) => {
                        &&& event is None && failed is None
                        &&& final(self).slots()->0 == action@.recorded(
                            old(self).requests(),
                            old(self).slots()->0,
                        )
                    },
                    _ => {
                        &&& event is None && failed is None
                        &&& final(self).slots() == old(self).slots()
                    },
                }
            },
    {
        let mut session = self.session.take().unwrap();
        match session.step(input) {
            Step::Stop => {
                self.echo = session.echo;
                Outcome::Ended { seconds: self.backoff.next_delay() }
            },
            Step::BadFrame => {
                self.session = Some(session);
                Outcome::BadFrame
            },
            Step::Continue { send, event, failed } => {
                self.session = Some(session);
                Outcome::Continue { send, event, failed }
            },
        }
    }
}

/// A session waits for replies to its own requests only, each under an echo of
/// its own.
pub proof fn law_client_awaits_its_own_requests(client: Client)
    requires
        client.wf(),
        client.slots() is Some,
    ensures
        0 <= client.since() <= client.requests() <= i64::MAX,
        in_order(client.slots()->0, client.since(), client.requests()),
{
}

// ---- the action queue ----

/// Sender side of the action queue. Actions wait here, in order, until a
/// session takes them; they outlive disconnects.
#[derive(Debug)]
pub struct Handle {
    pending: VecDeque<Action>,
    live: bool,
}

impl Handle {
    /// The actions that wait, oldest first.
    pub closed spec fn pending(self) -> Seq<Action> {
        self.pending@
    }

    /// Whether the transport is still there to take actions.
    pub closed spec fn live(self) -> bool {
        self.live
    }

    /// Whether `after` is the queue once `action` is sent.
    pub open spec fn sent(self, after: Handle, action: Action) -> bool {
        &&& after.live() == self.live()
        &&& after.pending() == if self.live() {
            self.pending().push(action)
        } else {
            self.pending()
        }
    }

    /// Whether `after` is the queue once `action` is taken: the oldest one.
    pub open spec fn taken(self, after: Handle, action: Action) -> bool {
        &&& after.live() == self.live()
        &&& self.pending().len() > 0
        &&& action == self.pending()[0]
        &&& after.pending() == self.pending().skip(1)
    }

    pub fn new() -> (out: Handle)
        ensures
            out.live(),
            out.pending() == Seq::<Action>::empty(),
    {
        Handle { pending: VecDeque::new(), live: true }
    }

    /// Queue an action. Dropped if the transport is gone.
    pub fn send(&mut self, action: Action)
        ensures
            old(self).sent(*final(self), action),
    {
        if self.live {
            self.pending.push_back(action);
        }
    }

    /// Take the oldest action that waits.
    pub fn take(&mut self) -> (out: Option<Action>)
        ensures
            match out {
                Some(action) => old(self).taken(*final(self), action),
                None => old(self).pending().len() == 0 && final(self).pending()
                    == old(self).pending() && final(self).live() == old(self).live(),
            },
    {
        let out = self.pending.pop_front();
        proof {
            if out is Some {
                assert(self.pending@ =~= old(self).pending@.skip(1));
            }
        }
        out
    }

    /// The transport is gone: what waits is lost, and nothing is taken in any
    /// more.
    pub fn hang_up(&mut self)
        ensures
            !final(self).live(),
            final(self).pending() == Seq::<Action>::empty(),
    {
        self.live = false;
        self.pending = VecDeque::new();
    }
}

} // verus!
