//! What a session sends and what it makes of what it receives, without a
//! socket.

use gugu::json::{parse_json, Json};
use gugu::onebot::{Event, ReplySlots};
use gugu::transport::{
    send_action, send_one, Action, Backoff, Client, Handle, Input, Outcome, Session, Step,
};

fn json(text: &str) -> Json {
    parse_json(text).expect("frame is not valid JSON")
}

fn text_at(v: &Json, name: &str) -> String {
    v.field(name).as_str().unwrap_or("").to_string()
}

/// The event that a text frame leads to.
fn receive(session: &mut Session, text: &str) -> Option<Event> {
    match session.step(Input::Text(text.to_string())) {
        Step::Continue { send, event, failed } => {
            assert!(send.is_empty());
            assert!(failed.is_none());
            event
        }
        other => panic!("unexpected step: {other:?}"),
    }
}

/// The frames that a queued action is sent as.
fn queue(session: &mut Session, action: Action) -> Vec<Json> {
    match session.step(Input::Queued(action)) {
        Step::Continue { send, event, failed } => {
            assert!(event.is_none() && failed.is_none());
            send.iter().map(|t| json(t)).collect()
        }
        other => panic!("unexpected step: {other:?}"),
    }
}

/// Connect → get_login_info → Login event, with the get_friend_list and
/// get_group_list frames in between → queued SendPrivate comes out as a
/// send_private_msg frame.
#[test]
fn roundtrip_connect_login_send() {
    let (mut session, first) = Session::open(0);
    let mut handle = Handle::new();

    // On connect the session must identify itself…
    let f = json(&first[0]);
    assert_eq!(text_at(&f, "action"), "get_login_info");
    assert!(f.field("echo").as_str().is_some());
    // …and immediately pull the roster.
    assert_eq!(text_at(&json(&first[1]), "action"), "get_friend_list");
    assert_eq!(text_at(&json(&first[2]), "action"), "get_group_list");
    assert_eq!(first.len(), 3);
    let reply = format!(
        r#"{{ "status": "ok", "retcode": 0, "echo": "{}",
             "data": {{ "user_id": 10001, "nickname": "smoke" }} }}"#,
        text_at(&f, "echo")
    );

    match receive(&mut session, &reply).expect("no Login") {
        Event::Login { nickname, uin } => {
            assert_eq!((nickname.as_str(), uin.as_str()), ("smoke", "10001"));
        }
        other => panic!("expected Login, got {other:?}"),
    }

    // Actions queued on the handle come out as OneBot frames.
    handle.send(Action::SendPrivate {
        user_id: 42,
        text: "hi".into(),
    });
    let frames = queue(&mut session, handle.take().unwrap());
    let f = &frames[0];
    assert_eq!(text_at(f, "action"), "send_private_msg");
    assert_eq!(f.field("params").field("user_id").as_i64(), Some(42));
    assert_eq!(text_at(f.field("params"), "message"), "hi");
}

/// Answer all three startup requests with wire-shaped data; exactly one merged
/// event fires, friends (remark over nickname) first, then groups.
#[test]
fn roundtrip_roster_event() {
    let (mut session, first) = Session::open(0);
    let f = json(&first[0]);
    assert_eq!(text_at(&f, "action"), "get_login_info");
    let login_echo = text_at(&f, "echo");
    let f = json(&first[1]);
    assert_eq!(text_at(&f, "action"), "get_friend_list");
    let friends_echo = text_at(&f, "echo");
    let f = json(&first[2]);
    assert_eq!(text_at(&f, "action"), "get_group_list");
    let groups_echo = text_at(&f, "echo");

    let mut events = Vec::new();
    for (echo, data) in [
        (login_echo, r#"{ "user_id": 1, "nickname": "bot" }"#),
        (
            friends_echo,
            r#"[
                { "user_id": 21, "nickname": "fr", "remark": "老remark" },
                { "user_id": 22, "nickname": "fr2", "remark": "" }
            ]"#,
        ),
        (groups_echo, r#"[{ "group_id": 31, "group_name": "g1" }]"#),
    ] {
        let reply = format!(
            r#"{{ "status": "ok", "retcode": 0, "echo": "{echo}", "data": {data} }}"#
        );
        events.extend(receive(&mut session, &reply));
    }

    assert_eq!(events.len(), 2);
    assert!(matches!(events[0], Event::Login { .. }), "{:?}", events[0]);
    match &events[1] {
        Event::Roster { peers } => assert_eq!(
            peers
                .iter()
                .map(|p| (p.id, p.name.as_str(), p.is_group))
                .collect::<Vec<_>>(),
            [
                (21, "老remark", false),
                (22, "fr2", false),
                (31, "g1", true)
            ]
        ),
        other => panic!("expected Roster, got {other:?}"),
    }
}

#[test]
fn echoes_count_up_across_sessions() {
    let (session, first) = Session::open(0);
    let echoes: Vec<String> = first.iter().map(|t| text_at(&json(t), "echo")).collect();
    assert_eq!(echoes, ["1", "2", "3"]);
    let (_, again) = Session::open(session.echo);
    let echoes: Vec<String> = again.iter().map(|t| text_at(&json(t), "echo")).collect();
    assert_eq!(echoes, ["4", "5", "6"]);
}

#[test]
fn late_reply_of_an_old_session_is_dropped() {
    let (old, first) = Session::open(0);
    let echo = text_at(&json(&first[0]), "echo");
    let (mut session, _) = Session::open(old.echo);
    let reply = format!(
        r#"{{ "retcode": 0, "echo": "{echo}", "data": {{ "user_id": 1, "nickname": "n" }} }}"#
    );
    assert!(receive(&mut session, &reply).is_none());
    assert!(session.slots.login.is_some());
}

#[test]
fn group_message_goes_to_its_group() {
    let (mut session, _) = Session::open(0);
    let frames = queue(
        &mut session,
        Action::SendGroup {
            group_id: -5,
            text: "a \"quoted\" 行\n".into(),
        },
    );
    assert_eq!(frames.len(), 1);
    assert_eq!(text_at(&frames[0], "action"), "send_group_msg");
    let params = frames[0].field("params");
    assert_eq!(params.field("group_id").as_i64(), Some(-5));
    assert_eq!(text_at(params, "message"), "a \"quoted\" 行\n");
    assert!(params.get("user_id").is_none());
    assert_eq!(text_at(&frames[0], "echo"), "4");
}

#[test]
fn queued_roster_request_is_two_frames() {
    let mut echo = 10;
    let mut slots = ReplySlots::default();
    let texts = send_action(Action::GetRoster, &mut echo, &mut slots);
    assert_eq!(echo, 12);
    assert_eq!(texts.len(), 2);
    assert_eq!(slots.friends.as_deref(), Some("11"));
    assert_eq!(slots.groups.as_deref(), Some("12"));
    assert_eq!(slots.login, None);
}

#[test]
fn frame_text_is_compact_and_sorted() {
    let mut echo = 0;
    let (id, text) = send_one("get_login_info", json("{}"), &mut echo);
    assert_eq!(id, "1");
    assert_eq!(
        text,
        r#"{"action":"get_login_info","echo":"1","params":{}}"#
    );
}

#[test]
fn frame_that_is_no_json_is_reported() {
    let (mut session, _) = Session::open(0);
    assert!(matches!(
        session.step(Input::Text("not json".to_string())),
        Step::BadFrame
    ));
    assert!(session.slots.login.is_some());
}

#[test]
fn heartbeat_is_passed_over() {
    let (mut session, _) = Session::open(0);
    assert!(receive(&mut session, r#"{ "post_type": "meta_event" }"#).is_none());
    assert!(receive(&mut session, r#"{ "interval": 5000 }"#).is_none());
    assert!(receive(&mut session, "[]").is_none());
}

#[test]
fn event_frame_with_an_echo_is_an_event() {
    let (mut session, first) = Session::open(0);
    let echo = text_at(&json(&first[0]), "echo");
    let frame = format!(
        r#"{{ "post_type": "message", "message_type": "private", "echo": "{echo}", "retcode": 0,
             "sender": {{ "user_id": 3, "nickname": "n" }}, "message": "m", "time": 9 }}"#
    );
    match receive(&mut session, &frame) {
        Some(Event::PrivateMessage { text, time, .. }) => assert_eq!((text.as_str(), time), ("m", 9)),
        other => panic!("unexpected: {other:?}"),
    }
    assert!(session.slots.login.is_some());
}

#[test]
fn closing_ends_the_session() {
    let (mut session, _) = Session::open(0);
    assert!(matches!(
        session.step(Input::OtherFrame),
        Step::Continue { event: None, .. }
    ));
    assert!(matches!(session.step(Input::Closed), Step::Stop));
    assert!(matches!(session.step(Input::QueueClosed), Step::Stop));
}

#[test]
fn waits_grow_to_ten_seconds_and_start_over() {
    let mut backoff = Backoff::new();
    let waits: Vec<u64> = (0..6).map(|_| backoff.next_delay()).collect();
    assert_eq!(waits, [1, 2, 5, 10, 10, 10]);
    backoff.connected();
    assert_eq!(backoff.next_delay(), 1);
}

#[test]
fn queue_keeps_order_and_outlives_disconnects() {
    let mut handle = Handle::new();
    handle.send(Action::GetLoginInfo);
    handle.send(Action::GetRoster);
    assert!(matches!(handle.take(), Some(Action::GetLoginInfo)));
    handle.send(Action::SendPrivate {
        user_id: 1,
        text: "x".into(),
    });
    assert!(matches!(handle.take(), Some(Action::GetRoster)));
    assert!(matches!(
        handle.take(),
        Some(Action::SendPrivate { user_id: 1, .. })
    ));
    assert!(handle.take().is_none());
}

#[test]
fn actions_are_dropped_when_the_transport_is_gone() {
    let mut handle = Handle::new();
    handle.send(Action::GetRoster);
    handle.hang_up();
    assert!(handle.take().is_none());
    handle.send(Action::GetLoginInfo);
    assert!(handle.take().is_none());
}

#[test]
fn client_reports_the_connection_and_opens_the_session() {
    let mut client = Client::new();
    let (event, texts) = client.connected();
    assert!(matches!(event, Event::Connected));
    let actions: Vec<String> = texts.iter().map(|t| text_at(&json(t), "action")).collect();
    assert_eq!(actions, ["get_login_info", "get_friend_list", "get_group_list"]);
    assert_eq!(client.request_count(), 3);
}

#[test]
fn client_waits_longer_while_connecting_fails() {
    let mut client = Client::new();
    let waits: Vec<u64> = (0..5).map(|_| client.failed()).collect();
    assert_eq!(waits, [1, 2, 5, 10, 10]);
    client.connected();
    assert!(matches!(
        client.happened(Input::Closed),
        Outcome::Ended { seconds: 1 }
    ));
    assert_eq!(client.failed(), 2);
}

#[test]
fn client_counts_requests_across_connections() {
    let mut client = Client::new();
    client.connected();
    let sent = client.happened(Input::Queued(Action::GetRoster));
    assert!(matches!(&sent, Outcome::Continue { send, event: None, .. } if send.len() == 2));
    assert!(matches!(client.happened(Input::QueueClosed), Outcome::Ended { .. }));
    assert_eq!(client.request_count(), 5);
    let (_, texts) = client.connected();
    assert_eq!(text_at(&json(&texts[0]), "echo"), "6");
    // A late answer to the first connection's login request is dropped.
    let late = r#"{ "retcode": 0, "echo": "1", "data": { "user_id": 1, "nickname": "n" } }"#;
    assert!(matches!(
        client.happened(Input::Text(late.to_string())),
        Outcome::Continue { event: None, .. }
    ));
    let answer = r#"{ "retcode": 0, "echo": "6", "data": { "user_id": 1, "nickname": "n" } }"#;
    assert!(matches!(
        client.happened(Input::Text(answer.to_string())),
        Outcome::Continue { event: Some(Event::Login { .. }), .. }
    ));
    assert!(matches!(
        client.happened(Input::Text("{".to_string())),
        Outcome::BadFrame
    ));
}

#[test]
fn failed_reply_is_logged_and_dropped() {
    let (mut session, _) = Session::open(0);
    let failed_of = |session: &mut Session, text: &str| {
        match session.step(Input::Text(text.to_string())) {
            Step::Continue {
                send,
                event: None,
                failed,
            } if send.is_empty() => failed,
            other => panic!("unexpected step: {other:?}"),
        }
    };
    let bad = r#"{ "retcode": 100, "wording": "bad param", "echo": "1" }"#;
    assert_eq!(
        failed_of(&mut session, bad),
        Some((100, "bad param".to_string()))
    );
    assert!(session.slots.login.is_some());
    assert_eq!(
        failed_of(&mut session, r#"{ "echo": "1" }"#),
        Some((-1, String::new()))
    );
    // Neither an event nor a frame without an echo is a failed reply.
    let event = r#"{ "post_type": "meta_event", "retcode": 1, "echo": "1" }"#;
    assert_eq!(failed_of(&mut session, event), None);
    assert_eq!(failed_of(&mut session, r#"{ "retcode": 1 }"#), None);
    let mut client = Client::new();
    client.connected();
    assert!(matches!(
        client.happened(Input::Text(bad.to_string())),
        Outcome::Continue { event: None, failed: Some((100, _)), .. }
    ));
}
