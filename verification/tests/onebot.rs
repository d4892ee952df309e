//! Reading OneBot v11 frames: events, replies and the roster.

use gugu::json::{parse_json, Json};
use gugu::onebot::{
    authed_url, message_text, parse_event, parse_peer, parse_reply, reply_failure, Config, Event,
    Peer, ReplySlots,
};

fn json(text: &str) -> Json {
    parse_json(text).expect("fixture is JSON")
}

fn awaiting_roster() -> ReplySlots {
    ReplySlots {
        friends: Some("1".to_string()),
        groups: Some("2".to_string()),
        ..Default::default()
    }
}

fn listed(peers: &[Peer]) -> Vec<(i64, &str, bool)> {
    peers
        .iter()
        .map(|p| (p.id, p.name.as_str(), p.is_group))
        .collect()
}

#[test]
fn event_string_message() {
    let v = json(
        r#"{
            "post_type": "message", "message_type": "private", "time": 1,
            "sender": { "user_id": 10, "nickname": "alice", "card": "" },
            "message": "hello"
        }"#,
    );
    match parse_event(&v).unwrap() {
        Event::PrivateMessage {
            sender_id,
            sender_name,
            text,
            ..
        } => {
            assert_eq!(
                (sender_id, sender_name.as_str(), text.as_str()),
                (10, "alice", "hello")
            );
        }
        other => panic!("wrong variant: {other:?}"),
    }
}

#[test]
fn event_segment_array_message() {
    let v = json(
        r#"{
            "post_type": "message", "message_type": "group", "group_id": 42, "time": 2,
            "sender": { "user_id": 7, "nickname": "bob", "card": "Bobie" },
            "message": [
                { "type": "image", "data": { "file": "x.png" } },
                { "type": "text", "data": { "text": "hi " } },
                { "type": "at", "data": { "qq": 1 } },
                { "type": "text", "data": { "text": "there" } }
            ]
        }"#,
    );
    match parse_event(&v).unwrap() {
        Event::GroupMessage {
            group_id,
            sender_name,
            text,
            ..
        } => {
            assert_eq!(
                (group_id, sender_name.as_str(), text.as_str()),
                (42, "Bobie", "hi there")
            );
        }
        other => panic!("wrong variant: {other:?}"),
    }
}

#[test]
fn reply_login_info() {
    let mut slots = ReplySlots {
        login: Some("7".to_string()),
        ..Default::default()
    };
    let v = json(
        r#"{
            "status": "ok", "retcode": 0, "echo": "7",
            "data": { "user_id": 123456, "nickname": "gugu" }
        }"#,
    );
    match parse_reply(&v, &mut slots).unwrap() {
        Event::Login { nickname, uin } => {
            assert_eq!((nickname.as_str(), uin.as_str()), ("gugu", "123456"))
        }
        other => panic!("wrong variant: {other:?}"),
    }
    assert_eq!(slots.login, None); // consumed
}

#[test]
fn reply_error_is_dropped() {
    let mut slots = ReplySlots {
        login: Some("9".to_string()),
        ..Default::default()
    };
    let v = json(r#"{ "status": "failed", "retcode": 100, "wording": "bad param", "echo": "9" }"#);
    assert!(parse_reply(&v, &mut slots).is_none());
    assert_eq!(slots.login, Some("9".to_string())); // still pending: failure ≠ login
}

/// A friends-only reply must not fire an event: the answered slot is
/// consumed, the pending groups slot survives, half data is retained.
#[test]
fn roster_waits_for_the_second_half() {
    let mut slots = awaiting_roster();
    let v = json(
        r#"{
            "retcode": 0, "echo": "1",
            "data": [{ "user_id": 11, "nickname": "a", "remark": "" }]
        }"#,
    );
    assert!(
        parse_reply(&v, &mut slots).is_none(),
        "one half must not fire"
    );
    assert_eq!(slots.friends, None, "answered slot must be consumed");
    assert_eq!(
        slots.groups,
        Some("2".to_string()),
        "pending slot must stay"
    );
    assert!(slots.roster_friends.is_some());
    assert!(slots.roster_groups.is_none());
}

/// Both halves merge into one Roster: friends first, non-empty remark
/// over nickname, group entries named by `group_name`.
#[test]
fn roster_merges_friends_then_groups() {
    let mut slots = awaiting_roster();
    let friends = json(
        r#"{
            "retcode": 0, "echo": "1",
            "data": [
                { "user_id": 11, "nickname": "nick", "remark": "备注" },
                { "user_id": 12, "nickname": "plain", "remark": "" }
            ]
        }"#,
    );
    assert!(parse_reply(&friends, &mut slots).is_none());
    let groups = json(
        r#"{
            "retcode": 0, "echo": "2",
            "data": [{ "group_id": 99, "group_name": "群名" }]
        }"#,
    );
    match parse_reply(&groups, &mut slots).unwrap() {
        Event::Roster { peers } => assert_eq!(
            listed(&peers),
            [
                (11, "备注", false),
                (12, "plain", false),
                (99, "群名", true)
            ]
        ),
        other => panic!("wrong variant: {other:?}"),
    }
    assert!(slots.roster_friends.is_none() && slots.roster_groups.is_none());
}

/// Entries missing their id field are skipped; a missing `remark` key
/// falls back to `nickname` without dropping the entry.
#[test]
fn roster_skips_entries_without_id() {
    let mut slots = awaiting_roster();
    let friends = json(
        r#"{
            "retcode": 0, "echo": "1",
            "data": [{ "nickname": "no-id" }, { "user_id": 12, "nickname": "ok" }]
        }"#,
    );
    assert!(parse_reply(&friends, &mut slots).is_none());
    let groups = json(
        r#"{
            "retcode": 0, "echo": "2",
            "data": [{ "group_name": "no-id" }, { "group_id": 99, "group_name": "g" }]
        }"#,
    );
    match parse_reply(&groups, &mut slots).unwrap() {
        Event::Roster { peers } => {
            assert_eq!(peers.iter().map(|p| p.id).collect::<Vec<_>>(), [12i64, 99])
        }
        other => panic!("wrong variant: {other:?}"),
    }
}

/// A failed roster reply is dropped before slot matching: the pending
/// echo and the merged halves stay untouched (clean retry on reconnect).
#[test]
fn roster_error_reply_keeps_slots_clean() {
    let mut slots = awaiting_roster();
    let bad = json(r#"{ "retcode": 100, "wording": "boom", "echo": "1" }"#);
    assert!(parse_reply(&bad, &mut slots).is_none());
    assert_eq!(slots.friends, Some("1".to_string()));
    assert!(slots.roster_friends.is_none());
}

#[test]
fn roster_halves_may_come_in_either_order() {
    let friends = json(r#"{ "retcode": 0, "echo": "1", "data": [{ "user_id": 5, "nickname": "f" }] }"#);
    let groups = json(r#"{ "retcode": 0, "echo": "2", "data": [{ "group_id": 6, "group_name": "g" }] }"#);
    let mut slots = awaiting_roster();
    assert!(parse_reply(&groups, &mut slots).is_none());
    match parse_reply(&friends, &mut slots).unwrap() {
        Event::Roster { peers } => {
            assert_eq!(listed(&peers), [(5, "f", false), (6, "g", true)]);
        }
        other => panic!("wrong variant: {other:?}"),
    }
}

#[test]
fn reply_counts_once() {
    let mut slots = ReplySlots {
        login: Some("7".to_string()),
        ..Default::default()
    };
    let v = json(r#"{ "retcode": 0, "echo": "7", "data": { "user_id": 1, "nickname": "n" } }"#);
    assert!(parse_reply(&v, &mut slots).is_some());
    assert!(parse_reply(&v, &mut slots).is_none());
}

#[test]
fn reply_with_unknown_echo_changes_nothing() {
    let mut slots = awaiting_roster();
    let v = json(r#"{ "retcode": 0, "echo": "3", "data": [] }"#);
    assert!(parse_reply(&v, &mut slots).is_none());
    assert_eq!(slots.friends.as_deref(), Some("1"));
    assert_eq!(slots.groups.as_deref(), Some("2"));
    assert!(slots.roster_friends.is_none() && slots.roster_groups.is_none());
}

#[test]
fn reply_that_is_no_list_consumes_its_slot() {
    let mut slots = awaiting_roster();
    let v = json(r#"{ "retcode": 0, "echo": "1", "data": {} }"#);
    assert!(parse_reply(&v, &mut slots).is_none());
    assert_eq!(slots.friends, None);
    assert!(slots.roster_friends.is_none());
}

#[test]
fn other_events_are_passed_over() {
    assert!(parse_event(&json(r#"{ "post_type": "meta_event", "meta_event_type": "heartbeat" }"#)).is_none());
    assert!(parse_event(&json(r#"{ "post_type": "message", "message_type": "guild" }"#)).is_none());
    assert!(parse_event(&json(r#"{ "post_type": 1 }"#)).is_none());
}

#[test]
fn message_text_joins_text_segments_only() {
    assert_eq!(message_text(&json(r#""plain""#)), "plain");
    assert_eq!(
        message_text(&json(
            r#"[{ "type": "text", "data": { "text": "a" } },
                { "type": "face", "data": { "text": "x" } },
                { "type": "text", "data": {} },
                { "type": "text", "data": { "text": "b" } }]"#
        )),
        "ab"
    );
    assert_eq!(message_text(&json("null")), "");
    assert_eq!(message_text(&json("12")), "");
}

#[test]
fn group_card_wins_over_nickname() {
    let named = |sender: &str| {
        let v = json(&format!(
            r#"{{ "post_type": "message", "message_type": "group", "group_id": 1,
                 "sender": {sender}, "message": "m", "time": 3 }}"#
        ));
        match parse_event(&v) {
            Some(Event::GroupMessage { sender_name, .. }) => Some(sender_name),
            _ => None,
        }
    };
    assert_eq!(
        named(r#"{ "user_id": 1, "nickname": "n", "card": "c" }"#).as_deref(),
        Some("c")
    );
    assert_eq!(
        named(r#"{ "user_id": 1, "nickname": "n", "card": "" }"#).as_deref(),
        Some("n")
    );
}

#[test]
fn peers_are_named_by_kind() {
    let friend = parse_peer(&json(r#"{ "user_id": 3, "nickname": "n", "remark": "r" }"#), false);
    let friend = friend.unwrap();
    assert_eq!((friend.id, friend.name.as_str(), friend.is_group), (3, "r", false));
    let group = parse_peer(&json(r#"{ "group_id": 4, "group_name": "g" }"#), true).unwrap();
    assert_eq!((group.id, group.name.as_str(), group.is_group), (4, "g", true));
    assert!(parse_peer(&json(r#"{ "group_id": 4 , "group_name": "g" }"#), false).is_none());
    assert!(parse_peer(&json(r#"{ "user_id": "3", "nickname": "n" }"#), false).is_none());
}

#[test]
fn token_is_added_to_the_url() {
    let url = |ws_url: &str, access_token: &str| {
        authed_url(&Config {
            ws_url: ws_url.to_string(),
            access_token: access_token.to_string(),
        })
    };
    assert_eq!(url("ws://h:1/", "t"), "ws://h:1/?access_token=t");
    assert_eq!(url("ws://h:1/?a=b", "t"), "ws://h:1/?a=b&access_token=t");
    assert_eq!(url("ws://h:1/", ""), "ws://h:1/");
}

/// A private message with the given fields put in.
fn private(sender: &str, message: &str, time: &str) -> Option<Event> {
    parse_event(&json(&format!(
        r#"{{ "post_type": "message", "message_type": "private",
             "sender": {sender}, "message": {message}{time} }}"#
    )))
}

#[test]
fn unreadable_fields_give_no_event() {
    let alice = r#"{ "user_id": 10, "nickname": "alice", "card": "" }"#;
    let at = r#", "time": 1"#;
    assert!(private(alice, r#""hello""#, at).is_some());
    for time in [r#", "time": "soon""#, r#", "time": 1.5"#, r#", "time": null"#, ""] {
        assert!(private(alice, r#""hello""#, time).is_none(), "{time}");
    }
    for message in ["12", "null", "{}", "true"] {
        assert!(private(alice, message, at).is_none(), "{message}");
    }
    for sender in [
        r#"{ "nickname": "alice" }"#,
        r#"{ "user_id": "10", "nickname": "alice" }"#,
        r#"{ "user_id": 10, "nickname": 7 }"#,
        r#"{ "user_id": 10 }"#,
        r#"{ "user_id": 10, "card": "" }"#,
        "null",
    ] {
        assert!(private(sender, r#""hello""#, at).is_none(), "{sender}");
    }
    let empty = r#"{ "post_type": "message", "message_type": "private", "time": 1,
                     "sender": { "user_id": 1, "nickname": "n" } }"#;
    assert!(parse_event(&json(empty)).is_none());
    let group = r#"{ "post_type": "message", "message_type": "group", "group_id": "g", "time": 1,
                     "sender": { "user_id": 1, "nickname": "n" }, "message": "m" }"#;
    assert!(parse_event(&json(group)).is_none());
}

#[test]
fn missing_card_falls_back_to_the_nickname() {
    let named = |sender: &str| match private(sender, "[]", r#", "time": 1"#) {
        Some(Event::PrivateMessage { sender_name, text, .. }) if text.is_empty() => sender_name,
        other => panic!("unexpected: {other:?}"),
    };
    assert_eq!(named(r#"{ "user_id": 1, "nickname": "n" }"#), "n");
    assert_eq!(named(r#"{ "user_id": 1, "nickname": "n", "card": null }"#), "n");
    assert_eq!(named(r#"{ "user_id": 1, "nickname": "n", "card": 7 }"#), "n");
    assert_eq!(named(r#"{ "user_id": 1, "nickname": "" }"#), "");
    assert_eq!(named(r#"{ "user_id": 1, "card": "c" }"#), "c");
}

#[test]
fn failed_reply_says_why() {
    let failure = |text: &str| reply_failure(&json(text));
    assert_eq!(failure(r#"{ "retcode": 0, "wording": "w" }"#), None);
    assert_eq!(
        failure(r#"{ "retcode": 1200, "wording": "no such group" }"#),
        Some((1200, "no such group".to_string()))
    );
    assert_eq!(failure("{}"), Some((-1, String::new())));
    assert_eq!(
        failure(r#"{ "retcode": "0", "wording": 5 }"#),
        Some((-1, String::new()))
    );
}
