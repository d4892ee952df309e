//! Rows, the sidebar and sending.

use gugu::chat::{
    color_of, first_of, first_selectable, fmt_time, incoming_minute, initial, now_minutes,
    send_target, sidebar, Change, Channel, Transcript,
};
use gugu::convo::{ConvKey, Store};
use gugu::onebot::{Event, Peer};
use gugu::transport::Action;

fn peer(id: i64, name: &str, is_group: bool) -> Peer {
    Peer {
        id,
        name: name.to_string(),
        is_group,
    }
}

fn roster() -> Vec<Peer> {
    vec![
        peer(21, "老友", false),
        peer(31, "g1", true),
        peer(22, "fr2", false),
    ]
}

fn shown(rows: &[Channel]) -> Vec<(&str, bool, &str, bool)> {
    rows.iter()
        .map(|r| (r.name.as_str(), r.header, r.peer_id.as_str(), r.is_group))
        .collect()
}

#[test]
fn initial_is_the_first_letter_in_capitals() {
    assert_eq!(initial("alice"), "A");
    assert_eq!(initial("咕咕"), "咕");
    assert_eq!(initial("ß"), "SS");
    assert_eq!(initial(""), "?");
    assert_eq!(first_of("élan"), 'é');
}

#[test]
fn colour_is_the_code_sum_mod_eight() {
    assert_eq!(color_of(""), 0);
    assert_eq!(color_of("a"), 97 % 8);
    assert_eq!(color_of("you"), (121 + 111 + 117) % 8);
    let name = "\u{10FFFF}".repeat(5000);
    assert_eq!(
        color_of(&name) as u64,
        name.chars().map(|c| c as u64).sum::<u64>() % 8
    );
}

#[test]
fn minutes_of_the_day_are_utc() {
    assert_eq!(now_minutes(0), 0);
    assert_eq!(now_minutes(86_399), 1439);
    assert_eq!(now_minutes(86_400 + 3_660), 61);
    assert_eq!(incoming_minute(86_400 + 3_660), 61);
    assert_eq!(incoming_minute(-1), 1439);
    assert_eq!(incoming_minute(-60), 1439);
    assert_eq!(incoming_minute(-61), 1438);
    assert_eq!(incoming_minute(-44_280), 702);
    assert_eq!(incoming_minute(-86_400), 0);
    for unix in [i64::MIN, i64::MAX] {
        assert_eq!(incoming_minute(unix), unix.div_euclid(60).rem_euclid(1440));
    }
}

#[test]
fn clock_has_two_columns_each() {
    assert_eq!(fmt_time(0), "00:00");
    assert_eq!(fmt_time(9 * 60 + 5), "09:05");
    assert_eq!(fmt_time(20 * 60 + 31), "20:31");
    assert_eq!(fmt_time(1439), "23:59");
    assert_eq!(fmt_time(1440), "00:00");
    for min in [-1, -61, -1439, i64::MIN, i64::MAX] {
        assert_eq!(
            fmt_time(min),
            format!("{:02}:{:02}", (min / 60) % 24, min % 60)
        );
    }
}

#[test]
fn rows_of_one_author_are_grouped_for_five_minutes() {
    let mut t = Transcript::new();
    let minute = 20 * 60;
    let flags: Vec<bool> = [
        ("alice", 0),
        ("alice", 1),
        ("alice", 2),
        ("bob", 4),
        ("bob", 5),
        ("carol", 7),
        ("alice", 20),
        ("alice", 26),
        ("alice", 31),
    ]
    .iter()
    .map(|(author, after)| t.add(author, "text", minute + after).grouped)
    .collect();
    assert_eq!(
        flags,
        [false, true, true, false, true, false, false, false, true]
    );
}

#[test]
fn row_shows_author_body_and_time() {
    let mut t = Transcript::new();
    let row = t.push_incoming("bob", "早上好", 86_400 + 8 * 3_600 + 5 * 60);
    assert_eq!(row.author, "bob");
    assert_eq!(row.initial, "B");
    assert_eq!(row.body, "早上好");
    assert_eq!(row.time, "08:05");
    assert_eq!(row.color, color_of("bob"));
    assert!(!row.grouped);
    assert_eq!(row.uid, 0);
}

#[test]
fn incoming_and_outgoing_rows_share_the_grouping() {
    let mut t = Transcript::new();
    let none: Vec<Channel> = Vec::new();
    t.push_incoming("you", "from the phone", 600);
    let sent = t.send("from here", &none, 0, false, 12).unwrap();
    assert!(sent.row.grouped);
    assert!(t.send_sticker(13).grouped);
    assert!(!t.push_incoming("bob", "hi", 840).grouped);
    assert!(!t.send("again", &none, 0, false, 15).unwrap().row.grouped);
}

#[test]
fn row_identities_count_up() {
    let mut t = Transcript::new();
    let first = t.add("a", "", 0).uid;
    let second = t.send_sticker(0).uid;
    let third = t.next_uid();
    assert_eq!((first, second, third), (0, 1, 2));
}

#[test]
fn sidebar_has_two_sections() {
    assert_eq!(
        shown(&sidebar(&roster())),
        [
            ("私信", true, "", false),
            ("老友", false, "21", false),
            ("fr2", false, "22", false),
            ("群聊", true, "", false),
            ("g1", false, "31", true),
        ]
    );
    assert_eq!(
        shown(&sidebar(&vec![peer(31, "g1", true)])),
        [("群聊", true, "", false), ("g1", false, "31", true)]
    );
    assert!(sidebar(&Vec::new()).is_empty());
}

#[test]
fn first_selectable_row_is_no_header() {
    assert_eq!(first_selectable(&sidebar(&roster())), 1);
    assert_eq!(first_selectable(&Vec::new()), 0);
    let mut rows = sidebar(&roster());
    rows.truncate(1);
    assert_eq!(first_selectable(&rows), 0);
    rows.clear();
    rows.extend(sidebar(&roster()).into_iter().filter(|r| !r.header));
    assert_eq!(first_selectable(&rows), 0);
}

#[test]
fn selected_row_names_the_target() {
    let rows = sidebar(&roster());
    assert_eq!(send_target(&rows, 0), None);
    assert_eq!(send_target(&rows, 1), Some((21, false)));
    assert_eq!(send_target(&rows, 4), Some((31, true)));
    assert_eq!(send_target(&rows, 5), None);
    assert_eq!(send_target(&rows, -1), None);
    let first: Vec<Channel> = rows[1..].to_vec();
    assert_eq!(send_target(&first, -3), Some((21, false)));
    assert_eq!(send_target(&sidebar(&vec![peer(-7, "n", false)]), 1), Some((-7, false)));
}

#[test]
fn draft_goes_to_the_selected_peer() {
    let mut t = Transcript::new();
    let rows = sidebar(&roster());
    let sent = t.send(" hi ", &rows, 4, true, 10).unwrap();
    assert!(matches!(
        &sent.action,
        Some(Action::SendGroup { group_id: 31, text }) if text == " hi "
    ));
    assert_eq!((sent.row.author.as_str(), sent.row.body.as_str()), ("you", " hi "));
    assert_eq!(sent.row.time, "00:10");
    let sent = t.send("yo", &rows, 2, true, 10).unwrap();
    assert!(matches!(
        &sent.action,
        Some(Action::SendPrivate { user_id: 22, text }) if text == "yo"
    ));
}

#[test]
fn draft_without_a_target_is_echoed_locally() {
    let mut t = Transcript::new();
    let rows = sidebar(&roster());
    assert!(t.send("a", &rows, 3, true, 0).unwrap().action.is_none());
    assert!(t.send("a", &rows, 1, false, 0).unwrap().action.is_none());
    assert!(t.send("a", &Vec::new(), 0, true, 0).unwrap().action.is_none());
}

#[test]
fn blank_draft_is_not_sent() {
    let mut t = Transcript::new();
    let rows = sidebar(&roster());
    assert!(t.send(" \t\u{3000}", &rows, 1, true, 0).is_none());
    assert!(t.send("", &rows, 1, true, 0).is_none());
    assert_eq!(t.next_uid(), 0);
}

#[test]
fn events_change_the_window() {
    let mut t = Transcript::new();
    assert!(matches!(t.apply(Event::Connected), Change::Label(l) if l == "已连接"));
    let login = Event::Login {
        nickname: "gugu".to_string(),
        uin: "1".to_string(),
    };
    assert!(matches!(t.apply(login), Change::Label(l) if l == "已连接 · gugu"));
    match t.apply(Event::Roster { peers: roster() }) {
        Change::Sidebar { rows, selected } => {
            assert_eq!((rows.len(), selected), (5, 1));
        }
        other => panic!("unexpected: {other:?}"),
    }
    assert!(matches!(
        t.apply(Event::Roster { peers: Vec::new() }),
        Change::Sidebar { rows, selected: 0 } if rows.is_empty()
    ));
    for grouped in [false, true] {
        let message = if grouped {
            Event::GroupMessage {
                group_id: 9,
                sender_id: 3,
                sender_name: "alice".to_string(),
                text: "hi".to_string(),
                time: 60,
            }
        } else {
            Event::PrivateMessage {
                sender_id: 3,
                sender_name: "alice".to_string(),
                text: "hi".to_string(),
                time: 0,
            }
        };
        match t.apply(message) {
            Change::Row(row) => {
                assert_eq!((row.author.as_str(), row.body.as_str()), ("alice", "hi"));
                assert_eq!(row.grouped, grouped);
            }
            other => panic!("unexpected: {other:?}"),
        }
    }
}

#[test]
fn rows_can_be_kept_per_conversation() {
    let mut t = Transcript::new();
    let mut store = Store::new();
    let key = ConvKey {
        id: 21,
        is_group: false,
    };
    let mut row = t.add("alice", "one", 10);
    store.push(key, &mut row, "alice", 10);
    let mut row = t.add("bob", "two", 11);
    store.push(ConvKey::demo(), &mut row, "bob", 11);
    let mut row = t.add("alice", "three", 12);
    assert!(!row.grouped);
    store.push(key, &mut row, "alice", 12);
    assert!(row.grouped);
    assert_eq!(store.entries(key)[1].body, "three");
    assert!(store.entries(key)[1].grouped);
}

#[test]
fn rows_are_grouped_over_midnight() {
    let mut t = Transcript::new();
    let x = t.push_incoming("a", "x", 86_340);
    let y = t.push_incoming("a", "y", 86_400);
    assert_eq!((x.time.as_str(), y.time.as_str()), ("23:59", "00:00"));
    assert_eq!((x.grouped, y.grouped), (false, true));
    assert!(!t.send_sticker(1439).grouped);
    assert!(t.send_sticker(0).grouped);
    assert!(t.send("hi", &Vec::new(), 0, false, 5).unwrap().row.grouped);
    // Six minutes over midnight, and a row of the next morning.
    assert!(!t.send_sticker(1437).grouped);
    assert!(!t.send_sticker(3).grouped);
    assert!(!t.send_sticker(1380).grouped);
    assert!(!t.send_sticker(480).grouped);
}

#[test]
fn incoming_rows_are_grouped_by_their_time_stamps() {
    let grouped = |first: i64, second: i64| {
        let mut t = Transcript::new();
        t.push_incoming("a", "x", first);
        t.push_incoming("a", "y", second).grouped
    };
    let day = 86_400;
    assert!(grouped(86_340, 86_400));
    assert!(grouped(0, 5 * 60 + 59));
    assert!(!grouped(0, 6 * 60));
    assert!(!grouped(60, 59));
    // A day and a few minutes later.
    assert!(!grouped(86_340, 2 * day));
    assert!(!grouped(36_000, 36_180 + day));
    assert!(grouped(-60, 0));
    assert!(!grouped(i64::MIN, i64::MAX));
    assert!(!grouped(i64::MAX, i64::MIN));
}

#[test]
fn rows_without_a_time_stamp_are_grouped_by_the_clock() {
    let mut t = Transcript::new();
    t.push_incoming("you", "x", 3 * 86_400 + 86_340);
    assert!(t.send_sticker(0).grouped);
    assert!(t.push_incoming("you", "y", 9 * 86_400 + 60).grouped);
}

#[test]
fn row_before_the_epoch_shows_its_clock_time() {
    let mut t = Transcript::new();
    assert_eq!(t.push_incoming("a", "x", -44_280).time, "11:42");
    assert_eq!(t.push_incoming("a", "y", -1).time, "23:59");
}
