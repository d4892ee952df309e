//! The conversation store, seen as a consumer would.

use gugu::convo::{ConvKey, HasRowMeta, Store, GROUP_GAP_MIN};

/// A plain row payload.
#[derive(Debug, Clone)]
struct Row {
    body: String,
    grouped: bool,
    uid: i32,
    client_id: i64,
}

/// A row landing in the demo bucket (no real peer) is never unread.
#[test]
fn demo_bucket_never_unread() {
    let mut store: Store<Row> = Store::new();
    store.set_active(ConvKey::demo());
    let mut a = row("demo", 1);
    assert!(store.push(ConvKey::demo(), &mut a, "you", 10));
    assert_eq!(store.unread(ConvKey::demo()), 0);
}

fn row(body: &str, uid: i32) -> Row {
    Row {
        body: body.into(),
        grouped: false,
        uid,
        client_id: 0,
    }
}

impl HasRowMeta for Row {
    fn set_grouped(&mut self, grouped: bool) {
        self.grouped = grouped;
    }
}

fn friend(id: i64) -> ConvKey {
    ConvKey {
        id,
        is_group: false,
    }
}

#[test]
fn push_routes_by_key() {
    let mut store: Store<Row> = Store::new();
    store.set_active(friend(1));
    let mut a = row("hello", 1);
    let mut b = row("hi", 2);
    assert!(store.push(friend(1), &mut a, "alice", 10));
    assert!(!store.push(friend(2), &mut b, "bob", 11));
    assert_eq!(store.entries(friend(1)).len(), 1);
    assert_eq!(store.entries(friend(2)).len(), 1);
    assert_eq!(store.entries(friend(1))[0].body, "hello");
    assert_eq!(store.entries(friend(2))[0].body, "hi");
}

#[test]
fn push_groups_within_gap() {
    let mut store: Store<Row> = Store::new();
    store.set_active(friend(1));
    let mut r1 = row("first", 1);
    let mut r2 = row("second", 2);
    let mut r3 = row("later", 3);
    let mut r4 = row("other author", 4);
    store.push(friend(1), &mut r1, "alice", 10);
    store.push(friend(1), &mut r2, "alice", 13);
    store.push(friend(1), &mut r3, "alice", 20);
    store.push(friend(1), &mut r4, "bob", 21);
    let rows = store.entries(friend(1));
    assert!(!rows[0].grouped);
    assert!(rows[1].grouped);
    assert!(!rows[2].grouped);
    assert!(!rows[3].grouped);
    // Constant pins the Discord/Revolt grouping window.
    assert_eq!(GROUP_GAP_MIN, 5);
}

#[test]
fn unread_counts_and_active_suppression() {
    let mut store: Store<Row> = Store::new();
    store.set_active(friend(1));
    let mut i1 = row("inbox 1", 1);
    let mut i2 = row("inbox 2", 2);
    store.push(friend(2), &mut i1, "eve", 10);
    store.push(friend(2), &mut i2, "eve", 11);
    assert_eq!(store.unread(friend(2)), 2);
    // Active conversation pushes never count as unread.
    let mut a = row("to active", 3);
    assert!(store.push(friend(1), &mut a, "me", 12));
    assert_eq!(store.unread(friend(1)), 0);
    store.set_active(friend(2));
    store.clear_unread(friend(2));
    assert_eq!(store.unread(friend(2)), 0);
    let mut i3 = row("after open", 4);
    store.push(friend(2), &mut i3, "eve", 13);
    // key == active → suppressed, not accumulated.
    assert_eq!(store.unread(friend(2)), 0);
    assert_eq!(store.active(), Some(friend(2)));
}

#[test]
fn rows_mut_spans_conversations() {
    let mut store: Store<Row> = Store::new();
    store.set_active(friend(1));
    let mut a = row("outgoing", 1);
    let mut b = row("to other conv", 2);
    store.push(friend(1), &mut a, "me", 10);
    store.push(friend(2), &mut b, "me", 11);
    // Send-retry outcome: flip status by uid across conversations.
    for r in store.rows_mut() {
        if r.uid == 2 {
            r.client_id = 99;
        }
    }
    assert_eq!(store.entries(friend(1))[0].client_id, 0);
    assert_eq!(store.entries(friend(2))[0].client_id, 99);
}

fn group(id: i64) -> ConvKey {
    ConvKey { id, is_group: true }
}

fn said(store: &mut Store<Row>, key: ConvKey, author: &str, minute: i64) -> bool {
    let mut r = row("text", 0);
    store.push(key, &mut r, author, minute);
    r.grouped
}

#[test]
fn friend_and_group_of_one_id_are_apart() {
    let mut store: Store<Row> = Store::default();
    said(&mut store, friend(7), "alice", 1);
    assert_eq!(store.entries(friend(7)).len(), 1);
    assert!(store.entries(group(7)).is_empty());
    assert_eq!(store.unread(group(7)), 0);
    assert_eq!(store.unread(friend(7)), 1);
}

#[test]
fn other_conversations_do_not_break_a_group() {
    let mut store: Store<Row> = Store::new();
    assert!(!said(&mut store, friend(1), "alice", 10));
    assert!(!said(&mut store, friend(2), "bob", 11));
    assert!(said(&mut store, friend(1), "alice", 12));
}

#[test]
fn group_window_is_zero_to_five_minutes() {
    let mut store: Store<Row> = Store::new();
    assert!(!said(&mut store, friend(1), "alice", 10));
    assert!(said(&mut store, friend(1), "alice", 10));
    assert!(said(&mut store, friend(1), "alice", 15));
    assert!(!said(&mut store, friend(1), "alice", 21));
    assert!(!said(&mut store, friend(1), "alice", 20));
    assert!(!said(&mut store, friend(1), "bob", 20));
}

#[test]
fn stored_row_carries_its_group_flag() {
    let mut store: Store<Row> = Store::new();
    said(&mut store, friend(1), "alice", 10);
    said(&mut store, friend(1), "alice", 11);
    let flags: Vec<bool> = store.entries(friend(1)).iter().map(|r| r.grouped).collect();
    assert_eq!(flags, [false, true]);
}

#[test]
fn fresh_store_is_empty() {
    let store: Store<Row> = Store::new();
    assert_eq!(store.active(), None);
    assert!(store.entries(friend(1)).is_empty());
    assert_eq!(store.unread(friend(1)), 0);
}

#[test]
fn extreme_ids_are_told_apart() {
    let mut store: Store<Row> = Store::new();
    let keys = [friend(i64::MAX), group(i64::MAX), friend(i64::MIN), group(i64::MIN), group(-1)];
    for (i, key) in keys.iter().enumerate() {
        for _ in 0..i {
            said(&mut store, *key, "x", 0);
        }
    }
    for (i, key) in keys.iter().enumerate() {
        assert_eq!(store.entries(*key).len(), i);
    }
    assert_eq!(store.rows_mut().len(), 10);
}

#[test]
fn setting_active_leaves_unread_alone() {
    let mut store: Store<Row> = Store::new();
    said(&mut store, friend(1), "eve", 1);
    store.set_active(friend(1));
    assert_eq!(store.unread(friend(1)), 1);
    store.clear_unread(friend(1));
    assert_eq!(store.unread(friend(1)), 0);
    assert_eq!(store.entries(friend(1)).len(), 1);
}

#[test]
fn demo_row_is_read_whatever_is_on_display() {
    let mut store: Store<Row> = Store::new();
    let mut a = row("demo", 1);
    assert!(!store.push(ConvKey::demo(), &mut a, "you", 10));
    assert_eq!(store.unread(ConvKey::demo()), 0);
    store.set_active(friend(1));
    let mut b = row("demo", 2);
    assert!(!store.push(ConvKey::demo(), &mut b, "you", 11));
    assert!(b.grouped);
    assert_eq!(store.unread(ConvKey::demo()), 0);
    assert_eq!(store.entries(ConvKey::demo()).len(), 2);
    // The group of the same id is a real conversation.
    said(&mut store, group(0), "eve", 12);
    assert_eq!(store.unread(group(0)), 1);
}

#[test]
fn only_the_last_row_of_a_conversation_decides_its_grouping() {
    let mut store: Store<Row> = Store::new();
    said(&mut store, friend(1), "alice", 10);
    said(&mut store, friend(2), "bob", 40);
    store.set_active(friend(1));
    store.clear_unread(friend(1));
    for r in store.rows_mut() {
        r.body.push('!');
    }
    assert!(said(&mut store, friend(1), "alice", 15));
    assert_eq!(store.entries(friend(1))[0].body, "text!");
}

#[test]
fn rows_mut_gives_a_conversation_oldest_first() {
    let mut store: Store<Row> = Store::new();
    for uid in 0..6 {
        let mut r = row("text", uid);
        store.push(friend(i64::from(uid % 2)), &mut r, "x", 0);
    }
    let uids: Vec<i32> = store.rows_mut().iter().map(|r| r.uid).collect();
    let even: Vec<i32> = uids.iter().copied().filter(|u| u % 2 == 0).collect();
    let odd: Vec<i32> = uids.iter().copied().filter(|u| u % 2 == 1).collect();
    assert_eq!((even, odd), (vec![0, 2, 4], vec![1, 3, 5]));
}

#[test]
fn far_apart_minutes_are_told_apart() {
    let mut store: Store<Row> = Store::new();
    assert!(!said(&mut store, friend(1), "alice", i64::MIN));
    assert!(!said(&mut store, friend(1), "alice", i64::MAX - 1));
    assert!(said(&mut store, friend(1), "alice", i64::MAX));
    assert!(!said(&mut store, friend(1), "alice", i64::MIN));
}
