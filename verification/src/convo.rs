//! Conversation-routing pure logic: per-peer message transcripts, grouping,
//! and unread counts. Deliberately UI-free: rows are plain data.

use std::collections::HashMap;

use vstd::prelude::*;

use crate::text::str_eq;

verus! {

broadcast use vstd::std_specs::hash::group_hash_axioms;

/// Identifies one conversation: the roster peer (friend `user_id` or group
/// `group_id`) plus its kind. Demo-mode rows (no real peer) share a single
/// bucket and behave as if there were no other conversation: they are never
/// unread.
#[derive(Debug, Clone, Copy, PartialEq, Eq, Hash, Structural)]
pub struct ConvKey {
    pub id: i64,
    pub is_group: bool,
}

impl ConvKey {
    /// Bucket for rows that carry no real peer id (demo/mock channels).
    pub fn demo() -> (key: ConvKey)
        ensures
            key == (ConvKey { id: 0, is_group: false }),
            key.is_demo(),
    {
        ConvKey { id: 0, is_group: false }
    }

    /// Whether this is the bucket for rows that carry no real peer id.
    pub open spec fn is_demo(self) -> bool {
        self == (ConvKey { id: 0, is_group: false })
    }

    /// One integer for each key: twice the id, plus one for a group.
    spec fn code(self) -> int {
        2 * self.id + if self.is_group {
            1int
        } else {
            0
        }
    }
}

/// Minutes after which the same author starts a new message group.
pub const GROUP_GAP_MIN: i64 = 5;

/// Whether a row by `author` at `minute` joins the group of the row before it
/// in its conversation: same author, and zero to five minutes later.
pub open spec fn joins_group(
    last: Option<(Seq<char>, i64)>,
    author: Seq<char>,
    minute: int,
) -> bool {
    last matches Some((last_author, last_minute)) && last_author == author && 0 <= minute
        - last_minute <= GROUP_GAP_MIN
}

/// Bridge between the store's grouping rule and the caller's row type.
pub trait HasRowMeta: Sized {
    /// Whether `after` is the row `before` with its grouping flag set to
    /// `grouped`. An implementation says what that is; one that does not
    /// promises nothing of the row.
    open spec fn regrouped(before: Self, after: Self, grouped: bool) -> bool {
        true
    }

    fn set_grouped(&mut self, grouped: bool)
        ensures
            Self::regrouped(*old(self), *final(self), grouped),
    ;
}

/// One conversation: its rows, oldest first, the author and minute of the
/// last one, and the rows not read yet.
struct Bucket<T> {
    key: ConvKey,
    rows: Vec<T>,
    last: Option<(String, i64)>,
    unread: u32,
}

/// Per-conversation transcripts with grouping state and unread counters.
///
/// `T` is the row payload.
pub struct Store<T> {
    buckets: Vec<Bucket<T>>,
    /// Where the bucket of a key stands, by the key's code.
    index: HashMap<i128, usize>,
    active: Option<ConvKey>,
}

/// What an author and minute say.
spec fn last_model(last: Option<(String, i64)>) -> Option<(Seq<char>, i64)> {
    match last {
        Some((author, minute)) => Some((author@, minute)),
        None => None,
    }
}

/// An unread count with one more row; a full counter starts over.
pub open spec fn one_more(count: u32) -> u32 {
    if count == u32::MAX {
        0
    } else {
        (count + 1) as u32
    }
}

impl<T> Store<T> {
    /// The index leads from each bucket's key to the bucket, and nowhere else.
    pub closed spec fn wf(self) -> bool {
        &&& forall|i: int|
            0 <= i < self.buckets@.len() ==> {
                &&& self.index@.contains_key((#[trigger] self.buckets@[i]).key.code() as i128)
                &&& self.index@[self.buckets@[i].key.code() as i128] == i
            }
        &&& forall|code: i128| #[trigger]
            self.index@.contains_key(code) ==> self.index@[code] < self.buckets@.len()
                && self.buckets@[self.index@[code] as int].key.code() == code
    }

    spec fn has(self, key: ConvKey) -> bool {
        self.index@.contains_key(key.code() as i128)
    }

    spec fn bucket(self, key: ConvKey) -> Bucket<T> {
        self.buckets@[self.index@[key.code() as i128] as int]
    }

    /// The rows of a conversation, oldest first.
    pub closed spec fn rows(self, key: ConvKey) -> Seq<T> {
        if self.has(key) {
            self.bucket(key).rows@
        } else {
            Seq::empty()
        }
    }

    /// The author and minute of a conversation's last row.
    pub closed spec fn last_seen(self, key: ConvKey) -> Option<(Seq<char>, i64)> {
        if self.has(key) {
            last_model(self.bucket(key).last)
        } else {
            None
        }
    }

    /// The unread rows of a conversation.
    pub closed spec fn unread_rows(self, key: ConvKey) -> u32 {
        if self.has(key) {
            self.bucket(key).unread
        } else {
            0
        }
    }

    /// The conversation on display.
    pub closed spec fn active_key(self) -> Option<ConvKey> {
        self.active
    }

    /// Whether `after` is `self` with one more row in `key`'s transcript, by
    /// `author` at `minute`: unread unless `key` is on display or the demo
    /// bucket, and nothing else changed.
    pub open spec fn appended(
        self,
        after: Store<T>,
        key: ConvKey,
        author: Seq<char>,
        minute: i64,
    ) -> bool {
        &&& after.rows(key).len() == self.rows(key).len() + 1
        &&& after.rows(key).drop_last() == self.rows(key)
        &&& after.last_seen(key) == Some((author, minute))
        &&& after.unread_rows(key) == if self.active_key() == Some(key) || key.is_demo() {
            self.unread_rows(key)
        } else {
            one_more(self.unread_rows(key))
        }
        &&& after.active_key() == self.active_key()
        &&& forall|other: ConvKey|
            #![trigger after.agrees(self, other)]
            #![trigger after.rows(other)]
            #![trigger after.last_seen(other)]
            #![trigger after.unread_rows(other)]
            other != key ==> after.agrees(self, other)
    }

    /// Whether `after` is `self` with `key` on display and nothing else changed.
    pub open spec fn activated(self, after: Store<T>, key: ConvKey) -> bool {
        &&& after.active_key() == Some(key)
        &&& forall|any: ConvKey|
            #![trigger after.agrees(self, any)]
            #![trigger after.rows(any)]
            #![trigger after.last_seen(any)]
            #![trigger after.unread_rows(any)]
            after.agrees(self, any)
    }

    /// Whether `after` is `self` with `key` marked as read and nothing else
    /// changed.
    pub open spec fn cleared(self, after: Store<T>, key: ConvKey) -> bool {
        &&& after.unread_rows(key) == 0
        &&& after.rows(key) == self.rows(key)
        &&& after.last_seen(key) == self.last_seen(key)
        &&& after.active_key() == self.active_key()
        &&& forall|other: ConvKey|
            #![trigger after.agrees(self, other)]
            #![trigger after.rows(other)]
            #![trigger after.last_seen(other)]
            #![trigger after.unread_rows(other)]
            other != key ==> after.agrees(self, other)
    }

    /// Whether `after` is `self` up to what the rows hold: there are as many,
    /// and nothing else changed.
    pub open spec fn edited(self, after: Store<T>) -> bool {
        &&& after.active_key() == self.active_key()
        &&& forall|key: ConvKey|
            #![trigger after.rows(key)]
            #![trigger after.last_seen(key)]
            #![trigger after.unread_rows(key)]
            {
                &&& after.rows(key).len() == self.rows(key).len()
                &&& after.last_seen(key) == self.last_seen(key)
                &&& after.unread_rows(key) == self.unread_rows(key)
            }
    }

    /// Whether the conversation `key` is the same here and there.
    pub open spec fn agrees(self, other: Store<T>, key: ConvKey) -> bool {
        &&& self.rows(key) == other.rows(key)
        &&& self.last_seen(key) == other.last_seen(key)
        &&& self.unread_rows(key) == other.unread_rows(key)
    }
}

fn code_of(key: ConvKey) -> (code: i128)
    ensures
        code == key.code(),
{
    2 * (key.id as i128) + if key.is_group {
        1
    } else {
        0
    }
}

impl<T> Store<T> {
    /// Where the bucket of `key` stands, if there is one.
    fn find(&self, key: ConvKey) -> (out: Option<usize>)
        requires
            self.wf(),
        ensures
            match out {
                Some(i) => self.has(key) && self.index@[key.code() as i128] == i && i
                    < self.buckets@.len() && self.buckets@[i as int].key == key,
                None => !self.has(key),
            },
    {
        let code: i128 = code_of(key);
        match self.index.get(&code) {
            Some(i) => Some(*i),
            None => None,
        }
    }

    /// Where the bucket of `key` stands, made empty if there was none.
    fn find_or_add(&mut self, key: ConvKey) -> (i: usize)
        requires
            old(self).wf(),
        ensures
            final(self).wf(),
            final(self).has(key),
            final(self).index@[key.code() as i128] == i,
            i < final(self).buckets@.len(),
            final(self).active == old(self).active,
            forall|k: ConvKey| #[trigger] final(self).agrees(*old(self), k),
    {
        match self.find(key) {
            Some(i) => i,
            None => {
                let i: usize = self.buckets.len();
                self.buckets.push(Bucket { key, rows: Vec::new(), last: None, unread: 0 });
                let code: i128 = code_of(key);
                self.index.insert(code, i);
                i
            },
        }
    }
}

/// Where the rows of the `i`th bucket begin when all rows stand in one line,
/// bucket after bucket.
spec fn offset<T>(buckets: Seq<Bucket<T>>, i: int) -> int
    decreases i,
{
    if i <= 0 {
        0
    } else {
        offset(buckets, i - 1) + buckets[i - 1].rows@.len()
    }
}

proof fn lemma_offset_grows<T>(buckets: Seq<Bucket<T>>, i: int, k: int)
    requires
        0 <= i < k <= buckets.len(),
    ensures
        0 <= offset(buckets, i),
        offset(buckets, i) + buckets[i].rows@.len() <= offset(buckets, k),
    decreases k,
{
    if i > 0 {
        lemma_offset_grows(buckets, i - 1, i);
    }
    if i < k - 1 {
        lemma_offset_grows(buckets, i, k - 1);
    }
}

/// Each place in the line belongs to some row.
proof fn lemma_offset_covers<T>(buckets: Seq<Bucket<T>>, n: int, at: int) -> (found: (int, int))
    requires
        0 <= n <= buckets.len(),
        0 <= at < offset(buckets, n),
    ensures
        0 <= found.0 < n,
        0 <= found.1 < buckets[found.0].rows@.len(),
        at == offset(buckets, found.0) + found.1,
    decreases n,
{
    if at < offset(buckets, n - 1) {
        lemma_offset_covers(buckets, n - 1, at)
    } else {
        (n - 1, at - offset(buckets, n - 1))
    }
}

/// Add a reference to each of the rows to `out`.
fn collect_rows<'a, T>(rows: &'a mut [T], out: &mut Vec<&'a mut T>)
    ensures
        final(rows)@.len() == old(rows)@.len(),
        final(out)@.len() == old(out)@.len() + old(rows)@.len(),
        forall|i: int| 0 <= i < old(out)@.len() ==> #[trigger] final(out)@[i] == old(out)@[i],
        forall|i: int|
            old(out)@.len() <= i < final(out)@.len() ==> *(#[trigger] final(out)@[i])
                == old(rows)@[i - old(out)@.len()],
        forall|i: int|
            old(out)@.len() <= i < final(out)@.len() ==> *final(#[trigger] final(out)@[i])
                == final(rows)@[i - old(out)@.len()],
{
    let ghost start = out@;
    let ghost before = rows@;
    let ghost after = final(rows)@;
    let total: usize = rows.len();
    let mut rest: &'a mut [T] = rows;
    let mut done: usize = 0;
    while rest.len() > 0
        invariant
            start.len() + done == out@.len(),
            done + rest@.len() == before.len(),
            total == before.len(),
            rest@ == before.skip(done as int),
            after.len() >= done,
            final(rest)@ == after.skip(done as int),
            forall|i: int| 0 <= i < start.len() ==> #[trigger] out@[i] == start[i],
            forall|i: int|
                start.len() <= i < out@.len() ==> *(#[trigger] out@[i]) == before[i - start.len()],
            forall|i: int|
                start.len() <= i < out@.len() ==> *final(#[trigger] out@[i]) == after[i
                    - start.len()],
        decreases rest@.len(),
    {
        let ghost whole = final(rest)@;
        let (head, tail) = rest.split_at_mut(1);
        let ghost head_after = final(head)@;
        match head.first_mut() {
            Some(row) => {
                out.push(row);
            },
            None => {},
        }
        proof {
            assert(head_after.len() == 1);
            assert(whole.len() >= 1);
            assert(whole[0] == after[done as int]);
            assert(final(tail)@ =~= whole.skip(1));
            assert(whole.skip(1) =~= after.skip(done + 1));
        }
        rest = tail;
        done += 1;
    }
}

/// Whether two buckets differ in what their rows hold at most.
spec fn same_frame<T>(a: Bucket<T>, b: Bucket<T>) -> bool {
    a.key == b.key && a.last == b.last && a.unread == b.unread && a.rows@.len() == b.rows@.len()
}

/// Add a reference to each row of each bucket to `out`.
fn collect_buckets<'a, T>(buckets: &'a mut [Bucket<T>], out: &mut Vec<&'a mut T>)
    requires
        old(out)@.len() == 0,
    ensures
        final(buckets)@.len() == old(buckets)@.len(),
        forall|i: int|
            0 <= i < old(buckets)@.len() ==> same_frame(
                #[trigger] final(buckets)@[i],
                old(buckets)@[i],
            ),
        final(out)@.len() == offset(old(buckets)@, old(buckets)@.len() as int),
        forall|i: int, j: int|
            0 <= i < old(buckets)@.len() && 0 <= j < old(buckets)@[i].rows@.len()
                ==> *(final(out)@[offset(old(buckets)@, i) + j])
                == #[trigger] old(buckets)@[i].rows@[j],
        forall|i: int, j: int|
            0 <= i < old(buckets)@.len() && 0 <= j < old(buckets)@[i].rows@.len()
                ==> *final(final(out)@[offset(old(buckets)@, i) + j])
                == #[trigger] final(buckets)@[i].rows@[j],
{
    let ghost before = buckets@;
    let ghost after = final(buckets)@;
    let total: usize = buckets.len();
    let mut rest: &'a mut [Bucket<T>] = buckets;
    let mut done: usize = 0;
    while rest.len() > 0
        invariant
            out@.len() == offset(before, done as int),
            done + rest@.len() == before.len(),
            total == before.len(),
            rest@ == before.skip(done as int),
            after.len() >= done,
            final(rest)@ == after.skip(done as int),
            forall|i: int| 0 <= i < done ==> same_frame(#[trigger] after[i], before[i]),
            forall|i: int, j: int|
                0 <= i < done && 0 <= j < before[i].rows@.len() ==> *out@[offset(before, i) + j]
                    == #[trigger] before[i].rows@[j],
            forall|i: int, j: int|
                0 <= i < done && 0 <= j < before[i].rows@.len()
                    ==> *final(out@[offset(before, i) + j]) == #[trigger] after[i].rows@[j],
        decreases rest@.len(),
    {
        let ghost whole = final(rest)@;
        let ghost earlier = out@;
        let (head, tail) = rest.split_at_mut(1);
        let ghost head_after = final(head)@;
        match head.first_mut() {
            Some(bucket) => {
                collect_rows(bucket.rows.as_mut_slice(), out);
            },
            None => {},
        }
        proof {
            assert(head_after.len() == 1);
            assert(whole.len() >= 1);
            assert(whole[0] == after[done as int]);
            assert(final(tail)@ =~= whole.skip(1));
            assert(whole.skip(1) =~= after.skip(done + 1));
            assert forall|i: int|
                #![trigger offset(before, i)]
                0 <= i < done implies 0 <= offset(before, i) && offset(before, i)
                + before[i].rows@.len() <= earlier.len() by {
                lemma_offset_grows(before, i, done as int);
            }
            lemma_offset_grows(before, done as int, done + 1);
        }
        rest = tail;
        done += 1;
    }
}

impl<T> Store<T> {
    /// Where a row stands among all rows.
    pub closed spec fn place(self, key: ConvKey, j: int) -> int {
        offset(self.buckets@, self.index@[key.code() as i128] as int) + j
    }

    /// Whether some row stands at this place.
    pub open spec fn placed(self, at: int) -> bool {
        exists|key: ConvKey, j: int|
            0 <= j < self.rows(key).len() && at == #[trigger] self.place(key, j)
    }
}

impl<T: Clone + HasRowMeta> Store<T> {
    pub fn new() -> (store: Self)
        ensures
            store.wf(),
            store.active_key() is None,
            forall|key: ConvKey|
                {
                    &&& #[trigger] store.rows(key) == Seq::<T>::empty()
                    &&& store.last_seen(key) is None
                    &&& store.unread_rows(key) == 0
                },
    {
        Store { buckets: Vec::new(), index: HashMap::new(), active: None }
    }

    /// Append `row` to `key`'s transcript, computing grouping from that
    /// conversation's last (author, minute). Rows landing in a non-active
    /// conversation bump its unread count, except in the demo bucket, whose
    /// rows are never unread; a full count starts over. Returns whether the row
    /// landed in the currently active conversation, so the caller knows whether
    /// it must also show it.
    pub fn push(&mut self, key: ConvKey, row: &mut T, author: &str, minute: i64) -> (landed: bool)
        requires
            old(self).wf(),
        ensures
            final(self).wf(),
            landed == (old(self).active_key() == Some(key)),
            T::regrouped(
                *old(row),
                *final(row),
                joins_group(old(self).last_seen(key), author@, minute as int),
            ),
            old(self).appended(*final(self), key, author@, minute),
            cloned::<T>(*final(row), final(self).rows(key).last()),
    {
        let i: usize = self.find_or_add(key);
        assert(self.agrees(*old(self), key));
        let ghost middle = *self;
        let grouped = match &self.buckets[i].last {
            Some((last_author, last_minute)) => str_eq(last_author.as_str(), author)
                && *last_minute <= minute && (*last_minute > i64::MAX - GROUP_GAP_MIN || minute
                <= *last_minute + GROUP_GAP_MIN),
            None => false,
        };
        row.set_grouped(grouped);
        let stored = row.clone();
        self.buckets[i].last = Some((author.to_owned(), minute));
        self.buckets[i].rows.push(stored);
        let landed = match self.active {
            Some(active) => active == key,
            None => false,
        };
        if !landed && key != ConvKey::demo() {
            self.buckets[i].unread = self.buckets[i].unread.wrapping_add(1);
        }
        proof {
            assert(self.rows(key).drop_last() =~= old(self).rows(key));
            assert forall|other: ConvKey| other != key implies #[trigger] self.agrees(
                *old(self),
                other,
            ) by {
                assert(middle.agrees(*old(self), other));
            }
        }
        landed
    }

    /// Rows of one conversation, oldest first.
    pub fn entries(&self, key: ConvKey) -> (out: &[T])
        requires
            self.wf(),
        ensures
            out@ == self.rows(key),
    {
        match self.find(key) {
            Some(i) => self.buckets[i].rows.as_slice(),
            None => &[],
        }
    }

    /// Unread count for `key` (0 = none).
    pub fn unread(&self, key: ConvKey) -> (count: u32)
        requires
            self.wf(),
        ensures
            count == self.unread_rows(key),
    {
        match self.find(key) {
            Some(i) => self.buckets[i].unread,
            None => 0,
        }
    }

    /// Mark `key` as read (after its transcript is displayed).
    pub fn clear_unread(&mut self, key: ConvKey)
        requires
            old(self).wf(),
        ensures
            final(self).wf(),
            old(self).cleared(*final(self), key),
    {
        match self.find(key) {
            Some(i) => {
                self.buckets[i].unread = 0;
            },
            None => {},
        }
    }

    /// Switch the active conversation (does not touch unread: clearing is
    /// explicit via [`Store::clear_unread`]).
    pub fn set_active(&mut self, key: ConvKey)
        requires
            old(self).wf(),
        ensures
            final(self).wf(),
            old(self).activated(*final(self), key),
    {
        self.active = Some(key);
    }

    pub fn active(&self) -> (key: Option<ConvKey>)
        ensures
            key == self.active_key(),
    {
        self.active
    }

    /// Mutable access across all conversations: send-retry outcomes arrive for
    /// whatever conversation the user has since switched away from. Each row
    /// comes once, and the rows of one conversation come oldest first.
    pub fn rows_mut(&mut self) -> (rows: Vec<&mut T>)
        requires
            old(self).wf(),
        ensures
            final(self).wf(),
            old(self).edited(*final(self)),
            forall|key: ConvKey, j: int|
                0 <= j < old(self).rows(key).len() ==> {
                    let at = #[trigger] old(self).place(key, j);
                    &&& 0 <= at < rows@.len()
                    &&& *rows@[at] == old(self).rows(key)[j]
                    &&& final(self).rows(key)[j] == *final(rows@[at])
                },
            forall|a: ConvKey, i: int, b: ConvKey, j: int|
                0 <= i < old(self).rows(a).len() && 0 <= j < old(self).rows(b).len()
                    && #[trigger] old(self).place(a, i) == #[trigger] old(self).place(b, j) ==> a
                    == b && i == j,
            forall|key: ConvKey, i: int, j: int|
                0 <= i < j < old(self).rows(key).len() ==> #[trigger] old(self).place(key, i)
                    < #[trigger] old(self).place(key, j),
            forall|at: int| 0 <= at < rows@.len() ==> #[trigger] old(self).placed(at),
    {
        let mut rows: Vec<&mut T> = Vec::new();
        let ghost before = self.buckets@;
        let ghost store = *self;
        collect_buckets(self.buckets.as_mut_slice(), &mut rows);
        proof {
            let n = before.len() as int;
            assert forall|i: int| #![trigger offset(before, i)] 0 <= i < n implies 0 <= offset(
                before,
                i,
            ) && offset(before, i) + before[i].rows@.len() <= offset(before, n) by {
                lemma_offset_grows(before, i, n);
            }
            assert forall|a: ConvKey, i: int, b: ConvKey, j: int|
                0 <= i < store.rows(a).len() && 0 <= j < store.rows(b).len()
                    && #[trigger] store.place(a, i) == #[trigger] store.place(b, j) implies a == b
                && i == j by {
                let p = store.index@[a.code() as i128] as int;
                let q = store.index@[b.code() as i128] as int;
                if p < q {
                    lemma_offset_grows(before, p, q);
                } else if q < p {
                    lemma_offset_grows(before, q, p);
                }
            }
            assert forall|at: int| 0 <= at < rows@.len() implies #[trigger] store.placed(at) by {
                let (i, j) = lemma_offset_covers(before, n, at);
                assert(at == store.place(before[i].key, j));
            }
        }
        rows
    }
}

impl<T: Clone + HasRowMeta> Default for Store<T> {
    fn default() -> (store: Self)
        ensures
            store.wf(),
            store.active_key() is None,
            forall|key: ConvKey|
                {
                    &&& #[trigger] store.rows(key) == Seq::<T>::empty()
                    &&& store.last_seen(key) is None
                    &&& store.unread_rows(key) == 0
                },
    {
        Self::new()
    }
}

// ---- laws ----

/// A row that lands in one conversation leaves every other alone: its rows,
/// its grouping and its unread count.
pub proof fn law_conversations_do_not_mix<T>(
    before: Store<T>,
    after: Store<T>,
    key: ConvKey,
    author: Seq<char>,
    minute: i64,
    other: ConvKey,
    next_author: Seq<char>,
    next_minute: int,
)
    requires
        before.appended(after, key, author, minute),
        other != key,
    ensures
        after.rows(other) == before.rows(other),
        after.unread_rows(other) == before.unread_rows(other),
        joins_group(after.last_seen(other), next_author, next_minute) == joins_group(
            before.last_seen(other),
            next_author,
            next_minute,
        ),
{
    assert(after.agrees(before, other));
}

/// A row joins the group of the row before it in its conversation exactly
/// when the author is the same and at most five minutes passed; the rows of
/// other conversations in between do not matter.
pub proof fn law_grouping_is_per_conversation<T>(
    first: Store<T>,
    second: Store<T>,
    third: Store<T>,
    key: ConvKey,
    author: Seq<char>,
    minute: i64,
    other: ConvKey,
    other_author: Seq<char>,
    other_minute: i64,
    next_author: Seq<char>,
    next_minute: i64,
)
    requires
        first.appended(second, key, author, minute),
        second.appended(third, other, other_author, other_minute),
        other != key,
    ensures
        joins_group(third.last_seen(key), next_author, next_minute as int) == (next_author
            == author && 0 <= next_minute - minute <= GROUP_GAP_MIN),
{
    assert(third.agrees(second, key));
}

/// The first row of a conversation opens a group.
pub proof fn law_first_row_opens_a_group(author: Seq<char>, minute: int)
    ensures
        !joins_group(None, author, minute),
{
}

/// One appended row: the conversation it went to, its author and minute.
pub struct Landing {
    pub key: ConvKey,
    pub author: Seq<char>,
    pub minute: i64,
}

/// Whether `stores` are the states of one store that takes in `landings`, one
/// after the other.
pub open spec fn history<T>(stores: Seq<Store<T>>, landings: Seq<Landing>) -> bool {
    &&& stores.len() == landings.len() + 1
    &&& forall|i: int|
        #![trigger landings[i]]
        0 <= i < landings.len() ==> stores[i].appended(
            stores[i + 1],
            landings[i].key,
            landings[i].author,
            landings[i].minute,
        )
}

/// How many of the landings went to `key`.
pub open spec fn landed_in(landings: Seq<Landing>, key: ConvKey) -> int
    decreases landings.len(),
{
    if landings.len() == 0 {
        0
    } else {
        landed_in(landings.drop_last(), key) + if landings.last().key == key {
            1int
        } else {
            0
        }
    }
}

/// Over any run of rows: a transcript only grows at its end, by the rows that
/// went to it, and the unread count of a conversation grows by as many, or
/// not at all while it is the one on display or when it is the demo bucket.
/// The count is one of 32 bits.
pub proof fn law_run_of_rows<T>(stores: Seq<Store<T>>, landings: Seq<Landing>, key: ConvKey)
    requires
        history(stores, landings),
    ensures
        stores.last().active_key() == stores[0].active_key(),
        stores[0].rows(key).is_prefix_of(stores.last().rows(key)),
        stores.last().rows(key).len() == stores[0].rows(key).len() + landed_in(landings, key),
        stores[0].active_key() == Some(key) || key.is_demo() ==> stores.last().unread_rows(key)
            == stores[0].unread_rows(key),
        stores[0].active_key() != Some(key) && !key.is_demo() ==> stores.last().unread_rows(key)
            == (stores[0].unread_rows(key) + landed_in(landings, key)) % 0x1_0000_0000,
    decreases landings.len(),
{
    if landings.len() > 0 {
        let n = landings.len() - 1;
        assert(landings[n] == landings.last());
        assert forall|i: int|
            #![trigger landings.drop_last()[i]]
            0 <= i < n implies stores.drop_last()[i].appended(
            stores.drop_last()[i + 1],
            landings.drop_last()[i].key,
            landings.drop_last()[i].author,
            landings.drop_last()[i].minute,
        ) by {
            assert(landings[i] == landings.drop_last()[i]);
        }
        law_run_of_rows(stores.drop_last(), landings.drop_last(), key);
        let last = stores[n];
        let next = stores[n + 1];
        assert(stores.drop_last().last() == last);
        assert(stores.drop_last()[0] == stores[0]);
        if landings[n].key == key {
            let old_rows = stores[0].rows(key);
            assert(old_rows =~= next.rows(key).subrange(0, old_rows.len() as int)) by {
                assert(last.rows(key).subrange(0, old_rows.len() as int) == old_rows);
                assert forall|j: int| 0 <= j < old_rows.len() implies old_rows[j]
                    == next.rows(key)[j] by {
                    assert(last.rows(key).subrange(0, old_rows.len() as int)[j] == last.rows(
                        key,
                    )[j]);
                    assert(next.rows(key).drop_last()[j] == next.rows(key)[j]);
                }
            }
        } else {
            assert(next.agrees(last, key));
        }
    } else {
        assert(stores[0].rows(key).subrange(0, stores[0].rows(key).len() as int)
            =~= stores[0].rows(key));
    }
}

/// One use of a store.
pub enum Usage {
    /// A row is pushed.
    Push(Landing),
    /// A conversation is put on display.
    Activate(ConvKey),
    /// A conversation is marked as read.
    Clear(ConvKey),
    /// Rows are changed in place.
    Edit,
}

/// Whether `after` is the store once it was used so.
pub open spec fn used<T>(before: Store<T>, after: Store<T>, usage: Usage) -> bool {
    match usage {
        Usage::Push(row) => before.appended(after, row.key, row.author, row.minute),
        Usage::Activate(key) => before.activated(after, key),
        Usage::Clear(key) => before.cleared(after, key),
        Usage::Edit => before.edited(after),
    }
}

/// Whether `stores` are the states of one store that is used in these ways,
/// one after the other.
pub open spec fn course<T>(stores: Seq<Store<T>>, usages: Seq<Usage>) -> bool {
    &&& stores.len() == usages.len() + 1
    &&& forall|i: int|
        #![trigger usages[i]]
        0 <= i < usages.len() ==> used(stores[i], stores[i + 1], usages[i])
}

proof fn lemma_course_start<T>(stores: Seq<Store<T>>, usages: Seq<Usage>)
    requires
        course(stores, usages),
        usages.len() > 0,
    ensures
        course(stores.drop_last(), usages.drop_last()),
        stores.drop_last().last() == stores[usages.len() - 1],
        used(stores[usages.len() - 1], stores.last(), usages.last()),
{
    let n = usages.len() - 1;
    assert(usages[n] == usages.last());
    assert forall|i: int| #![trigger usages.drop_last()[i]] 0 <= i < n implies used(
        stores.drop_last()[i],
        stores.drop_last()[i + 1],
        usages.drop_last()[i],
    ) by {
        assert(usages[i] == usages.drop_last()[i]);
    }
}

/// The last author and minute of a conversation stay those of the last row
/// pushed to it, whatever else is done.
proof fn lemma_last_seen_stays<T>(stores: Seq<Store<T>>, usages: Seq<Usage>, key: ConvKey)
    requires
        course(stores, usages),
        usages.len() > 0,
        usages[0] matches Usage::Push(row) && row.key == key,
        forall|i: int|
            0 < i < usages.len() ==> !(#[trigger] usages[i] matches Usage::Push(row) && row.key
                == key),
    ensures
        stores.last().last_seen(key) == Some((usages[0]->Push_0.author, usages[0]->Push_0.minute)),
    decreases usages.len(),
{
    lemma_course_start(stores, usages);
    let n = usages.len() - 1;
    assert(usages[n] == usages.last());
    if n > 0 {
        assert forall|i: int| 0 < i < n implies !(
        #[trigger] usages.drop_last()[i] matches Usage::Push(row) && row.key == key) by {
            assert(usages[i] == usages.drop_last()[i]);
        }
        assert(usages.drop_last()[0] == usages[0]);
        lemma_last_seen_stays(stores.drop_last(), usages.drop_last(), key);
        match usages[n] {
            Usage::Push(row) => {
                assert(stores.last().agrees(stores[n], key));
            },
            Usage::Activate(_) => {
                assert(stores.last().agrees(stores[n], key));
            },
            Usage::Clear(other) => {
                if other != key {
                    assert(stores.last().agrees(stores[n], key));
                }
            },
            Usage::Edit => {
                assert(stores.last().rows(key).len() == stores[n].rows(key).len());
            },
        }
    }
}

/// The grouping of a row follows from the row pushed last to its conversation
/// alone: same author, and zero to five minutes later. Rows pushed to other
/// conversations, switching, marking as read and changing rows in place have
/// no say in it.
pub proof fn law_grouping_follows_the_last_row<T>(
    stores: Seq<Store<T>>,
    usages: Seq<Usage>,
    key: ConvKey,
    author: Seq<char>,
    minute: i64,
)
    requires
        course(stores, usages),
        usages.len() > 0,
        usages[0] matches Usage::Push(row) && row.key == key,
        forall|i: int|
            0 < i < usages.len() ==> !(#[trigger] usages[i] matches Usage::Push(row) && row.key
                == key),
    ensures
        joins_group(stores.last().last_seen(key), author, minute as int) == (author
            == usages[0]->Push_0.author && 0 <= minute - usages[0]->Push_0.minute
            <= GROUP_GAP_MIN),
{
    lemma_last_seen_stays(stores, usages, key);
}

/// A demo row is never unread, whatever is on display and whatever is done.
pub proof fn law_demo_rows_are_read<T>(stores: Seq<Store<T>>, usages: Seq<Usage>, demo: ConvKey)
    requires
        course(stores, usages),
        demo.is_demo(),
        stores[0].unread_rows(demo) == 0,
    ensures
        stores.last().unread_rows(demo) == 0,
    decreases usages.len(),
{
    if usages.len() > 0 {
        lemma_course_start(stores, usages);
        let n = usages.len() - 1;
        assert(usages[n] == usages.last());
        law_demo_rows_are_read(stores.drop_last(), usages.drop_last(), demo);
        match usages[n] {
            Usage::Push(row) => {
                if row.key != demo {
                    assert(stores.last().agrees(stores[n], demo));
                }
            },
            Usage::Activate(_) => {
                assert(stores.last().agrees(stores[n], demo));
            },
            Usage::Clear(other) => {
                if other != demo {
                    assert(stores.last().agrees(stores[n], demo));
                }
            },
            Usage::Edit => {
                assert(stores.last().rows(demo).len() == stores[n].rows(demo).len());
            },
        }
    }
}

/// The demo bucket is the one of id 0 that is no group, and no other.
pub proof fn law_demo_bucket_is_one_key(key: ConvKey)
    ensures
        key.is_demo() <==> key.id == 0 && !key.is_group,
{
}

/// A pushed row goes to the end of its own conversation, behind all rows that
/// were there, and its author and minute are the ones the next row is grouped
/// by. It counts as one more unread row unless its conversation is on display
/// or the demo bucket. Every other conversation, and what is on display, stay
/// as they were.
pub proof fn law_pushed_row_goes_last<T>(
    before: Store<T>,
    after: Store<T>,
    key: ConvKey,
    author: Seq<char>,
    minute: i64,
    i: int,
    other: ConvKey,
)
    requires
        before.appended(after, key, author, minute),
    ensures
        after.rows(key).len() == before.rows(key).len() + 1,
        0 <= i < before.rows(key).len() ==> after.rows(key)[i] == before.rows(key)[i],
        after.last_seen(key) == Some((author, minute)),
        before.active_key() == Some(key) || (key.id == 0 && !key.is_group) ==> after.unread_rows(
            key,
        ) == before.unread_rows(key),
        before.active_key() != Some(key) && !(key.id == 0 && !key.is_group) && before.unread_rows(
            key,
        ) < u32::MAX ==> after.unread_rows(key) == before.unread_rows(key) + 1,
        after.active_key() == before.active_key(),
        other != key ==> after.rows(other) == before.rows(other) && after.last_seen(other)
            == before.last_seen(other) && after.unread_rows(other) == before.unread_rows(other),
{
    if 0 <= i < before.rows(key).len() {
        assert(after.rows(key).drop_last()[i] == after.rows(key)[i]);
    }
}

/// Switching puts the conversation on display and touches no rows, no unread
/// count and no grouping of any conversation.
pub proof fn law_switching_touches_no_conversation<T>(
    before: Store<T>,
    after: Store<T>,
    key: ConvKey,
    any: ConvKey,
)
    requires
        before.activated(after, key),
    ensures
        after.active_key() == Some(key),
        after.rows(any) == before.rows(any),
        after.last_seen(any) == before.last_seen(any),
        after.unread_rows(any) == before.unread_rows(any),
{
}

/// Marking a conversation as read leaves nothing unread in it, keeps its rows
/// and its grouping, and touches no other conversation nor what is on display.
pub proof fn law_marking_as_read_keeps_the_rows<T>(
    before: Store<T>,
    after: Store<T>,
    key: ConvKey,
    any: ConvKey,
)
    requires
        before.cleared(after, key),
    ensures
        after.unread_rows(key) == 0,
        after.rows(any) == before.rows(any),
        after.last_seen(any) == before.last_seen(any),
        any != key ==> after.unread_rows(any) == before.unread_rows(any),
        after.active_key() == before.active_key(),
{
}

/// Changing rows in place adds and takes none, and touches no unread count, no
/// grouping and not what is on display.
pub proof fn law_editing_keeps_the_counts<T>(before: Store<T>, after: Store<T>, any: ConvKey)
    requires
        before.edited(after),
    ensures
        after.rows(any).len() == before.rows(any).len(),
        after.last_seen(any) == before.last_seen(any),
        after.unread_rows(any) == before.unread_rows(any),
        after.active_key() == before.active_key(),
{
}

/// A row joins the group of the row before it exactly when there is one, by
/// the same author, and zero to five minutes earlier.
pub proof fn law_group_is_one_author_within_five_minutes(
    last_author: Seq<char>,
    last_minute: i64,
    author: Seq<char>,
    minute: int,
)
    ensures
        joins_group(Some((last_author, last_minute)), author, minute) <==> author == last_author
            && last_minute <= minute <= last_minute + 5,
        !joins_group(None, author, minute),
{
}

} // verus!
