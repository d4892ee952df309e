//! Lists kept in the order of their names.

use vstd::multiset::Multiset;
use vstd::prelude::*;

use crate::text::{char_code, chars_of};

verus! {

/// Whether one name comes before another: by the first character in which
/// they differ, and a name before the longer ones that begin with it.
pub open spec fn precedes(a: Seq<char>, b: Seq<char>) -> bool
    decreases a.len(),
{
    if b.len() == 0 {
        false
    } else if a.len() == 0 {
        true
    } else if a[0] == b[0] {
        precedes(a.skip(1), b.skip(1))
    } else {
        (a[0] as int) < (b[0] as int)
    }
}

/// Whether `a` comes before `b`.
pub fn comes_before(a: &str, b: &str) -> (out: bool)
    ensures
        out == precedes(a@, b@),
{
    let x = chars_of(a);
    let y = chars_of(b);
    let mut i: usize = 0;
    assert(a@.skip(0) =~= a@);
    assert(b@.skip(0) =~= b@);
    while i < x.len() && i < y.len()
        invariant
            x@ == a@,
            y@ == b@,
            i <= x@.len(),
            i <= y@.len(),
            precedes(a@, b@) == precedes(a@.skip(i as int), b@.skip(i as int)),
        decreases x@.len() - i,
    {
        let p: char = x[i];
        let q: char = y[i];
        let ghost u = a@.skip(i as int);
        let ghost v = b@.skip(i as int);
        assert(u[0] == p && v[0] == q);
        if p != q {
            return char_code(p) < char_code(q);
        }
        assert(u.skip(1) =~= a@.skip(i + 1));
        assert(v.skip(1) =~= b@.skip(i + 1));
        i += 1;
    }
    i < y.len()
}

/// No name comes before itself, and of two different names one comes before
/// the other, not both.
pub proof fn law_names_are_ordered(a: Seq<char>, b: Seq<char>)
    ensures
        a == b ==> !precedes(a, b),
        a != b ==> precedes(a, b) != precedes(b, a),
    decreases a.len(),
{
    if a.len() > 0 && b.len() > 0 {
        if a[0] == b[0] {
            law_names_are_ordered(a.skip(1), b.skip(1));
            if a.skip(1) == b.skip(1) {
                assert(a =~= seq![a[0]] + a.skip(1));
                assert(b =~= seq![b[0]] + b.skip(1));
            }
        }
    } else {
        assert(a.len() == 0 && b.len() == 0 ==> a =~= b);
    }
}

/// What comes before a name comes before all that the name comes before.
pub proof fn law_name_order_is_transitive(a: Seq<char>, b: Seq<char>, c: Seq<char>)
    requires
        precedes(a, b),
        precedes(b, c),
    ensures
        precedes(a, c),
    decreases a.len(),
{
    if a.len() > 0 && b.len() > 0 && c.len() > 0 && a[0] == b[0] && b[0] == c[0] {
        law_name_order_is_transitive(a.skip(1), b.skip(1), c.skip(1));
    }
}

/// Where an item named `name` goes in a sorted list: after all that do not
/// come after it.
pub open spec fn place_for<A>(list: Seq<(Seq<char>, A)>, name: Seq<char>) -> int
    decreases list.len(),
{
    if list.len() == 0 {
        0
    } else if precedes(name, list.last().0) {
        place_for(list.drop_last(), name)
    } else {
        list.len() as int
    }
}

/// The list sorted by name; items of one name keep their order.
pub open spec fn sorted_by_name<A>(list: Seq<(Seq<char>, A)>) -> Seq<(Seq<char>, A)>
    decreases list.len(),
{
    if list.len() == 0 {
        Seq::empty()
    } else {
        let before = sorted_by_name(list.drop_last());
        before.insert(place_for(before, list.last().0), list.last())
    }
}

/// Whether no item comes before an earlier one.
pub open spec fn is_sorted<A>(list: Seq<(Seq<char>, A)>) -> bool {
    forall|i: int, j: int|
        0 <= i < j < list.len() ==> !precedes((#[trigger] list[j]).0, (#[trigger] list[i]).0)
}

/// Whether no two items have one name.
pub open spec fn names_differ<A>(list: Seq<(Seq<char>, A)>) -> bool {
    forall|i: int, j: int|
        0 <= i < j < list.len() ==> (#[trigger] list[i]).0 != (#[trigger] list[j]).0
}

/// The place lies in the list, nothing before it comes after the name, and
/// everything from it on does.
pub proof fn lemma_place_for<A>(list: Seq<(Seq<char>, A)>, name: Seq<char>)
    requires
        is_sorted(list),
    ensures
        0 <= place_for(list, name) <= list.len(),
        forall|i: int|
            0 <= i < place_for(list, name) ==> !precedes(name, (#[trigger] list[i]).0),
        forall|i: int|
            place_for(list, name) <= i < list.len() ==> precedes(name, (#[trigger] list[i]).0),
    decreases list.len(),
{
    if list.len() > 0 {
        let last = list.last().0;
        if precedes(name, last) {
            assert(is_sorted(list.drop_last()));
            lemma_place_for(list.drop_last(), name);
            let p = place_for(list.drop_last(), name);
            assert forall|i: int| 0 <= i < p implies !precedes(name, (#[trigger] list[i]).0) by {
                assert(list.drop_last()[i] == list[i]);
            }
            assert forall|i: int| p <= i < list.len() implies precedes(
                name,
                (#[trigger] list[i]).0,
            ) by {
                if i < list.len() - 1 {
                    assert(list.drop_last()[i] == list[i]);
                }
            }
        } else {
            assert forall|i: int| 0 <= i < list.len() implies !precedes(
                name,
                (#[trigger] list[i]).0,
            ) by {
                if i < list.len() - 1 {
                    assert(!precedes(list[list.len() - 1].0, list[i].0));
                    if precedes(name, list[i].0) {
                        law_names_are_ordered(list[i].0, last);
                        if list[i].0 != last {
                            law_name_order_is_transitive(name, list[i].0, last);
                        }
                    }
                }
            }
        }
    }
}

/// The place is the one with only later names from it on and none of them
/// right before it.
pub proof fn lemma_place_is<A>(list: Seq<(Seq<char>, A)>, n: int, name: Seq<char>)
    requires
        0 <= n <= list.len(),
        forall|i: int| n <= i < list.len() ==> precedes(name, (#[trigger] list[i]).0),
        n > 0 ==> !precedes(name, list[n - 1].0),
    ensures
        place_for(list, name) == n,
    decreases list.len(),
{
    if n < list.len() {
        assert(precedes(name, list[list.len() - 1].0));
        lemma_place_is(list.drop_last(), n, name);
    }
}

/// Sorting gives a sorted list with the same items.
pub proof fn law_sorting_sorts<A>(list: Seq<(Seq<char>, A)>)
    ensures
        is_sorted(sorted_by_name(list)),
        sorted_by_name(list).len() == list.len(),
        sorted_by_name(list).to_multiset() == list.to_multiset(),
    decreases list.len(),
{
    broadcast use vstd::seq_lib::group_to_multiset_ensures;

    if list.len() > 0 {
        let before = sorted_by_name(list.drop_last());
        let item = list.last();
        law_sorting_sorts(list.drop_last());
        lemma_place_for(before, item.0);
        let p = place_for(before, item.0);
        let out = before.insert(p, item);
        assert forall|i: int, j: int| 0 <= i < j < out.len() implies !precedes(
            (#[trigger] out[j]).0,
            (#[trigger] out[i]).0,
        ) by {
            if i == p {
                assert(out[j] == before[j - 1]);
                law_names_are_ordered(item.0, out[j].0);
            } else if j == p {
                assert(out[i] == before[i]);
            } else {
                let x = if i < p { i } else { i - 1 };
                let y = if j < p { j } else { j - 1 };
                assert(out[i] == before[x] && out[j] == before[y]);
            }
        }
        assert(list =~= list.drop_last().push(item));
        vstd::seq_lib::to_multiset_insert(before, p, item);
    } else {
        assert(sorted_by_name(list) =~= list);
    }
}

proof fn lemma_shared_item<B>(a: Seq<B>, b: Seq<B>, i: int)
    requires
        a.to_multiset() == b.to_multiset(),
        0 <= i < b.len(),
    ensures
        a.contains(b[i]),
{
    broadcast use vstd::seq_lib::group_to_multiset_ensures;

    assert(b.contains(b[i]));
    assert(b.to_multiset().count(b[i]) > 0);
    assert(a.to_multiset().count(b[i]) > 0);
}

/// A list whose items all have names of their own, in order, is known by its
/// items.
proof fn lemma_sorted_lists_agree<A>(a: Seq<(Seq<char>, A)>, b: Seq<(Seq<char>, A)>)
    requires
        is_sorted(a),
        is_sorted(b),
        names_differ(a),
        a.to_multiset() == b.to_multiset(),
    ensures
        a == b,
    decreases a.len(),
{
    broadcast use vstd::seq_lib::group_to_multiset_ensures;

    assert(a.len() == b.len()) by {
        assert(a.to_multiset().len() == a.len());
        assert(b.to_multiset().len() == b.len());
    }
    if a.len() > 0 {
        let n = a.len() - 1;
        let x = a.last();
        let y = b.last();
        lemma_shared_item(a, b, n);
        lemma_shared_item(b, a, n);
        let i = choose|i: int| 0 <= i < a.len() && a[i] == y;
        let j = choose|j: int| 0 <= j < b.len() && b[j] == x;
        if i < n {
            assert(!precedes(a[n].0, a[i].0));
            assert(a[i].0 != a[n].0);
            law_names_are_ordered(x.0, y.0);
            assert(precedes(y.0, x.0));
            assert(j < n);
            assert(!precedes(b[n].0, b[j].0));
        }
        assert(x == y);
        assert(a =~= a.drop_last().push(x));
        assert(b =~= b.drop_last().push(x));
        assert(a.drop_last().to_multiset() =~= a.to_multiset().remove(x)) by {
            assert(a.to_multiset() =~= a.drop_last().to_multiset().insert(x));
        }
        assert(b.drop_last().to_multiset() =~= b.to_multiset().remove(x)) by {
            assert(b.to_multiset() =~= b.drop_last().to_multiset().insert(x));
        }
        assert forall|p: int, q: int| 0 <= p < q < a.drop_last().len() implies (
        #[trigger] a.drop_last()[p]).0 != (#[trigger] a.drop_last()[q]).0 by {
            assert(a[p].0 != a[q].0);
        }
        lemma_sorted_lists_agree(a.drop_last(), b.drop_last());
    } else {
        assert(a =~= b);
    }
}

proof fn lemma_names_differ_by_count<A>(a: Seq<(Seq<char>, A)>, b: Seq<(Seq<char>, A)>)
    requires
        names_differ(a),
        a.to_multiset() == b.to_multiset(),
    ensures
        names_differ(b),
{
    broadcast use vstd::seq_lib::group_to_multiset_ensures;

    assert(a.no_duplicates());
    a.lemma_multiset_has_no_duplicates();
    b.lemma_multiset_has_no_duplicates_conv();
    assert forall|i: int, j: int| 0 <= i < j < b.len() implies (#[trigger] b[i]).0 != (
    #[trigger] b[j]).0 by {
        lemma_shared_item(a, b, i);
        lemma_shared_item(a, b, j);
        let p = choose|p: int| 0 <= p < a.len() && a[p] == b[i];
        let q = choose|q: int| 0 <= q < a.len() && a[q] == b[j];
        assert(b[i] != b[j]);
        assert(a[p].0 != a[q].0);
    }
}

/// The result does not depend on the order the items were listed in, as long
/// as their names differ.
pub proof fn law_sorting_is_deterministic<A>(a: Seq<(Seq<char>, A)>, b: Seq<(Seq<char>, A)>)
    requires
        names_differ(a),
        a.to_multiset() == b.to_multiset(),
    ensures
        sorted_by_name(a) == sorted_by_name(b),
{
    law_sorting_sorts(a);
    law_sorting_sorts(b);
    lemma_names_differ_by_count(a, sorted_by_name(a));
    lemma_sorted_lists_agree(sorted_by_name(a), sorted_by_name(b));
}

/// The items of one name, in the order they are listed.
pub open spec fn named<A>(list: Seq<(Seq<char>, A)>, name: Seq<char>) -> Seq<(Seq<char>, A)>
    decreases list.len(),
{
    if list.len() == 0 {
        Seq::empty()
    } else if list.last().0 == name {
        named(list.drop_last(), name).push(list.last())
    } else {
        named(list.drop_last(), name)
    }
}

proof fn lemma_named_joins<A>(a: Seq<(Seq<char>, A)>, b: Seq<(Seq<char>, A)>, name: Seq<char>)
    ensures
        named(a + b, name) == named(a, name) + named(b, name),
    decreases b.len(),
{
    if b.len() == 0 {
        assert(a + b =~= a);
        assert(named(a, name) + named(b, name) =~= named(a, name));
    } else {
        lemma_named_joins(a, b.drop_last(), name);
        assert((a + b).drop_last() =~= a + b.drop_last());
        assert(named(a + b, name) =~= named(a, name) + named(b, name));
    }
}

proof fn lemma_none_named<A>(list: Seq<(Seq<char>, A)>, name: Seq<char>)
    requires
        forall|i: int| 0 <= i < list.len() ==> (#[trigger] list[i]).0 != name,
    ensures
        named(list, name) == Seq::<(Seq<char>, A)>::empty(),
    decreases list.len(),
{
    if list.len() > 0 {
        assert(list[list.len() - 1].0 != name);
        lemma_none_named(list.drop_last(), name);
    }
}

/// Items of one name come out in the order they went in.
pub proof fn law_sorting_is_stable<A>(list: Seq<(Seq<char>, A)>, name: Seq<char>)
    ensures
        named(sorted_by_name(list), name) == named(list, name),
    decreases list.len(),
{
    if list.len() > 0 {
        let before = sorted_by_name(list.drop_last());
        let item = list.last();
        law_sorting_is_stable(list.drop_last(), name);
        law_sorting_sorts(list.drop_last());
        lemma_place_for(before, item.0);
        let p = place_for(before, item.0);
        let head = before.take(p);
        let tail = before.skip(p);
        assert(before.insert(p, item) =~= head.push(item) + tail);
        assert(before =~= head + tail);
        lemma_named_joins(head.push(item), tail, name);
        lemma_named_joins(head, tail, name);
        assert(head.push(item).drop_last() =~= head);
        if item.0 == name {
            assert forall|i: int| 0 <= i < tail.len() implies (#[trigger] tail[i]).0 != name by {
                assert(precedes(item.0, before[p + i].0));
                law_names_are_ordered(item.0, item.0);
            }
            lemma_none_named(tail, name);
            assert(named(head.push(item), name) + named(tail, name) =~= (named(head, name)
                + named(tail, name)).push(item));
        }
    }
}

// ---- picking from a listing ----

/// What `pick` takes from the entries of a listing, in the order they are
/// listed.
pub open spec fn picked<E, X>(list: Seq<E>, pick: spec_fn(E) -> Option<X>) -> Seq<X>
    decreases list.len(),
{
    if list.len() == 0 {
        Seq::empty()
    } else {
        match pick(list.last()) {
            Some(x) => picked(list.drop_last(), pick).push(x),
            None => picked(list.drop_last(), pick),
        }
    }
}

/// An entry that gives nothing may as well not be listed.
pub proof fn law_nothing_picked<E, X>(
    before: Seq<E>,
    entry: E,
    after: Seq<E>,
    pick: spec_fn(E) -> Option<X>,
)
    requires
        pick(entry) is None,
    ensures
        picked(before.push(entry) + after, pick) == picked(before + after, pick),
    decreases after.len(),
{
    let with = before.push(entry) + after;
    let without = before + after;
    if after.len() == 0 {
        assert(with.drop_last() =~= before);
        assert(without =~= before);
    } else {
        assert(with.drop_last() =~= before.push(entry) + after.drop_last());
        assert(without.drop_last() =~= before + after.drop_last());
        law_nothing_picked(before, entry, after.drop_last(), pick);
    }
}

/// What an entry gives is among what is picked.
pub proof fn law_picked_is_there<E, X>(list: Seq<E>, i: int, pick: spec_fn(E) -> Option<X>)
    requires
        0 <= i < list.len(),
        pick(list[i]) is Some,
    ensures
        picked(list, pick).contains(pick(list[i])->0),
    decreases list.len(),
{
    let all = picked(list, pick);
    let x = pick(list[i])->0;
    if i == list.len() - 1 {
        assert(all[all.len() - 1] == x);
    } else {
        law_picked_is_there(list.drop_last(), i, pick);
        let before = picked(list.drop_last(), pick);
        let j = choose|j: int| 0 <= j < before.len() && before[j] == x;
        assert(all[j] == x);
    }
}

/// What is picked came from some entry.
pub proof fn law_picked_has_an_origin<E, X>(list: Seq<E>, j: int, pick: spec_fn(E) -> Option<X>)
    requires
        0 <= j < picked(list, pick).len(),
    ensures
        exists|i: int|
            0 <= i < list.len() && pick(#[trigger] list[i]) == Some(picked(list, pick)[j]),
    decreases list.len(),
{
    let before = picked(list.drop_last(), pick);
    if j < before.len() {
        law_picked_has_an_origin(list.drop_last(), j, pick);
        let i = choose|i: int|
            0 <= i < list.len() - 1 && pick(#[trigger] list.drop_last()[i]) == Some(before[j]);
        assert(pick(list[i]) == Some(picked(list, pick)[j]));
    } else {
        assert(pick(list[list.len() - 1]) == Some(picked(list, pick)[j]));
    }
}

/// What one entry adds to the items.
spec fn share<E, X>(entry: E, pick: spec_fn(E) -> Option<X>) -> Multiset<X> {
    match pick(entry) {
        Some(x) => Multiset::singleton(x),
        None => Multiset::empty(),
    }
}

proof fn lemma_pick_last<E, X>(list: Seq<E>, pick: spec_fn(E) -> Option<X>)
    requires
        list.len() > 0,
    ensures
        picked(list, pick).to_multiset() == picked(list.drop_last(), pick).to_multiset().add(
            share(list.last(), pick),
        ),
{
    broadcast use vstd::seq_lib::group_to_multiset_ensures;

    let before = picked(list.drop_last(), pick);
    match pick(list.last()) {
        Some(x) => {
            assert(before.push(x).to_multiset() =~= before.to_multiset().add(
                Multiset::singleton(x),
            ));
        },
        None => {
            assert(before.to_multiset() =~= before.to_multiset().add(Multiset::empty()));
        },
    }
}

proof fn lemma_pick_apart<E, X>(list: Seq<E>, i: int, pick: spec_fn(E) -> Option<X>)
    requires
        0 <= i < list.len(),
    ensures
        picked(list, pick).to_multiset() == picked(list.remove(i), pick).to_multiset().add(
            share(list[i], pick),
        ),
    decreases list.len(),
{
    lemma_pick_last(list, pick);
    if i == list.len() - 1 {
        assert(list.remove(i) =~= list.drop_last());
    } else {
        let rest = list.remove(i);
        assert(rest.drop_last() =~= list.drop_last().remove(i));
        assert(rest.last() == list.last());
        assert(list.drop_last()[i] == list[i]);
        lemma_pick_apart(list.drop_last(), i, pick);
        lemma_pick_last(rest, pick);
        assert(picked(list, pick).to_multiset() =~= picked(rest, pick).to_multiset().add(
            share(list[i], pick),
        ));
    }
}

/// Two listings of the same entries give the same items, in some order.
pub proof fn law_picking_ignores_listing_order<E, X>(
    a: Seq<E>,
    b: Seq<E>,
    pick: spec_fn(E) -> Option<X>,
)
    requires
        a.to_multiset() == b.to_multiset(),
    ensures
        picked(a, pick).to_multiset() == picked(b, pick).to_multiset(),
    decreases a.len(),
{
    broadcast use vstd::seq_lib::group_to_multiset_ensures;

    assert(a.to_multiset().len() == a.len());
    assert(b.to_multiset().len() == b.len());
    if a.len() > 0 {
        let n = a.len() - 1;
        lemma_shared_item(b, a, n);
        let j = choose|j: int| 0 <= j < b.len() && b[j] == a[n];
        vstd::seq_lib::to_multiset_remove(b, j);
        vstd::seq_lib::to_multiset_remove(a, n);
        law_picking_ignores_listing_order(a.remove(n), b.remove(j), pick);
        lemma_pick_apart(a, n, pick);
        lemma_pick_apart(b, j, pick);
    } else {
        assert(a =~= b);
    }
}

} // verus!
