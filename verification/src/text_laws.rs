//! Laws of texts: white space, decimal notation, and the order of names.

use vstd::prelude::*;

use crate::decimal::{all_digits, decimal, digits, digits_value, i64_value, is_digit};
use crate::order::{law_sorting_sorts, picked, precedes, sorted_by_name};
use crate::text::{blank, is_space};

verus! {

// ---- white space ----

/// The white space of Unicode is these code points and no others.
pub proof fn law_white_space_is_a_list(code: int)
    ensures
        is_space(code) == (seq![
            9int, 10, 11, 12, 13, 32, 133, 160, 5760, 8192, 8193, 8194, 8195, 8196, 8197, 8198,
            8199, 8200, 8201, 8202, 8232, 8233, 8239, 8287, 12288,
        ].contains(code)),
{
    let list = seq![
        9int, 10, 11, 12, 13, 32, 133, 160, 5760, 8192, 8193, 8194, 8195, 8196, 8197, 8198, 8199,
        8200, 8201, 8202, 8232, 8233, 8239, 8287, 12288,
    ];
    if is_space(code) {
        let k = if 9 <= code <= 13 {
            code - 9
        } else if code == 32 {
            5
        } else if code == 133 {
            6
        } else if code == 160 {
            7
        } else if code == 5760 {
            8
        } else if 8192 <= code <= 8202 {
            code - 8192 + 9
        } else if 8232 <= code <= 8233 {
            code - 8232 + 20
        } else if code == 8239 {
            22
        } else if code == 8287 {
            23
        } else {
            24
        };
        assert(list[k] == code);
    }
}

/// A text is blank exactly when its parts are, however long; the empty text is,
/// and one character is when it is white space.
pub proof fn law_blank_texts_join(a: Seq<char>, b: Seq<char>, c: char)
    ensures
        blank(a + b) == (blank(a) && blank(b)),
        blank(Seq::empty()),
        blank(seq![c]) == is_space(c as int),
{
    if blank(a + b) {
        assert forall|i: int| 0 <= i < a.len() implies is_space(#[trigger] a[i] as int) by {
            assert((a + b)[i] == a[i]);
        }
        assert forall|i: int| 0 <= i < b.len() implies is_space(#[trigger] b[i] as int) by {
            assert((a + b)[a.len() + i] == b[i]);
        }
    }
    assert(seq![c][0] == c);
}

// ---- decimal notation ----

/// The notation of an integer has a minus sign exactly when it is negative,
/// then digits only, and no zero in front of other digits.
pub proof fn law_decimal_is_canonical(n: i64)
    ensures
        decimal(n as int).len() > 0,
        (decimal(n as int)[0] == '-') == (n < 0),
        forall|i: int|
            (if n < 0 {
                1int
            } else {
                0
            }) <= i < decimal(n as int).len() ==> '0' <= #[trigger] decimal(n as int)[i] <= '9',
        n != 0 ==> decimal(n as int)[if n < 0 {
            1int
        } else {
            0
        }] != '0',
        n == 0 ==> decimal(n as int).len() == 1,
{
    let m = if n < 0 {
        -(n as int)
    } else {
        n as int
    };
    lemma_canonical(m as nat);
    assert forall|i: int|
        (if n < 0 {
            1int
        } else {
            0
        }) <= i < decimal(n as int).len() implies '0' <= #[trigger] decimal(n as int)[i]
        <= '9' by {
        let d = digits(m as nat);
        if n < 0 {
            assert(decimal(n as int)[i] == d[i - 1]);
        }
    }
}

proof fn lemma_canonical(n: nat)
    ensures
        digits(n).len() > 0,
        forall|i: int| 0 <= i < digits(n).len() ==> '0' <= #[trigger] digits(n)[i] <= '9',
        n != 0 ==> digits(n)[0] != '0',
        n < 10 ==> digits(n).len() == 1,
    decreases n,
{
    if n >= 10 {
        lemma_canonical(n / 10);
        let before = digits(n / 10);
        assert forall|i: int| 0 <= i < digits(n).len() implies '0' <= #[trigger] digits(n)[i]
            <= '9' by {
            if i < before.len() {
                assert(digits(n)[i] == before[i]);
            }
        }
        assert(digits(n)[0] == before[0]);
    }
}

/// One digit stands for its own value.
pub proof fn law_one_digit_reads_as_itself(c: char)
    requires
        '0' <= c <= '9',
    ensures
        i64_value(seq![c]) == Some((c as int - '0' as int) as i64),
{
    let s = seq![c];
    assert(s.drop_last() =~= Seq::<char>::empty());
    assert(digits_value(s.drop_last()) == 0);
    assert(s[0] == c);
    assert(all_digits(s));
}

/// A digit at the end of a string of digits makes ten times as much and adds
/// its own value; what then does not fit 64 bits cannot be read.
pub proof fn law_digit_at_the_end_counts_once(s: Seq<char>, c: char)
    requires
        s.len() > 0,
        forall|i: int| 0 <= i < s.len() ==> '0' <= #[trigger] s[i] <= '9',
        '0' <= c <= '9',
    ensures
        i64_value(s) matches Some(v) ==> i64_value(s.push(c)) == (if 10 * v + (c as int
            - '0' as int) <= i64::MAX {
            Some((10 * v + (c as int - '0' as int)) as i64)
        } else {
            None
        }),
        i64_value(s) is None ==> i64_value(s.push(c)) is None,
        i64_value(s) matches Some(v) ==> v >= 0,
{
    let t = s.push(c);
    assert(t.drop_last() =~= s);
    assert(all_digits(s));
    assert forall|i: int| 0 <= i < t.len() implies is_digit(#[trigger] t[i]) by {
        if i < s.len() {
            assert(t[i] == s[i]);
        }
    }
    assert(all_digits(t));
    assert(t[0] == s[0]);
    lemma_value_is_natural(s);
    assert(digits_value(t) == digits_value(s) * 10 + (c as int - 48));
}

proof fn lemma_value_is_natural(s: Seq<char>)
    requires
        forall|i: int| 0 <= i < s.len() ==> '0' <= #[trigger] s[i] <= '9',
    ensures
        digits_value(s) >= 0,
    decreases s.len(),
{
    if s.len() > 0 {
        lemma_value_is_natural(s.drop_last());
        assert('0' <= s[s.len() - 1] <= '9');
    }
}

/// A plus sign in front changes nothing, and a minus sign negates; only the
/// least integer can be read with its sign alone.
pub proof fn law_sign_in_front(s: Seq<char>)
    requires
        s.len() > 0,
        forall|i: int| 0 <= i < s.len() ==> '0' <= #[trigger] s[i] <= '9',
    ensures
        i64_value(seq!['+'] + s) == i64_value(s),
        i64_value(s) matches Some(n) ==> i64_value(seq!['-'] + s) == Some((-n) as i64),
        i64_value(seq!['-'] + s) matches Some(n) ==> n == i64::MIN || i64_value(s) == Some(
            (-n) as i64,
        ),
{
    assert((seq!['+'] + s).skip(1) =~= s);
    assert((seq!['-'] + s).skip(1) =~= s);
    assert(all_digits(s));
    lemma_value_is_natural(s);
}

/// Anything but digits behind the sign, or nothing at all, is no number.
pub proof fn law_other_texts_are_no_number(s: Seq<char>, i: int)
    requires
        s.len() == 0 || (0 <= i < s.len() && !('0' <= s[i] <= '9') && (i > 0 || (s[0] != '-'
            && s[0] != '+'))) || (s.len() == 1 && !('0' <= s[0] <= '9')),
    ensures
        i64_value(s) is None,
{
    if s.len() > 0 && (s[0] == '-' || s[0] == '+') {
        let t = s.skip(1);
        if s.len() > 1 {
            assert(t[i - 1] == s[i]);
        }
        assert(!all_digits(t));
    } else if s.len() > 0 {
        assert(!all_digits(s));
    }
}

// ---- the order of names ----

/// Names are ordered by the first character in which they differ: the one with
/// the smaller code point comes first.
pub proof fn law_first_difference_decides(a: Seq<char>, b: Seq<char>, k: int)
    requires
        0 <= k < a.len(),
        k < b.len(),
        forall|i: int| 0 <= i < k ==> #[trigger] a[i] == b[i],
        a[k] != b[k],
    ensures
        precedes(a, b) == ((a[k] as int) < (b[k] as int)),
    decreases k,
{
    if k > 0 {
        assert(a[0] == b[0]);
        assert forall|i: int| 0 <= i < k - 1 implies #[trigger] a.skip(1)[i] == b.skip(1)[i] by {
            assert(a[i + 1] == b[i + 1]);
        }
        law_first_difference_decides(a.skip(1), b.skip(1), k - 1);
    }
}

/// A name comes before every longer name that begins with it, and never after
/// it.
pub proof fn law_shorter_name_comes_first(a: Seq<char>, more: Seq<char>)
    requires
        more.len() > 0,
    ensures
        precedes(a, a + more),
        !precedes(a + more, a),
        !precedes(a, a),
    decreases a.len(),
{
    if a.len() > 0 {
        law_shorter_name_comes_first(a.skip(1), more);
        assert((a + more).skip(1) =~= a.skip(1) + more);
        assert((a + more)[0] == a[0]);
    } else {
        assert(a + more =~= more);
    }
}

/// A sorted list holds the items of the list, each as often, and no item
/// comes before an earlier one by name.
pub proof fn law_sorted_list_is_in_order<A>(list: Seq<(Seq<char>, A)>, i: int, j: int)
    ensures
        sorted_by_name(list).to_multiset() == list.to_multiset(),
        sorted_by_name(list).len() == list.len(),
        0 <= i < j < list.len() ==> !precedes(
            sorted_by_name(list)[j].0,
            sorted_by_name(list)[i].0,
        ),
{
    law_sorting_sorts(list);
}

// ---- picking ----

/// Picking from two listings, one after the other, is picking from both; from
/// one entry comes what it gives, and from none nothing.
pub proof fn law_picking_goes_entry_by_entry<E, X>(
    a: Seq<E>,
    b: Seq<E>,
    entry: E,
    pick: spec_fn(E) -> Option<X>,
)
    ensures
        picked(a + b, pick) == picked(a, pick) + picked(b, pick),
        picked(Seq::<E>::empty(), pick) == Seq::<X>::empty(),
        picked(seq![entry], pick) == (match pick(entry) {
            Some(x) => seq![x],
            None => Seq::empty(),
        }),
    decreases b.len(),
{
    if b.len() == 0 {
        assert(a + b =~= a);
        assert(picked(a, pick) + picked(b, pick) =~= picked(a, pick));
    } else {
        law_picking_goes_entry_by_entry(a, b.drop_last(), entry, pick);
        assert((a + b).drop_last() =~= a + b.drop_last());
        assert((a + b).last() == b.last());
        assert(picked(a + b, pick) =~= picked(a, pick) + picked(b, pick));
    }
    assert(seq![entry].drop_last() =~= Seq::<E>::empty());
    assert(picked(seq![entry].drop_last(), pick) =~= Seq::<X>::empty());
    assert(picked(seq![entry], pick) =~= (match pick(entry) {
        Some(x) => seq![x],
        None => Seq::empty(),
    }));
}

} // verus!
