//! Putting things in order, the newest first.
use crate::text::{chars_of, comes_before, text_before, views};
use vstd::prelude::*;

verus! {

broadcast use vstd::string::group_string_axioms;

/// No text comes before itself.
pub proof fn lemma_before_irreflexive(a: Seq<char>)
    ensures
        !text_before(a, a),
    decreases a.len(),
{
    if a.len() > 0 {
        lemma_before_irreflexive(a.drop_first());
    }
}

/// The order of texts is transitive.
pub proof fn lemma_before_transitive(a: Seq<char>, b: Seq<char>, c: Seq<char>)
    requires
        text_before(a, b),
        text_before(b, c),
    ensures
        text_before(a, c),
    decreases a.len(),
{
    if a.len() > 0 && a[0] == b[0] && b[0] == c[0] {
        lemma_before_transitive(a.drop_first(), b.drop_first(), c.drop_first());
    }
}

/// Of two different texts one comes before the other.
pub proof fn lemma_before_total(a: Seq<char>, b: Seq<char>)
    ensures
        a == b || text_before(a, b) || text_before(b, a),
    decreases a.len(),
{
    if a.len() == 0 && b.len() == 0 {
        assert(a =~= b);
    } else if a.len() > 0 && b.len() > 0 && a[0] == b[0] {
        lemma_before_total(a.drop_first(), b.drop_first());
        if a.drop_first() == b.drop_first() {
            assert(a =~= seq![a[0]] + a.drop_first());
            assert(b =~= seq![b[0]] + b.drop_first());
        }
    }
}

/// Whether the thing at `i` is put before the one at `j`: it has the later date, or the same date
/// and stood before it.
pub open spec fn newer(dates: Seq<Seq<char>>, i: int, j: int) -> bool {
    text_before(dates[j], dates[i]) || (dates[i] == dates[j] && i < j)
}

proof fn lemma_newer_transitive(dates: Seq<Seq<char>>, i: int, j: int, k: int)
    requires
        newer(dates, i, j),
        newer(dates, j, k),
    ensures
        newer(dates, i, k),
{
    if text_before(dates[j], dates[i]) && text_before(dates[k], dates[j]) {
        lemma_before_transitive(dates[k], dates[j], dates[i]);
    }
}

/// Whether the positions are in order, the newest first.
pub open spec fn in_order(dates: Seq<Seq<char>>, order: Seq<usize>) -> bool {
    forall|a: int, b: int|
        0 <= a < b < order.len() ==> newer(
            dates,
            #[trigger] order[a] as int,
            #[trigger] order[b] as int,
        )
}

/// Whether `order` holds every position from `lo` up to `hi` once, the newest first.
pub open spec fn is_order(dates: Seq<Seq<char>>, order: Seq<usize>, lo: int, hi: int) -> bool {
    &&& order.len() == hi - lo
    &&& forall|a: int| 0 <= a < order.len() ==> lo <= #[trigger] order[a] < hi
    &&& in_order(dates, order)
}

/// The views of a list of lists of characters.
pub open spec fn char_views(list: Seq<Vec<char>>) -> Seq<Seq<char>> {
    list.map_values(|v: Vec<char>| v@)
}

/// Every position of `left` stands before one of `right`, so that at equal dates `left` goes first.
fn merged(dates: &Vec<Vec<char>>, left: &Vec<usize>, right: &Vec<usize>, mid: usize) -> (r: Vec<
    usize,
>)
    requires
        exists|lo: int| 0 <= lo <= mid && is_order(char_views(dates@), left@, lo, mid as int),
        exists|hi: int|
            mid <= hi <= dates@.len() && is_order(char_views(dates@), right@, mid as int, hi),
    ensures
        is_order(
            char_views(dates@),
            r@,
            mid - left@.len(),
            mid + right@.len(),
        ),
{
    let ghost d = char_views(dates@);
    let ghost lo = mid - left@.len();
    let ghost hi = mid + right@.len();
    let mut r: Vec<usize> = Vec::new();
    let mut i: usize = 0;
    let mut j: usize = 0;
    while i < left.len() || j < right.len()
        invariant
            i <= left@.len(),
            j <= right@.len(),
            r@.len() == i + j,
            0 <= lo,
            hi <= dates@.len(),
            d == char_views(dates@),
            is_order(d, left@, lo, mid as int),
            is_order(d, right@, mid as int, hi),
            forall|a: int| 0 <= a < r@.len() ==> lo <= #[trigger] r@[a] < hi,
            in_order(d, r@),
            forall|a: int, b: int|
                0 <= a < r@.len() && i <= b < left@.len() ==> newer(
                    d,
                    #[trigger] r@[a] as int,
                    #[trigger] left@[b] as int,
                ),
            forall|a: int, b: int|
                0 <= a < r@.len() && j <= b < right@.len() ==> newer(
                    d,
                    #[trigger] r@[a] as int,
                    #[trigger] right@[b] as int,
                ),
        decreases left@.len() - i + right@.len() - j,
    {
        let from_left = if i >= left.len() {
            false
        } else if j >= right.len() {
            true
        } else {
            let p: usize = left[i];
            let q: usize = right[j];
            assert(d[p as int] == dates@[p as int]@);
            assert(d[q as int] == dates@[q as int]@);
            let later = comes_before(dates[p].as_slice(), dates[q].as_slice());
            proof {
                lemma_before_total(d[p as int], d[q as int]);
                if later {
                    assert(newer(d, q as int, p as int));
                } else {
                    assert(newer(d, p as int, q as int));
                }
            }
            !later
        };
        let ghost before = r@;
        if from_left {
            let p: usize = left[i];
            r.push(p);
            proof {
                assert forall|b: int| j <= b < right@.len() implies newer(
                    d,
                    p as int,
                    #[trigger] right@[b] as int,
                ) by {
                    if b > j {
                        assert(newer(d, p as int, right@[j as int] as int));
                        assert(newer(d, right@[j as int] as int, right@[b] as int));
                        lemma_newer_transitive(
                            d,
                            p as int,
                            right@[j as int] as int,
                            right@[b] as int,
                        );
                    }
                }
                assert(in_order(d, r@));
            }
            i += 1;
        } else {
            let q: usize = right[j];
            r.push(q);
            proof {
                assert forall|b: int| i <= b < left@.len() implies newer(
                    d,
                    q as int,
                    #[trigger] left@[b] as int,
                ) by {
                    if b > i {
                        assert(newer(d, q as int, left@[i as int] as int));
                        assert(newer(d, left@[i as int] as int, left@[b] as int));
                        lemma_newer_transitive(
                            d,
                            q as int,
                            left@[i as int] as int,
                            left@[b] as int,
                        );
                    }
                }
                assert(in_order(d, r@));
            }
            j += 1;
        }
    }
    r
}

fn sorted(dates: &Vec<Vec<char>>, lo: usize, hi: usize) -> (r: Vec<usize>)
    requires
        lo <= hi <= dates@.len(),
    ensures
        is_order(char_views(dates@), r@, lo as int, hi as int),
    decreases hi - lo,
{
    if hi - lo <= 1 {
        let mut r: Vec<usize> = Vec::new();
        if lo < hi {
            r.push(lo);
        }
        return r;
    }
    let mid: usize = lo + (hi - lo) / 2;
    let left = sorted(dates, lo, mid);
    let right = sorted(dates, mid, hi);
    merged(dates, &left, &right, mid)
}

/// The positions of the dates, the latest first and equal ones as they stood.
pub fn newest_first(dates: &Vec<String>) -> (order: Vec<usize>)
    ensures
        is_order(views(dates@), order@, 0, dates@.len() as int),
{
    let mut chars: Vec<Vec<char>> = Vec::new();
    let mut i: usize = 0;
    while i < dates.len()
        invariant
            i <= dates@.len(),
            char_views(chars@) == views(dates@).take(i as int),
        decreases dates@.len() - i,
    {
        let ghost before = chars@;
        let date = chars_of(dates[i].as_str());
        chars.push(date);
        assert(char_views(chars@) =~= char_views(before).push(date@));
        assert(views(dates@).take(i + 1) =~= views(dates@).take(i as int).push(
            dates@[i as int]@,
        ));
        i += 1;
    }
    assert(views(dates@).take(dates@.len() as int) =~= views(dates@));
    assert(char_views(chars@).len() == chars@.len());
    let n: usize = chars.len();
    sorted(&chars, 0, n)
}

/// The positions in an order, as integers.
pub open spec fn positions(order: Seq<usize>) -> Seq<int> {
    order.map_values(|p: usize| p as int)
}

/// Putting things in order leaves none out and repeats none.
pub proof fn law_order_keeps_everything(dates: Seq<Seq<char>>, order: Seq<usize>)
    requires
        is_order(dates, order, 0, dates.len() as int),
    ensures
        order.no_duplicates(),
        forall|i: int| 0 <= i < dates.len() ==> #[trigger] positions(order).contains(i),
{
    let n = dates.len();
    assert forall|a: int, b: int| 0 <= a < b < order.len() implies order[a] != order[b] by {
        assert(newer(dates, order[a] as int, order[b] as int));
        if order[a] == order[b] {
            lemma_before_irreflexive(dates[order[a] as int]);
        }
    }
    assert(order.no_duplicates());
    let all = positions(order);
    assert(all.no_duplicates());
    all.unique_seq_to_set();
    let range = vstd::set_lib::set_int_range(0, n as int);
    vstd::set_lib::lemma_int_range(0, n as int);
    assert(all.to_set().subset_of(range));
    vstd::set_lib::lemma_set_subset_finite(range, all.to_set());
    vstd::set_lib::lemma_subset_equality(all.to_set(), range);
    assert forall|i: int| 0 <= i < n implies #[trigger] all.contains(i) by {
        assert(range.contains(i));
    }
}

/// In an order no date stands behind an earlier one, and things of one date stand as they stood.
pub proof fn law_latest_stand_first(dates: Seq<Seq<char>>, order: Seq<usize>, a: int, b: int)
    requires
        is_order(dates, order, 0, dates.len() as int),
        0 <= a < b < order.len(),
    ensures
        !text_before(dates[order[a] as int], dates[order[b] as int]),
        dates[order[a] as int] == dates[order[b] as int] ==> order[a] < order[b],
{
    let p = order[a] as int;
    let q = order[b] as int;
    assert(newer(dates, p, q));
    lemma_before_irreflexive(dates[p]);
    if text_before(dates[q], dates[p]) && text_before(dates[p], dates[q]) {
        lemma_before_transitive(dates[p], dates[q], dates[p]);
    }
}

/// There is only one such order.
pub proof fn law_order_is_unique(dates: Seq<Seq<char>>, one: Seq<usize>, other: Seq<usize>)
    requires
        is_order(dates, one, 0, dates.len() as int),
        is_order(dates, other, 0, dates.len() as int),
    ensures
        one == other,
{
    assert forall|k: int| 0 <= k < dates.len() implies one[k] == other[k] by {
        lemma_same_at(dates, one, other, k);
    }
    assert(one =~= other);
}

proof fn lemma_same_at(dates: Seq<Seq<char>>, one: Seq<usize>, other: Seq<usize>, k: int)
    requires
        is_order(dates, one, 0, dates.len() as int),
        is_order(dates, other, 0, dates.len() as int),
        0 <= k < dates.len(),
    ensures
        one[k] == other[k],
    decreases k,
{
    assert forall|m: int| 0 <= m < k implies one[m] == other[m] by {
        lemma_same_at(dates, one, other, m);
    }
    law_order_keeps_everything(dates, one);
    law_order_keeps_everything(dates, other);
    let p = one[k] as int;
    let q = other[k] as int;
    if p != q {
        assert(positions(other).contains(p) && positions(one).contains(q));
        let a = choose|a: int| 0 <= a < other.len() && positions(other)[a] == p;
        let b = choose|b: int| 0 <= b < one.len() && positions(one)[b] == q;
        assert(a > k) by {
            if a < k {
                assert(one[a] == other[a]);
                assert(one[a] != one[k]);
            }
        }
        assert(b > k) by {
            if b < k {
                assert(one[b] == other[b]);
                assert(other[b] != other[k]);
            }
        }
        assert(newer(dates, other[k] as int, other[a] as int));
        assert(newer(dates, one[k] as int, one[b] as int));
        lemma_newer_transitive(dates, p, q, p);
        lemma_before_irreflexive(dates[p]);
    }
}

} // verus!
