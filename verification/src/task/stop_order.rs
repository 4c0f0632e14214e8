//! The order in which stops are inserted: stops without a parent station
//! first, and stops of equal parent presence by their own identifier.

use crate::model::gtfs::Stop;
use crate::order::{
    bytes_le, lemma_bytes_le_reflexive, lemma_bytes_le_total, lemma_bytes_le_transitive,
    text_before_eq, text_le,
};
use vstd::prelude::*;
use vstd::utf8::encode_utf8;

verus! {

/// Whether the identifier `a` comes before `b` or equals it: an absent
/// identifier comes first, and two present ones go by the order of texts.
pub open spec fn id_le(a: Option<String>, b: Option<String>) -> bool {
    match (a, b) {
        (None, _) => true,
        (Some(_), None) => false,
        (Some(x), Some(y)) => text_le(x@, y@),
    }
}

/// Whether the stop `a` may stand before the stop `b`.
pub open spec fn stop_le(a: Stop, b: Stop) -> bool {
    if (a.parent_station is Some) == (b.parent_station is Some) {
        id_le(a.stop_id, b.stop_id)
    } else {
        a.parent_station is None
    }
}

/// Whether neither of two stops has to stand before the other.
pub open spec fn same_rank(a: Stop, b: Stop) -> bool {
    stop_le(a, b) && stop_le(b, a)
}

/// Whether each stop of `s` may stand before all that follow it.
pub open spec fn ordered(s: Seq<Stop>) -> bool {
    forall|i: int, j: int| 0 <= i < j < s.len() ==> stop_le(s[i], s[j])
}

/// Whether every stop of `s` without a parent station stands before every
/// stop of `s` with one.
pub open spec fn parents_first(s: Seq<Stop>) -> bool {
    forall|i: int, j: int|
        0 <= i < s.len() && 0 <= j < s.len() && s[i].parent_station is None
            && s[j].parent_station is Some ==> i < j
}

/// The stops of `s` that have the rank of `e`, in their order in `s`.
pub open spec fn rank_class(s: Seq<Stop>, e: Stop) -> Seq<Stop> {
    s.filter(|x: Stop| same_rank(x, e))
}

/// Of two stops, one may stand before the other.
pub proof fn lemma_stop_le_total(a: Stop, b: Stop)
    ensures
        stop_le(a, b) || stop_le(b, a),
{
    if a.stop_id is Some && b.stop_id is Some {
        lemma_bytes_le_total(encode_utf8(a.stop_id->0@), encode_utf8(b.stop_id->0@));
    }
}

/// If `a` may stand before `b`, and `b` before `c`, then `a` may stand
/// before `c`.
pub proof fn lemma_stop_le_transitive(a: Stop, b: Stop, c: Stop)
    requires
        stop_le(a, b),
        stop_le(b, c),
    ensures
        stop_le(a, c),
{
    let same = (a.parent_station is Some) == (b.parent_station is Some) && (
    b.parent_station is Some) == (c.parent_station is Some);
    if same && a.stop_id is Some && b.stop_id is Some && c.stop_id is Some {
        lemma_bytes_le_transitive(
            encode_utf8(a.stop_id->0@),
            encode_utf8(b.stop_id->0@),
            encode_utf8(c.stop_id->0@),
        );
    }
}

/// Every stop may stand before itself.
pub proof fn lemma_stop_le_reflexive(a: Stop)
    ensures
        stop_le(a, a),
{
    if a.stop_id is Some {
        lemma_bytes_le_reflexive(encode_utf8(a.stop_id->0@));
    }
}

/// Whether the stop `a` may stand before the stop `b`.
pub fn stop_before_eq(a: &Stop, b: &Stop) -> (le: bool)
    ensures
        le == stop_le(*a, *b),
{
    if a.parent_station.is_some() != b.parent_station.is_some() {
        return a.parent_station.is_none();
    }
    match (&a.stop_id, &b.stop_id) {
        (None, _) => true,
        (Some(_), None) => false,
        (Some(x), Some(y)) => text_before_eq(x.as_str(), y.as_str()),
    }
}

/// Wherever two stops stood in `input`, if the one has no parent station
/// and the other has one, then in a sorted form of `input` both are present
/// and the first stands before the second. So a station without a parent
/// stands before each stop that names it as its parent.
pub proof fn lemma_parent_precedes_child(input: Seq<Stop>, sorted: Seq<Stop>, a: int, b: int)
    requires
        0 <= a < input.len(),
        0 <= b < input.len(),
        input[a].parent_station is None,
        input[b].parent_station is Some,
        sorted.to_multiset() == input.to_multiset(),
        parents_first(sorted),
    ensures
        exists|i: int, j: int|
            0 <= i < j < sorted.len() && sorted[i] == input[a] && sorted[j] == input[b],
{
    input.to_multiset_ensures();
    sorted.to_multiset_ensures();
    assert(input.contains(input[a]));
    assert(input.contains(input[b]));
    assert(sorted.to_multiset().count(input[a]) > 0);
    assert(sorted.to_multiset().count(input[b]) > 0);
    let i = choose|i: int| 0 <= i < sorted.len() && sorted[i] == input[a];
    let j = choose|j: int| 0 <= j < sorted.len() && sorted[j] == input[b];
    assert(0 <= i < j < sorted.len() && sorted[i] == input[a] && sorted[j] == input[b]);
}

/// One step of the sort: the stop at position `i` moves to position `j` of
/// the ordered part before it, behind every stop that may stand before it.
proof fn lemma_place(prev: Seq<Stop>, first: Seq<Stop>, i: int, j: int)
    requires
        0 <= j <= i < prev.len(),
        prev.len() == first.len(),
        ordered(prev.take(i)),
        prev.skip(i) == first.skip(i),
        prev.to_multiset() == first.to_multiset(),
        forall|e: Stop| #[trigger] rank_class(prev.take(i), e) == rank_class(first.take(i), e),
        j > 0 ==> stop_le(prev[j - 1], prev[i]),
        forall|k: int| j <= k < i ==> !stop_le(#[trigger] prev[k], prev[i]),
    ensures
        ({
            let next = prev.remove(i).insert(j, prev[i]);
            &&& ordered(next.take(i + 1))
            &&& next.skip(i + 1) == first.skip(i + 1)
            &&& next.to_multiset() == first.to_multiset()
            &&& forall|e: Stop| #[trigger]
                rank_class(next.take(i + 1), e) == rank_class(first.take(i + 1), e)
        }),
{
    broadcast use vstd::seq_lib::group_to_multiset_ensures;

    let x = prev[i];
    let sorted = prev.take(i);
    let taken = prev.remove(i);
    let next = taken.insert(j, x);
    let head = next.take(i + 1);
    assert(head =~= sorted.take(j) + seq![x] + sorted.skip(j));
    assert(sorted =~= sorted.take(j) + sorted.skip(j));
    assert(first[i] == x) by {
        assert(prev.skip(i)[0] == first.skip(i)[0]);
    }
    assert(first.take(i + 1) =~= first.take(i) + seq![x]);

    assert forall|a: int, b: int| 0 <= a < b < head.len() implies stop_le(head[a], head[b]) by {
        if b < j {
            assert(stop_le(sorted[a], sorted[b]));
        } else if b == j {
            if a < j - 1 {
                assert(stop_le(sorted[a], sorted[j - 1]));
                lemma_stop_le_transitive(sorted[a], sorted[j - 1], x);
            }
        } else if a == j {
            assert(!stop_le(prev[b - 1], x));
            lemma_stop_le_total(x, prev[b - 1]);
        } else if a < j {
            assert(stop_le(sorted[a], sorted[b - 1]));
        } else {
            assert(stop_le(sorted[a - 1], sorted[b - 1]));
        }
    }

    assert(next.skip(i + 1) =~= first.skip(i + 1)) by {
        let rest = next.skip(i + 1);
        assert forall|k: int| 0 <= k < rest.len() implies #[trigger] rest[k] == first.skip(
            i + 1,
        )[k] by {
            assert(prev.skip(i)[k + 1] == first.skip(i)[k + 1]);
        }
    }

    assert(next.to_multiset() =~= prev.to_multiset()) by {
        assert(next.remove(j) =~= taken);
        assert(taken.to_multiset() == prev.to_multiset().remove(x));
        assert(next.remove(j).to_multiset() == next.to_multiset().remove(next[j]));
        assert(prev.contains(x));
        assert(next.contains(x)) by {
            assert(next[j] == x);
        }
    }

    assert forall|e: Stop| #[trigger]
        rank_class(head, e) == rank_class(first.take(i + 1), e) by {
        let pred = |s: Stop| same_rank(s, e);
        let one = seq![x];
        let low = sorted.take(j);
        let high = sorted.skip(j);
        Seq::filter_distributes_over_add(low + one, high, pred);
        Seq::filter_distributes_over_add(low, one, pred);
        Seq::filter_distributes_over_add(low, high, pred);
        Seq::filter_distributes_over_add(first.take(i), one, pred);
        assert(rank_class(sorted, e) == rank_class(first.take(i), e));
        if same_rank(x, e) {
            assert(high.all(|s: Stop| !pred(s))) by {
                assert forall|k: int| 0 <= k < high.len() implies !pred(high[k]) by {
                    assert(!stop_le(prev[j + k], x));
                    if same_rank(high[k], e) {
                        lemma_stop_le_transitive(high[k], e, x);
                    }
                }
            }
            high.lemma_all_neg_filter_empty(pred);
            assert(high.filter(pred) =~= Seq::<Stop>::empty());
            assert(low.filter(pred) + one.filter(pred) + high.filter(pred) =~= low.filter(pred)
                + high.filter(pred) + one.filter(pred));
        } else {
            assert(one.all(|s: Stop| !pred(s)));
            one.lemma_all_neg_filter_empty(pred);
            assert(one.filter(pred) =~= Seq::<Stop>::empty());
            assert(low.filter(pred) + one.filter(pred) + high.filter(pred) =~= low.filter(pred)
                + high.filter(pred) + one.filter(pred));
        }
    }
}

/// Sorts `stops`: stops without a parent station come before stops with
/// one, and stops of equal parent presence go by their own identifier.
/// Stops that neither order keep the order they came in.
pub fn sort_stops(stops: &mut Vec<Stop>)
    ensures
        ordered(final(stops)@),
        final(stops)@.to_multiset() == old(stops)@.to_multiset(),
        forall|e: Stop| #[trigger] rank_class(final(stops)@, e) == rank_class(old(stops)@, e),
        parents_first(final(stops)@),
{
    let ghost first = stops@;
    let n = stops.len();
    let mut i: usize = 0;
    proof {
        assert(stops@.skip(0) =~= first.skip(0));
    }
    while i < n
        invariant
            i <= n,
            n == stops.len(),
            n == first.len(),
            ordered(stops@.take(i as int)),
            stops@.skip(i as int) == first.skip(i as int),
            stops@.to_multiset() == first.to_multiset(),
            forall|e: Stop| #[trigger]
                rank_class(stops@.take(i as int), e) == rank_class(first.take(i as int), e),
        decreases n - i,
    {
        let ghost prev = stops@;
        let stop = stops.remove(i);
        let mut j: usize = i;
        while j > 0 && !stop_before_eq(&stops[j - 1], &stop)
            invariant
                j <= i,
                i < n,
                stops@ == prev.remove(i as int),
                prev.len() == n,
                stop == prev[i as int],
                forall|k: int| j <= k < i ==> !stop_le(#[trigger] prev[k], stop),
            decreases j,
        {
            j -= 1;
        }
        stops.insert(j, stop);
        proof {
            lemma_place(prev, first, i as int, j as int);
        }
        i += 1;
    }
    proof {
        assert(stops@.take(n as int) =~= stops@);
        assert(first.take(n as int) =~= first);
        assert forall|a: int, b: int|
            0 <= a < stops@.len() && 0 <= b < stops@.len() && stops@[a].parent_station is None
                && stops@[b].parent_station is Some implies a < b by {
            if b < a {
                assert(stop_le(stops@[b], stops@[a]));
            }
        }
    }
}

} // verus!
