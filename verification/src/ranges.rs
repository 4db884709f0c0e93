//! Coalescing of byte ranges: merging nearby half-open intervals into fewer,
//! larger read requests under a span cap.
use vstd::prelude::*;

verus! {

use std::ops::Range;

/// True when `p` lies inside the half-open interval `r`.
pub open spec fn range_covers(r: Range<usize>, p: int) -> bool {
    r.start <= p < r.end
}

/// True when some range of `rs` contains the point `p`.
pub open spec fn covers(rs: Seq<Range<usize>>, p: int) -> bool {
    exists|r: Range<usize>| rs.contains(r) && range_covers(r, p)
}

/// True when one of the first `n` ranges of `rs` contains the point `p`.
pub open spec fn covers_prefix(rs: Seq<Range<usize>>, n: int, p: int) -> bool {
    exists|i: int| 0 <= i < n && range_covers(rs[i], p)
}

/// True when one of the ranges `rs[lo..hi]` contains the point `p`.
pub open spec fn covers_seg(rs: Seq<Range<usize>>, lo: int, hi: int, p: int) -> bool {
    exists|i: int| lo <= i < hi && range_covers(rs[i], p)
}

/// True when `p` lies in a bridged gap among the ranges `rs[lo..hi]`: after
/// the end of one of them, before the start of another, and the two are at
/// most `gap` bytes apart.
pub open spec fn bridged(s: Seq<Range<usize>>, lo: int, hi: int, p: int, gap: int) -> bool {
    exists|a: int, b: int|
        lo <= a < hi && lo <= b < hi && s[a].end <= p < s[b].start && s[b].start - s[a].end <= gap
}

/// True when `p` lies in a bridged gap of `rs`: after the end of one of
/// its ranges, before the start of another, and the two at most `gap`
/// bytes apart.
pub open spec fn gap_bridged(rs: Seq<Range<usize>>, p: int, gap: int) -> bool {
    exists|a: Range<usize>, b: Range<usize>|
        rs.contains(a) && rs.contains(b) && a.end <= p < b.start && b.start - a.end <= gap
}

/// True when the range `rs[i]` lies inside one of the windows of `ws`.
pub open spec fn absorbed(rs: Seq<Range<usize>>, i: int, ws: Seq<Range<usize>>) -> bool {
    exists|k: int| 0 <= k < ws.len() && ws[k].start <= rs[i].start && rs[i].end <= ws[k].end
}

/// True when both endpoints of the window `ws[k]` occur among the first `n`
/// ranges of `rs`.
pub open spec fn endpoints_from(
    ws: Seq<Range<usize>>,
    k: int,
    rs: Seq<Range<usize>>,
    n: int,
) -> bool {
    (exists|i: int| 0 <= i < n && rs[i].start == ws[k].start) && (exists|i: int|
        0 <= i < n && rs[i].end == ws[k].end)
}

/// The ranges of `rs` are ordered by ascending start.
pub open spec fn sorted_by_start(rs: Seq<Range<usize>>) -> bool {
    forall|i: int, j: int| 0 <= i < j < rs.len() ==> rs[i].start <= rs[j].start
}

/// Every range of `rs` is a well-formed interval.
pub open spec fn ranges_well_formed(rs: Seq<Range<usize>>) -> bool {
    forall|r: Range<usize>| rs.contains(r) ==> r.start <= r.end
}

/// The window `w` could not absorb a following range starting at `next_start`:
/// either the window's own span already exceeds `max_span`, or the gap in
/// front of the next range is wider than `gap`.
pub open spec fn window_closed(w: Range<usize>, next_start: int, gap: int, max_span: int) -> bool {
    w.end - w.start > max_span || next_start - w.end > gap
}

/// All consecutive windows of `ws` are mutually closed.
pub open spec fn windows_closed(ws: Seq<Range<usize>>, gap: int, max_span: int) -> bool {
    forall|k: int|
        0 <= k && k + 1 < ws.len() ==> window_closed(
            #[trigger] ws[k],
            ws[k + 1].start as int,
            gap,
            max_span,
        )
}

/// Every range of `input` lies inside one window of `out`.
pub open spec fn input_contained(input: Seq<Range<usize>>, out: Seq<Range<usize>>) -> bool {
    forall|r: Range<usize>|
        input.contains(r) ==> exists|w: Range<usize>|
            out.contains(w) && w.start <= r.start && r.end <= w.end
}

/// Every byte covered by `a` is covered by `b`.
pub open spec fn coverage_preserved(a: Seq<Range<usize>>, b: Seq<Range<usize>>) -> bool {
    forall|p: int| covers(a, p) ==> covers(b, p)
}

/// Both endpoints of every window of `out` are endpoints of ranges of
/// `input`.
pub open spec fn endpoints_realized(out: Seq<Range<usize>>, input: Seq<Range<usize>>) -> bool {
    forall|w: Range<usize>|
        out.contains(w) ==> (exists|r: Range<usize>| input.contains(r) && r.start == w.start) && (
        exists|r: Range<usize>| input.contains(r) && r.end == w.end)
}

/// Everything the merge loop establishes about its result, relative to the
/// sorted input: kept opaque so that callers handle it as one fact.
#[verifier::opaque]
pub open spec fn merged_from(
    sorted: Seq<Range<usize>>,
    ret: Seq<Range<usize>>,
    gap: int,
    max_span: int,
) -> bool {
    &&& 0 < ret.len() <= sorted.len()
    &&& sorted_by_start(ret)
    &&& ranges_well_formed(ret)
    &&& (forall|i: int| 0 <= i < sorted.len() ==> #[trigger] absorbed(sorted, i, ret))
    &&& (forall|k: int|
        0 <= k < ret.len() ==> #[trigger] endpoints_from(ret, k, sorted, sorted.len() as int))
    &&& windows_closed(ret, gap, max_span)
    &&& (forall|p: int|
        #[trigger] covers(ret, p) ==> covers_prefix(sorted, sorted.len() as int, p) || bridged(
            sorted,
            0,
            sorted.len() as int,
            p,
            gap,
        ))
}


/// The merger's absorption test: the next range, starting at `next_start`,
/// joins a window beginning at `w_start` whose end so far is `range_end`
/// exactly when the window's span before absorbing is within `max_span` and
/// the gap in front of the next range is at most `gap` (an overlapping or
/// adjacent range has a non-positive gap and always passes).
pub open spec fn can_absorb(
    w_start: int,
    range_end: int,
    next_start: int,
    gap: int,
    max_span: int,
) -> bool {
    range_end - w_start <= max_span && next_start - range_end <= gap
}

/// Grows the window that begins at `s[k0]`: starting from index `i` with
/// window end `range_end`, absorbs ranges while the absorption test passes,
/// keeping the running maximum of ends. Returns the index past the last
/// absorbed range and the final window end.
pub open spec fn grow_spec(
    s: Seq<Range<usize>>,
    k0: int,
    i: int,
    range_end: int,
    gap: int,
    max_span: int,
) -> (int, int)
    decreases s.len() - i,
{
    if i < 0 || i >= s.len() {
        (i, range_end)
    } else if can_absorb(s[k0].start as int, range_end, s[i].start as int, gap, max_span) {
        grow_spec(
            s,
            k0,
            i + 1,
            if range_end >= s[i].end as int {
                range_end
            } else {
                s[i].end as int
            },
            gap,
            max_span,
        )
    } else {
        (i, range_end)
    }
}

/// Growing a window never moves backwards, nor past the end.
pub proof fn lemma_grow_spec_lower_bound(
    s: Seq<Range<usize>>,
    k0: int,
    i: int,
    range_end: int,
    gap: int,
    max_span: int,
)
    ensures
        grow_spec(s, k0, i, range_end, gap, max_span).0 >= i,
        i <= s.len() ==> grow_spec(s, k0, i, range_end, gap, max_span).0 <= s.len(),
    decreases s.len() - i,
{
    if 0 <= i < s.len() && can_absorb(
        s[k0].start as int,
        range_end,
        s[i].start as int,
        gap,
        max_span,
    ) {
        lemma_grow_spec_lower_bound(
            s,
            k0,
            i + 1,
            if range_end >= s[i].end as int {
                range_end
            } else {
                s[i].end as int
            },
            gap,
            max_span,
        );
    }
}

/// The greedy merge of the sorted ranges `s` from index `k0` on: each
/// window starts at the first unabsorbed range, grows as far as the
/// absorption test allows, and is emitted as one interval from that range's
/// start to the running maximum of absorbed ends.
pub open spec fn greedy_from(s: Seq<Range<usize>>, k0: int, gap: int, max_span: int) -> Seq<
    Range<usize>,
>
    decreases s.len() - k0 via greedy_from_decreases
{
    if k0 < 0 || k0 >= s.len() {
        Seq::empty()
    } else {
        let grown = grow_spec(s, k0, k0 + 1, s[k0].end as int, gap, max_span);
        seq![(s[k0].start..(grown.1 as usize))] + greedy_from(s, grown.0, gap, max_span)
    }
}

#[via_fn]
proof fn greedy_from_decreases(s: Seq<Range<usize>>, k0: int, gap: int, max_span: int) {
    if 0 <= k0 < s.len() {
        lemma_grow_spec_lower_bound(s, k0, k0 + 1, s[k0].end as int, gap, max_span);
    }
}

/// The greedy merge of a whole sorted range list.
pub open spec fn greedy_merge(sorted: Seq<Range<usize>>, gap: int, max_span: int) -> Seq<
    Range<usize>,
> {
    greedy_from(sorted, 0, gap, max_span)
}

/// Two lists sorted by start and holding the same ranges are equal when no
/// two ranges share a start. With the functional clause of `merge_ranges`
/// this makes the merge independent of the input order: any permutation of
/// such an input sorts to the same list and merges to the same output.
pub proof fn lemma_sorted_permutation_unique(a: Seq<Range<usize>>, b: Seq<Range<usize>>)
    requires
        sorted_by_start(a),
        sorted_by_start(b),
        a.to_multiset() == b.to_multiset(),
        forall|i: int, j: int| 0 <= i < j < a.len() ==> a[i].start != a[j].start,
    ensures
        a == b,
    decreases a.len(),
{
    broadcast use vstd::multiset::group_multiset_axioms;

    vstd::seq_lib::to_multiset_len(a);
    vstd::seq_lib::to_multiset_len(b);
    if a.len() == 0 {
        assert(a =~= b);
    } else {
        assert(a.contains(a[0]));
        vstd::seq_lib::to_multiset_contains(a, a[0]);
        vstd::seq_lib::to_multiset_contains(b, a[0]);
        assert(b.contains(a[0]));
        let j = choose|j: int| 0 <= j < b.len() && b[j] == a[0];
        assert(b.contains(b[0]));
        vstd::seq_lib::to_multiset_contains(b, b[0]);
        vstd::seq_lib::to_multiset_contains(a, b[0]);
        assert(a.contains(b[0]));
        let i = choose|i: int| 0 <= i < a.len() && a[i] == b[0];
        assert(a[0].start <= a[i].start);
        assert(b[0].start <= b[j].start);
        assert(a[0].start == b[0].start);
        if i != 0 {
            assert(a[0].start != a[i].start);
            assert(false);
        }
        assert(a[0] == b[0]);

        let at = a.drop_first();
        let bt = b.drop_first();
        assert(at =~= a.remove(0));
        assert(bt =~= b.remove(0));
        vstd::seq_lib::to_multiset_remove(a, 0);
        vstd::seq_lib::to_multiset_remove(b, 0);
        assert(at.to_multiset() =~= bt.to_multiset());
        assert forall|i2: int, j2: int| 0 <= i2 < j2 < at.len() implies at[i2].start
            != at[j2].start by {
            assert(at[i2] == a[i2 + 1] && at[j2] == a[j2 + 1]);
        }
        assert forall|i2: int, j2: int| 0 <= i2 < j2 < at.len() implies at[i2].start
            <= at[j2].start by {
            assert(at[i2] == a[i2 + 1] && at[j2] == a[j2 + 1]);
        }
        assert forall|i2: int, j2: int| 0 <= i2 < j2 < bt.len() implies bt[i2].start
            <= bt[j2].start by {
            assert(bt[i2] == b[i2 + 1] && bt[j2] == b[j2 + 1]);
        }
        lemma_sorted_permutation_unique(at, bt);
        assert forall|k: int| 0 <= k < a.len() implies a[k] == b[k] by {
            if k > 0 {
                assert(a[k] == at[k - 1] && b[k] == bt[k - 1]);
            }
        }
        assert(a =~= b);
    }
}

/// A window within the span cap never overlaps its successor: only an
/// individually oversized window may. With a nonnegative gap allowance,
/// mutual closure of consecutive windows leaves a real gap after every
/// window whose own span is within `max_span`.
pub proof fn lemma_windows_disjoint(ws: Seq<Range<usize>>, gap: int, max_span: int)
    requires
        gap >= 0,
        windows_closed(ws, gap, max_span),
    ensures
        forall|k: int|
            0 <= k && k + 1 < ws.len() && (#[trigger] ws[k]).end - ws[k].start <= max_span
                ==> ws[k].end < ws[k + 1].start,
{
    assert forall|k: int|
        0 <= k && k + 1 < ws.len() && (#[trigger] ws[k]).end - ws[k].start <= max_span implies ws[
        k].end < ws[k + 1].start by {
        assert(window_closed(ws[k], ws[k + 1].start as int, gap, max_span));
    }
}

/// Index of a range with minimal start.
#[verifier::spinoff_prover]
fn min_start_index(v: &Vec<Range<usize>>) -> (m: usize)
    requires
        v.len() > 0,
    ensures
        m < v.len(),
        forall|i: int| 0 <= i < v@.len() ==> v@[m as int].start <= v@[i].start,
{
    let mut m: usize = 0;
    let mut i: usize = 1;
    while i < v.len()
        invariant
            m < i <= v.len(),
            forall|j: int| 0 <= j < i ==> v@[m as int].start <= v@[j].start,
        decreases v.len() - i,
    {
        if v[i].start < v[m].start {
            m = i;
        }
        i = i + 1;
    }
    m
}

/// Sorts ranges by ascending start, keeping the same multiset of ranges.
#[verifier::spinoff_prover]
fn sort_by_start(src: Vec<Range<usize>>) -> (out: Vec<Range<usize>>)
    ensures
        sorted_by_start(out@),
        out@.to_multiset() == src@.to_multiset(),
        out@.len() == src@.len(),
        forall|r: Range<usize>| out@.contains(r) <==> src@.contains(r),
{
    let ghost orig = src@;
    let mut rest = src;
    let mut out: Vec<Range<usize>> = Vec::new();
    proof {
        broadcast use vstd::multiset::group_multiset_axioms;

        vstd::seq_lib::to_multiset_len(out@);
        vstd::multiset::lemma_multiset_empty_len(out@.to_multiset());
        assert(out@.to_multiset().add(rest@.to_multiset()) =~= orig.to_multiset());
    }
    while rest.len() > 0
        invariant
            out@.to_multiset().add(rest@.to_multiset()) =~= orig.to_multiset(),
            sorted_by_start(out@),
            forall|i: int, j: int|
                0 <= i < out@.len() && 0 <= j < rest@.len() ==> out@[i].start <= rest@[j].start,
            out@.len() + rest@.len() == orig.len(),
        decreases rest.len(),
    {
        let m = min_start_index(&rest);
        let ghost rest0 = rest@;
        let ghost out0 = out@;
        let r = rest.remove(m);
        out.push(r);
        proof {
            broadcast use vstd::multiset::group_multiset_axioms;

            vstd::seq_lib::to_multiset_remove(rest0, m as int);
            vstd::seq_lib::to_multiset_build(out0, r);
            vstd::seq_lib::to_multiset_contains(rest0, r);
            assert(rest0.contains(r));
            assert(rest0.to_multiset().count(r) > 0);
            assert forall|x: Range<usize>|
                out@.to_multiset().add(rest@.to_multiset()).count(x) == orig.to_multiset().count(
                x,
            ) by {
                assert(out@.to_multiset().count(x) == out0.to_multiset().insert(r).count(x));
                assert(rest@.to_multiset().count(x) == rest0.to_multiset().remove(r).count(x));
                assert(out0.to_multiset().add(rest0.to_multiset()).count(x)
                    == orig.to_multiset().count(x));
            }
            assert(out@.to_multiset().add(rest@.to_multiset()) =~= orig.to_multiset());
            assert forall|i: int, j: int|
                0 <= i < out@.len() && 0 <= j < rest@.len() implies out@[i].start
                <= rest@[j].start by {
                assert(rest@[j] == if j < m { rest0[j] } else { rest0[j + 1] });
            }
        }
    }
    proof {
        broadcast use vstd::multiset::group_multiset_axioms;

        vstd::seq_lib::to_multiset_len(rest@);
        vstd::multiset::lemma_multiset_empty_len(rest@.to_multiset());
        assert forall|x: Range<usize>|
            out@.to_multiset().count(x) == orig.to_multiset().count(x) by {
            assert(out@.to_multiset().add(rest@.to_multiset()).count(x) == orig.to_multiset().count(
                x,
            ));
        }
        assert(out@.to_multiset() =~= orig.to_multiset());
        assert forall|r: Range<usize>| out@.contains(r) <==> orig.contains(r) by {
            vstd::seq_lib::to_multiset_contains(out@, r);
            vstd::seq_lib::to_multiset_contains(orig, r);
        }
    }
    out
}

/// Grows one window: starting from the range at `start_idx`, absorbs following
/// ranges while the gap before each is at most `coalesce` and the window span
/// so far is within `max_range_size`. Returns the index past the last absorbed
/// range together with the window end, the maximum end seen.
#[verifier::spinoff_prover]
fn grow_window(
    ranges: &Vec<Range<usize>>,
    start_idx: usize,
    coalesce: usize,
    max_range_size: usize,
) -> (r: (usize, usize))
    requires
        sorted_by_start(ranges@),
        forall|i: int| 0 <= i < ranges@.len() ==> (#[trigger] ranges@[i]).start <= ranges@[i].end,
        start_idx < ranges@.len(),
    ensures
        ({
            let (end_idx, range_end) = r;
            let k0 = start_idx as int;
            &&& start_idx < end_idx <= ranges@.len()
            &&& ranges@[k0].start <= range_end
            &&& (forall|i: int| k0 <= i < end_idx ==> (#[trigger] ranges@[i]).end <= range_end)
            &&& (exists|i: int| k0 <= i < end_idx && (#[trigger] ranges@[i]).end == range_end)
            &&& (end_idx < ranges@.len() ==> window_closed(
                ranges@[k0].start..range_end,
                ranges@[end_idx as int].start as int,
                coalesce as int,
                max_range_size as int,
            ))
            &&& (coalesce == 0 ==> forall|p: int|
                ranges@[k0].start <= p < range_end ==> #[trigger] covers_seg(
                    ranges@,
                    k0,
                    end_idx as int,
                    p,
                ))
            &&& (forall|p: int|
                ranges@[k0].start <= p < range_end ==> #[trigger] covers_seg(
                    ranges@,
                    k0,
                    end_idx as int,
                    p,
                ) || bridged(ranges@, k0, end_idx as int, p, coalesce as int))
            &&& (end_idx as int, range_end as int) == grow_spec(
                ranges@,
                k0,
                k0 + 1,
                ranges@[k0].end as int,
                coalesce as int,
                max_range_size as int,
            )
        }),
{
    let ghost sorted = ranges@;
    let ghost n = sorted.len() as int;
    let ghost k0 = start_idx as int;
    let len = ranges.len();
    let w_start = ranges[start_idx].start;
    let mut range_end = ranges[start_idx].end;
    let mut end_idx: usize = start_idx + 1;

    while end_idx != len && range_end - w_start <= max_range_size && (
    ranges[end_idx].start <= range_end || ranges[end_idx].start - range_end <= coalesce)
        invariant
            ranges@ == sorted,
            sorted_by_start(sorted),
            forall|i: int| 0 <= i < n ==> (#[trigger] sorted[i]).start <= sorted[i].end,
            n == sorted.len(),
            len == n,
            k0 == start_idx as int,
            start_idx < n,
            start_idx < end_idx <= n,
            w_start == sorted[k0].start,
            w_start <= range_end,
            forall|i: int| k0 <= i < end_idx ==> (#[trigger] sorted[i]).end <= range_end,
            exists|i: int| k0 <= i < end_idx && (#[trigger] sorted[i]).end == range_end,
            coalesce == 0 ==> forall|p: int|
                w_start <= p < range_end ==> #[trigger] covers_seg(sorted, k0, end_idx as int, p),
            forall|p: int|
                w_start <= p < range_end ==> #[trigger] covers_seg(sorted, k0, end_idx as int, p)
                    || bridged(sorted, k0, end_idx as int, p, coalesce as int),
            grow_spec(sorted, k0, end_idx as int, range_end as int, coalesce as int,
                max_range_size as int) == grow_spec(
                sorted,
                k0,
                k0 + 1,
                sorted[k0].end as int,
                coalesce as int,
                max_range_size as int,
            ),
        decreases n - end_idx,
    {
        let ghost old_end = range_end as int;
        let ghost old_hi = end_idx as int;
        if ranges[end_idx].end > range_end {
            range_end = ranges[end_idx].end;
        }
        proof {
            if sorted[old_hi].end > old_end {
                assert(sorted[old_hi].end == range_end);
            } else {
                let i = choose|i: int| k0 <= i < old_hi && (#[trigger] sorted[i]).end == old_end;
                assert(sorted[i].end == range_end);
            }
            if coalesce == 0 {
                assert forall|p: int| w_start <= p < range_end implies #[trigger] covers_seg(
                    sorted,
                    k0,
                    old_hi + 1,
                    p,
                ) by {
                    if p < old_end {
                        assert(covers_seg(sorted, k0, old_hi, p));
                        let i = choose|i: int| k0 <= i < old_hi && range_covers(sorted[i], p);
                        assert(range_covers(sorted[i], p));
                    } else {
                        assert(sorted[old_hi].start <= old_end);
                        assert(range_covers(sorted[old_hi], p));
                    }
                }
            }
            // every window byte is an absorbed byte or lies in a bridged gap
            assert forall|p: int| w_start <= p < range_end implies #[trigger] covers_seg(
                sorted,
                k0,
                old_hi + 1,
                p,
            ) || bridged(sorted, k0, old_hi + 1, p, coalesce as int) by {
                if p < old_end {
                    if covers_seg(sorted, k0, old_hi, p) {
                        let i = choose|i: int| k0 <= i < old_hi && range_covers(sorted[i], p);
                        assert(range_covers(sorted[i], p));
                        assert(covers_seg(sorted, k0, old_hi + 1, p));
                    } else {
                        assert(bridged(sorted, k0, old_hi, p, coalesce as int));
                        let (a, b) = choose|a: int, b: int|
                            k0 <= a < old_hi && k0 <= b < old_hi && sorted[a].end <= p
                                < sorted[b].start && sorted[b].start - sorted[a].end
                                <= coalesce as int;
                        assert(sorted[a].end <= p < sorted[b].start
                            && sorted[b].start - sorted[a].end <= coalesce as int);
                        assert(bridged(sorted, k0, old_hi + 1, p, coalesce as int));
                    }
                } else if p < sorted[old_hi].start {
                    // a byte of the gap bridged by absorbing this range
                    let a = choose|i: int|
                        k0 <= i < old_hi && (#[trigger] sorted[i]).end == old_end;
                    assert(sorted[a].end <= p < sorted[old_hi].start
                        && sorted[old_hi].start - sorted[a].end <= coalesce as int);
                    assert(bridged(sorted, k0, old_hi + 1, p, coalesce as int));
                } else {
                    assert(range_covers(sorted[old_hi], p));
                    assert(covers_seg(sorted, k0, old_hi + 1, p));
                }
            }
            // the grown window is the one the greedy description grows
            assert(can_absorb(
                sorted[k0].start as int,
                old_end,
                sorted[old_hi].start as int,
                coalesce as int,
                max_range_size as int,
            ));
            assert(grow_spec(sorted, k0, old_hi, old_end, coalesce as int, max_range_size as int)
                == grow_spec(sorted, k0, old_hi + 1, range_end as int, coalesce as int,
                max_range_size as int));
        }
        end_idx = end_idx + 1;
    }
    proof {
        if end_idx < len {
            assert(!can_absorb(
                sorted[k0].start as int,
                range_end as int,
                sorted[end_idx as int].start as int,
                coalesce as int,
                max_range_size as int,
            ));
        }
        assert(grow_spec(sorted, k0, end_idx as int, range_end as int, coalesce as int,
            max_range_size as int) == (end_idx as int, range_end as int));
    }
    (end_idx, range_end)
}

/// Appending a fully grown window keeps every structural invariant of the
/// emitted window list.
#[verifier::spinoff_prover]
proof fn lemma_emit_window(
    sorted: Seq<Range<usize>>,
    ret0: Seq<Range<usize>>,
    w: Range<usize>,
    k0: int,
    hi: int,
    gap: int,
    max_span: int,
)
    requires
        sorted_by_start(sorted),
        forall|i: int| 0 <= i < sorted.len() ==> (#[trigger] sorted[i]).start <= sorted[i].end,
        0 <= k0 < hi <= sorted.len(),
        w.start == sorted[k0].start,
        w.start <= w.end,
        forall|i: int| k0 <= i < hi ==> (#[trigger] sorted[i]).end <= w.end,
        exists|i: int| k0 <= i < hi && (#[trigger] sorted[i]).end == w.end,
        sorted_by_start(ret0),
        ranges_well_formed(ret0),
        forall|i: int| 0 <= i < k0 ==> #[trigger] absorbed(sorted, i, ret0),
        forall|k: int| 0 <= k < ret0.len() ==> #[trigger] endpoints_from(ret0, k, sorted, k0),
        windows_closed(ret0, gap, max_span),
        ret0.len() > 0 ==> window_closed(ret0.last(), sorted[k0].start as int, gap, max_span),
    ensures
        sorted_by_start(ret0.push(w)),
        ranges_well_formed(ret0.push(w)),
        forall|i: int| 0 <= i < hi ==> #[trigger] absorbed(sorted, i, ret0.push(w)),
        forall|k: int|
            0 <= k < ret0.push(w).len() ==> #[trigger] endpoints_from(ret0.push(w), k, sorted, hi),
        windows_closed(ret0.push(w), gap, max_span),
{
    let ret1 = ret0.push(w);
    assert forall|k: int| 0 <= k < ret0.len() implies ret0[k].start <= w.start by {
        assert(endpoints_from(ret0, k, sorted, k0));
        let i = choose|i: int| 0 <= i < k0 && sorted[i].start == ret0[k].start;
        assert(sorted[i].start <= sorted[k0].start);
    }
    assert(sorted_by_start(ret1));
    assert forall|r: Range<usize>| ret1.contains(r) implies r.start <= r.end by {
        let k = choose|k: int| 0 <= k < ret1.len() && ret1[k] == r;
        if k < ret0.len() {
            assert(ret0.contains(ret0[k]));
        }
    }
    assert forall|i: int| 0 <= i < hi implies #[trigger] absorbed(sorted, i, ret1) by {
        if i < k0 {
            assert(absorbed(sorted, i, ret0));
            let k = choose|k: int|
                0 <= k < ret0.len() && ret0[k].start <= sorted[i].start && sorted[i].end
                    <= ret0[k].end;
            assert(ret1[k] == ret0[k]);
            assert(ret1[k].start <= sorted[i].start && sorted[i].end <= ret1[k].end);
        } else {
            assert(ret1[ret0.len() as int] == w);
            assert(w.start <= sorted[i].start && sorted[i].end <= w.end);
        }
    }
    assert forall|k: int| 0 <= k < ret1.len() implies #[trigger] endpoints_from(
        ret1,
        k,
        sorted,
        hi,
    ) by {
        if k < ret0.len() {
            assert(endpoints_from(ret0, k, sorted, k0));
            let i = choose|i: int| 0 <= i < k0 && sorted[i].start == ret0[k].start;
            let j = choose|j: int| 0 <= j < k0 && sorted[j].end == ret0[k].end;
            assert(ret1[k] == ret0[k]);
            assert(0 <= i < hi && sorted[i].start == ret1[k].start);
            assert(0 <= j < hi && sorted[j].end == ret1[k].end);
        } else {
            assert(ret1[k] == w);
            assert(sorted[k0].start == w.start);
            let j = choose|j: int| k0 <= j < hi && (#[trigger] sorted[j]).end == w.end;
            assert(sorted[j].end == w.end);
        }
    }
    assert forall|k: int| 0 <= k && k + 1 < ret1.len() implies window_closed(
        #[trigger] ret1[k],
        ret1[k + 1].start as int,
        gap,
        max_span,
    ) by {
        if k + 1 < ret0.len() {
            assert(ret1[k] == ret0[k] && ret1[k + 1] == ret0[k + 1]);
            assert(window_closed(ret0[k], ret0[k + 1].start as int, gap, max_span));
        } else {
            assert(ret1[k] == ret0.last() && ret1[k + 1] == w);
            assert(w.start == sorted[k0].start);
        }
    }
}

/// With a zero gap, appending a window whose bytes are all absorbed bytes
/// keeps the emitted list covering only processed bytes.
#[verifier::spinoff_prover]
proof fn lemma_emit_cover(
    sorted: Seq<Range<usize>>,
    ret0: Seq<Range<usize>>,
    w: Range<usize>,
    k0: int,
    hi: int,
    gap: int,
)
    requires
        0 <= k0 < hi <= sorted.len(),
        forall|p: int|
            #[trigger] covers(ret0, p) ==> covers_prefix(sorted, k0, p) || bridged(
                sorted,
                0,
                k0,
                p,
                gap,
            ),
        forall|p: int|
            w.start <= p < w.end ==> #[trigger] covers_seg(sorted, k0, hi, p) || bridged(
                sorted,
                k0,
                hi,
                p,
                gap,
            ),
    ensures
        forall|p: int|
            #[trigger] covers(ret0.push(w), p) ==> covers_prefix(sorted, hi, p) || bridged(
                sorted,
                0,
                hi,
                p,
                gap,
            ),
{
    let ret1 = ret0.push(w);
    assert forall|p: int| #[trigger] covers(ret1, p) implies covers_prefix(sorted, hi, p)
        || bridged(sorted, 0, hi, p, gap) by {
        let r = choose|r: Range<usize>| ret1.contains(r) && range_covers(r, p);
        let k = choose|k: int| 0 <= k < ret1.len() && ret1[k] == r;
        if k < ret0.len() {
            assert(ret0.contains(r));
            assert(covers(ret0, p));
            if covers_prefix(sorted, k0, p) {
                let i = choose|i: int| 0 <= i < k0 && range_covers(sorted[i], p);
                assert(0 <= i < hi && range_covers(sorted[i], p));
            } else {
                let (a, b) = choose|a: int, b: int|
                    0 <= a < k0 && 0 <= b < k0 && sorted[a].end <= p < sorted[b].start
                        && sorted[b].start - sorted[a].end <= gap;
                assert(0 <= a < hi && 0 <= b < hi && sorted[a].end <= p < sorted[b].start
                    && sorted[b].start - sorted[a].end <= gap);
                assert(bridged(sorted, 0, hi, p, gap));
            }
        } else {
            assert(r == w && range_covers(w, p));
            if covers_seg(sorted, k0, hi, p) {
                let i = choose|i: int| k0 <= i < hi && range_covers(sorted[i], p);
                assert(0 <= i < hi && range_covers(sorted[i], p));
            } else {
                assert(bridged(sorted, k0, hi, p, gap));
                let (a, b) = choose|a: int, b: int|
                    k0 <= a < hi && k0 <= b < hi && sorted[a].end <= p < sorted[b].start
                        && sorted[b].start - sorted[a].end <= gap;
                assert(0 <= a < hi && 0 <= b < hi && sorted[a].end <= p < sorted[b].start
                    && sorted[b].start - sorted[a].end <= gap);
                assert(bridged(sorted, 0, hi, p, gap));
            }
        }
    }
}

/// The structural facts of the merged list, unbundled for callers.
#[verifier::spinoff_prover]
proof fn lemma_finish_basic(
    sorted: Seq<Range<usize>>,
    ret: Seq<Range<usize>>,
    gap: int,
    max_span: int,
)
    requires
        merged_from(sorted, ret, gap, max_span),
    ensures
        0 < ret.len() <= sorted.len(),
        sorted_by_start(ret),
        ranges_well_formed(ret),
        windows_closed(ret, gap, max_span),
{
    reveal(merged_from);
}

/// Every range of `raw` lies inside some window of `ret`.
#[verifier::spinoff_prover]
proof fn lemma_finish_absorbed(
    raw: Seq<Range<usize>>,
    sorted: Seq<Range<usize>>,
    ret: Seq<Range<usize>>,
    gap: int,
    max_span: int,
)
    requires
        forall|r: Range<usize>| sorted.contains(r) <==> raw.contains(r),
        merged_from(sorted, ret, gap, max_span),
    ensures
        input_contained(raw, ret),
{
    reveal(merged_from);
    assert forall|r: Range<usize>| raw.contains(r) implies exists|w: Range<usize>|
        ret.contains(w) && w.start <= r.start && r.end <= w.end by {
        assert(sorted.contains(r));
        let i = choose|i: int| 0 <= i < sorted.len() && sorted[i] == r;
        assert(absorbed(sorted, i, ret));
        let k = choose|k: int|
            0 <= k < ret.len() && ret[k].start <= sorted[i].start && sorted[i].end <= ret[k].end;
        assert(ret.contains(ret[k]));
    }
}

/// A list whose windows contain every range of `raw` covers every byte that
/// `raw` covers.
#[verifier::spinoff_prover]
proof fn lemma_finish_covers(raw: Seq<Range<usize>>, ret: Seq<Range<usize>>)
    requires
        input_contained(raw, ret),
    ensures
        coverage_preserved(raw, ret),
{
    assert forall|p: int| covers(raw, p) implies covers(ret, p) by {
        let r = choose|r: Range<usize>| raw.contains(r) && range_covers(r, p);
        let w = choose|w: Range<usize>| ret.contains(w) && w.start <= r.start && r.end <= w.end;
        assert(range_covers(w, p));
    }
}

/// Bytes covered only through processed ranges are bytes of `raw`.
#[verifier::spinoff_prover]
proof fn lemma_finish_exact(
    raw: Seq<Range<usize>>,
    sorted: Seq<Range<usize>>,
    ret: Seq<Range<usize>>,
    gap: int,
    max_span: int,
)
    requires
        gap == 0,
        forall|r: Range<usize>| sorted.contains(r) <==> raw.contains(r),
        merged_from(sorted, ret, gap, max_span),
    ensures
        coverage_preserved(ret, raw),
{
    reveal(merged_from);
    assert forall|p: int| covers(ret, p) implies covers(raw, p) by {
        assert(covers_prefix(sorted, sorted.len() as int, p));
        let i = choose|i: int| 0 <= i < sorted.len() && range_covers(sorted[i], p);
        assert(sorted.contains(sorted[i]));
        assert(raw.contains(sorted[i]));
    }
}

/// Every output byte is an input byte or lies in a bridged gap of the
/// input: between the end of one input range and the start of another at
/// most `gap` bytes later.
#[verifier::spinoff_prover]
proof fn lemma_finish_bridged(
    raw: Seq<Range<usize>>,
    sorted: Seq<Range<usize>>,
    ret: Seq<Range<usize>>,
    gap: int,
    max_span: int,
)
    requires
        forall|r: Range<usize>| sorted.contains(r) <==> raw.contains(r),
        merged_from(sorted, ret, gap, max_span),
    ensures
        forall|p: int| #[trigger] covers(ret, p) ==> covers(raw, p) || gap_bridged(raw, p, gap),
{
    reveal(merged_from);
    let n = sorted.len() as int;
    assert forall|p: int| #[trigger] covers(ret, p) implies covers(raw, p) || gap_bridged(
        raw,
        p,
        gap,
    ) by {
        if covers_prefix(sorted, n, p) {
            let i = choose|i: int| 0 <= i < n && range_covers(sorted[i], p);
            assert(sorted.contains(sorted[i]));
            assert(raw.contains(sorted[i]));
            assert(covers(raw, p));
        } else {
            assert(bridged(sorted, 0, n, p, gap));
            let (a, b) = choose|a: int, b: int|
                0 <= a < n && 0 <= b < n && sorted[a].end <= p < sorted[b].start
                    && sorted[b].start - sorted[a].end <= gap;
            assert(sorted.contains(sorted[a]));
            assert(sorted.contains(sorted[b]));
            assert(raw.contains(sorted[a]) && raw.contains(sorted[b]));
            assert(gap_bridged(raw, p, gap));
        }
    }
}

/// Window endpoints are endpoints of ranges of `raw`.
#[verifier::spinoff_prover]
proof fn lemma_finish_endpoints(
    raw: Seq<Range<usize>>,
    sorted: Seq<Range<usize>>,
    ret: Seq<Range<usize>>,
    gap: int,
    max_span: int,
)
    requires
        forall|r: Range<usize>| sorted.contains(r) <==> raw.contains(r),
        merged_from(sorted, ret, gap, max_span),
    ensures
        endpoints_realized(ret, raw),
{
    reveal(merged_from);
    assert forall|w: Range<usize>| ret.contains(w) implies (exists|r: Range<usize>|
        raw.contains(r) && r.start == w.start) && (exists|r: Range<usize>|
        raw.contains(r) && r.end == w.end) by {
        let k = choose|k: int| 0 <= k < ret.len() && ret[k] == w;
        assert(endpoints_from(ret, k, sorted, sorted.len() as int));
        let i = choose|i: int| 0 <= i < sorted.len() && sorted[i].start == w.start;
        let j = choose|j: int| 0 <= j < sorted.len() && sorted[j].end == w.end;
        assert(sorted.contains(sorted[i]));
        assert(sorted.contains(sorted[j]));
    }
}

/// A one-element input comes back unchanged.
#[verifier::spinoff_prover]
proof fn lemma_finish_singleton(
    raw: Seq<Range<usize>>,
    sorted: Seq<Range<usize>>,
    ret: Seq<Range<usize>>,
    gap: int,
    max_span: int,
)
    requires
        raw.len() == 1,
        sorted.len() == 1,
        forall|r: Range<usize>| sorted.contains(r) <==> raw.contains(r),
        merged_from(sorted, ret, gap, max_span),
    ensures
        ret == raw,
{
    reveal(merged_from);
    assert(sorted.contains(sorted[0]));
    assert(raw.contains(sorted[0]));
    assert(raw[0] == sorted[0]);
    let w = ret[0];
    assert(endpoints_from(ret, 0, sorted, 1));
    let i = choose|i: int| 0 <= i < 1 && sorted[i].start == w.start;
    let j = choose|j: int| 0 <= j < 1 && sorted[j].end == w.end;
    assert(w.start == sorted[0].start && w.end == sorted[0].end);
    assert(ret =~= raw);
}

/// Emits one grown window onto the result list, preserving every invariant
/// of the emitted-window list.
#[verifier::spinoff_prover]
fn emit_window(
    ret: &mut Vec<Range<usize>>,
    ranges: &Vec<Range<usize>>,
    start_idx: usize,
    end_idx: usize,
    range_end: usize,
    coalesce: usize,
    max_range_size: usize,
)
    requires
        sorted_by_start(ranges@),
        forall|i: int| 0 <= i < ranges@.len() ==> (#[trigger] ranges@[i]).start <= ranges@[i].end,
        start_idx < end_idx <= ranges@.len(),
        ranges@[start_idx as int].start <= range_end,
        forall|i: int|
            start_idx <= i < end_idx ==> (#[trigger] ranges@[i]).end <= range_end,
        exists|i: int| start_idx <= i < end_idx && (#[trigger] ranges@[i]).end == range_end,
        forall|p: int|
            ranges@[start_idx as int].start <= p < range_end ==> #[trigger] covers_seg(
                ranges@,
                start_idx as int,
                end_idx as int,
                p,
            ) || bridged(ranges@, start_idx as int, end_idx as int, p, coalesce as int),
        sorted_by_start(old(ret)@),
        ranges_well_formed(old(ret)@),
        old(ret)@.len() <= start_idx,
        forall|i: int| 0 <= i < start_idx ==> #[trigger] absorbed(ranges@, i, old(ret)@),
        forall|k: int|
            0 <= k < old(ret)@.len() ==> #[trigger] endpoints_from(
                old(ret)@,
                k,
                ranges@,
                start_idx as int,
            ),
        windows_closed(old(ret)@, coalesce as int, max_range_size as int),
        old(ret)@.len() > 0 ==> window_closed(
            old(ret)@.last(),
            ranges@[start_idx as int].start as int,
            coalesce as int,
            max_range_size as int,
        ),
        forall|p: int|
            #[trigger] covers(old(ret)@, p) ==> covers_prefix(ranges@, start_idx as int, p)
                || bridged(ranges@, 0, start_idx as int, p, coalesce as int),
    ensures
        final(ret)@ == old(ret)@.push(ranges@[start_idx as int].start..range_end),
        final(ret)@.len() == old(ret)@.len() + 1,
        final(ret)@.last() == (ranges@[start_idx as int].start..range_end),
        sorted_by_start(final(ret)@),
        ranges_well_formed(final(ret)@),
        forall|i: int| 0 <= i < end_idx ==> #[trigger] absorbed(ranges@, i, final(ret)@),
        forall|k: int|
            0 <= k < final(ret)@.len() ==> #[trigger] endpoints_from(
                final(ret)@,
                k,
                ranges@,
                end_idx as int,
            ),
        windows_closed(final(ret)@, coalesce as int, max_range_size as int),
        forall|p: int|
            #[trigger] covers(final(ret)@, p) ==> covers_prefix(ranges@, end_idx as int, p)
                || bridged(ranges@, 0, end_idx as int, p, coalesce as int),
{
    let w_start = ranges[start_idx].start;
    let ghost ret0 = ret@;
    let ghost w = (w_start..range_end);
    ret.push(w_start..range_end);
    proof {
        assert(ret@ == ret0.push(w));
        lemma_emit_window(
            ranges@,
            ret0,
            w,
            start_idx as int,
            end_idx as int,
            coalesce as int,
            max_range_size as int,
        );
        lemma_emit_cover(
            ranges@,
            ret0,
            w,
            start_idx as int,
            end_idx as int,
            coalesce as int,
        );
    }
}

/// Coalesces an already sorted list of well-formed ranges.
#[verifier::spinoff_prover]
fn merge_sorted(ranges: &Vec<Range<usize>>, coalesce: usize, max_range_size: usize) -> (ret: Vec<
    Range<usize>,
>)
    requires
        sorted_by_start(ranges@),
        forall|i: int| 0 <= i < ranges@.len() ==> (#[trigger] ranges@[i]).start <= ranges@[i].end,
        ranges@.len() > 0,
    ensures
        merged_from(ranges@, ret@, coalesce as int, max_range_size as int),
        ret@ == greedy_merge(ranges@, coalesce as int, max_range_size as int),
{
    let ghost sorted = ranges@;
    let ghost n = sorted.len() as int;
    let ghost gap = coalesce as int;
    let ghost max_span = max_range_size as int;
    let len = ranges.len();
    let mut ret: Vec<Range<usize>> = Vec::with_capacity(len);
    let mut start_idx: usize = 0;
    proof {
        assert(ret@ + greedy_from(sorted, 0, gap, max_span) =~= greedy_merge(
            sorted,
            gap,
            max_span,
        ));
    }

    while start_idx != len
        invariant
            ranges@ == sorted,
            sorted_by_start(sorted),
            forall|i: int| 0 <= i < n ==> (#[trigger] sorted[i]).start <= sorted[i].end,
            n == sorted.len(),
            len == n,
            n > 0,
            start_idx <= n,
            sorted_by_start(ret@),
            ranges_well_formed(ret@),
            ret@.len() <= start_idx,
            start_idx > 0 ==> ret@.len() > 0,
            forall|i: int| 0 <= i < start_idx ==> #[trigger] absorbed(sorted, i, ret@),
            forall|k: int|
                0 <= k < ret@.len() ==> #[trigger] endpoints_from(ret@, k, sorted, start_idx as int),
            windows_closed(ret@, coalesce as int, max_range_size as int),
            ret@.len() > 0 && start_idx < n ==> window_closed(
                ret@.last(),
                sorted[start_idx as int].start as int,
                coalesce as int,
                max_range_size as int,
            ),
            forall|p: int|
                #[trigger] covers(ret@, p) ==> covers_prefix(sorted, start_idx as int, p)
                    || bridged(sorted, 0, start_idx as int, p, gap),
            gap == coalesce as int,
            max_span == max_range_size as int,
            ret@ + greedy_from(sorted, start_idx as int, gap, max_span) == greedy_merge(
                sorted,
                gap,
                max_span,
            ),
        decreases n - start_idx,
    {
        let ghost k0 = start_idx as int;
        let ghost ret0 = ret@;
        let (end_idx, range_end) = grow_window(ranges, start_idx, coalesce, max_range_size);
        emit_window(&mut ret, ranges, start_idx, end_idx, range_end, coalesce, max_range_size);
        proof {
            // the emitted window is the one the greedy description emits
            let grown = grow_spec(sorted, k0, k0 + 1, sorted[k0].end as int, gap, max_span);
            assert(grown == (end_idx as int, range_end as int));
            assert((grown.1 as usize) == range_end);
            assert(greedy_from(sorted, k0, gap, max_span) == seq![
                (sorted[k0].start..range_end),
            ] + greedy_from(sorted, end_idx as int, gap, max_span));
            assert(ret@ + greedy_from(sorted, end_idx as int, gap, max_span) =~= ret0 + (seq![
                (sorted[k0].start..range_end),
            ] + greedy_from(sorted, end_idx as int, gap, max_span)));
            assert(ret@ + greedy_from(sorted, end_idx as int, gap, max_span) == greedy_merge(
                sorted,
                gap,
                max_span,
            ));
        }
        start_idx = end_idx;
    }
    proof {
        reveal(merged_from);
        assert(greedy_from(sorted, n, gap, max_span) == Seq::<Range<usize>>::empty());
        assert(ret@ =~= ret@ + greedy_from(sorted, n, gap, max_span));
    }
    ret
}

/// Copies the borrowed ranges into an owned vector.
#[verifier::spinoff_prover]
fn to_owned_ranges(raw_ranges: &[Range<usize>]) -> (v: Vec<Range<usize>>)
    ensures
        v@ == raw_ranges@,
{
    let mut v: Vec<Range<usize>> = Vec::new();
    let mut ci: usize = 0;
    while ci < raw_ranges.len()
        invariant
            ci <= raw_ranges@.len(),
            v@ =~= raw_ranges@.subrange(0, ci as int),
        decreases raw_ranges@.len() - ci,
    {
        let r = &raw_ranges[ci];
        v.push(r.start..r.end);
        proof {
            assert(raw_ranges@.subrange(0, ci + 1) =~= raw_ranges@.subrange(0, ci as int).push(
                raw_ranges@[ci as int],
            ));
        }
        ci = ci + 1;
    }
    proof {
        assert(v@ =~= raw_ranges@);
    }
    v
}

/// Returns a sorted list of coalesced ranges that covers `raw_ranges`.
///
/// Ranges are first ordered by start. A window then grows greedily: the next
/// range is absorbed while the gap in front of it is at most `coalesce` (any
/// overlapping or adjacent range is always absorbed) and the window's span so
/// far is still within `max_range_size`. When a range fails either test the
/// window is emitted and a new one starts at that range. A single range wider
/// than `max_range_size` is never split.
///
/// The result always covers every input byte, and every byte beyond the
/// input lies in a bridged gap of at most `coalesce` bytes; with a zero gap
/// the result covers exactly the input bytes. Emitted windows are ordered by
/// start and a window within the span cap never overlaps its successor; only
/// an individually oversized window may. The output is pinned to
/// `greedy_merge` over a start-ordered permutation of the input; when no two
/// inputs share a start, that permutation — and so the output — is unique
/// (`lemma_sorted_permutation_unique`).
#[verifier::spinoff_prover]
#[verifier::rlimit(40)]
pub fn merge_ranges(raw_ranges: &[Range<usize>], coalesce: usize, max_range_size: usize) -> (ret:
    Vec<Range<usize>>)
    requires
        ranges_well_formed(raw_ranges@),
    ensures
        raw_ranges@.len() == 0 ==> ret@.len() == 0,
        raw_ranges@.len() > 0 ==> ret@.len() > 0,
        ret@.len() <= raw_ranges@.len(),
        raw_ranges@.len() == 1 ==> ret@ == raw_ranges@,
        sorted_by_start(ret@),
        ranges_well_formed(ret@),
        // every input range lies within one output window
        input_contained(raw_ranges@, ret@),
        // so every input byte is covered by the output
        coverage_preserved(raw_ranges@, ret@),
        // with no gap allowance the output covers exactly the input bytes
        coalesce == 0 ==> coverage_preserved(ret@, raw_ranges@),
        // both endpoints of every window come from input ranges
        endpoints_realized(ret@, raw_ranges@),
        // consecutive windows cannot be merged further: the earlier one is
        // oversized, or the gap between them exceeds `coalesce`
        windows_closed(ret@, coalesce as int, max_range_size as int),
        // every output byte is an input byte or lies in a gap of at most
        // `coalesce` bytes bridged between two input ranges
        forall|p: int|
            covers(ret@, p) ==> covers(raw_ranges@, p) || gap_bridged(
                raw_ranges@,
                p,
                coalesce as int,
            ),
        // the output is exactly the greedy merge of the inputs ordered by
        // start; ties among equal starts leave the order within them open
        raw_ranges@.len() > 0 ==> exists|s: Seq<Range<usize>>|
            sorted_by_start(s) && #[trigger] s.to_multiset() == raw_ranges@.to_multiset() && ret@
                == greedy_merge(s, coalesce as int, max_range_size as int),
{
    if raw_ranges.is_empty() {
        return Vec::new();
    }

    let ranges = to_owned_ranges(raw_ranges);
    let ranges = sort_by_start(ranges);
    let ghost sorted = ranges@;
    let ghost n = sorted.len() as int;

    proof {
        assert forall|i: int| 0 <= i < n implies (#[trigger] sorted[i]).start <= sorted[i].end by {
            assert(sorted.contains(sorted[i]));
        }
    }

    let ret = merge_sorted(&ranges, coalesce, max_range_size);
    proof {
        let gap = coalesce as int;
        let max_span = max_range_size as int;
        lemma_finish_basic(sorted, ret@, gap, max_span);
        lemma_finish_absorbed(raw_ranges@, sorted, ret@, gap, max_span);
        lemma_finish_covers(raw_ranges@, ret@);
        lemma_finish_bridged(raw_ranges@, sorted, ret@, gap, max_span);
        assert(sorted_by_start(sorted) && sorted.to_multiset() == raw_ranges@.to_multiset()
            && ret@ == greedy_merge(sorted, gap, max_span));
        if coalesce == 0 {
            lemma_finish_exact(raw_ranges@, sorted, ret@, gap, max_span);
        }
        lemma_finish_endpoints(raw_ranges@, sorted, ret@, gap, max_span);
        if raw_ranges@.len() == 1 {
            lemma_finish_singleton(raw_ranges@, sorted, ret@, gap, max_span);
        }
    }
    ret
}

} // verus!
