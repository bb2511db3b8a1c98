//! Why a patch whose edits do not overlap can be applied: what ordering and joining
//! the edits keeps.

use crate::upgrader::{
    applied, disjoint, inserted_len, key_le, merged, ordered, pairwise_disjoint, patched, placed,
    replaced, sorted_disjoint, well_formed, within, Indel,
};
use vstd::prelude::*;
use vstd::utf8::is_char_boundary;

verus! {

/// Every edit of the sequence has the property.
pub open spec fn all(s: Seq<Indel>, p: spec_fn(Indel) -> bool) -> bool {
    forall|i: int| 0 <= i < s.len() ==> p(#[trigger] s[i])
}

/// The edits stand in the order of their spans.
pub open spec fn key_sorted(s: Seq<Indel>) -> bool {
    forall|i: int, j: int| 0 <= i < j < s.len() ==> key_le(#[trigger] s[i], #[trigger] s[j])
}

/// Putting an edit in its place adds one edit and keeps what holds of all.
pub proof fn placed_keeps(s: Seq<Indel>, x: Indel, p: spec_fn(Indel) -> bool)
    requires
        all(s, p),
        p(x),
    ensures
        all(placed(s, x), p),
        placed(s, x).len() == s.len() + 1,
        inserted_len(placed(s, x)) == inserted_len(s) + x.insert.len(),
    decreases s.len(),
{
    if s.len() == 0 || key_le(s.last(), x) {
        assert(s.push(x).drop_last() =~= s);
    } else {
        let front = s.drop_last();
        assert forall|i: int| 0 <= i < front.len() implies p(#[trigger] front[i]) by {
            assert(front[i] == s[i]);
        }
        placed_keeps(front, x, p);
        let r = placed(front, x).push(s.last());
        assert(r.drop_last() =~= placed(front, x));
        assert forall|i: int| 0 <= i < r.len() implies p(#[trigger] r[i]) by {
            if i < r.len() - 1 {
                assert(r[i] == placed(front, x)[i]);
            } else {
                assert(r[i] == s[s.len() - 1]);
            }
        }
    }
}

/// Ordering keeps the number of edits, what they insert and what holds of all.
pub proof fn ordered_keeps(s: Seq<Indel>, p: spec_fn(Indel) -> bool)
    requires
        all(s, p),
    ensures
        all(ordered(s), p),
        ordered(s).len() == s.len(),
        inserted_len(ordered(s)) == inserted_len(s),
    decreases s.len(),
{
    if s.len() > 0 {
        let front = s.drop_last();
        assert forall|i: int| 0 <= i < front.len() implies p(#[trigger] front[i]) by {
            assert(front[i] == s[i]);
        }
        ordered_keeps(front, p);
        assert(p(s[s.len() - 1]));
        placed_keeps(ordered(front), s.last(), p);
    }
}

/// An edit put in its place among ordered edits leaves them ordered.
pub proof fn placed_is_sorted(s: Seq<Indel>, x: Indel)
    requires
        key_sorted(s),
    ensures
        key_sorted(placed(s, x)),
    decreases s.len(),
{
    if s.len() == 0 {
    } else if key_le(s.last(), x) {
        let r = s.push(x);
        assert forall|i: int, j: int| 0 <= i < j < r.len() implies key_le(
            #[trigger] r[i],
            #[trigger] r[j],
        ) by {
            if j < s.len() {
                assert(r[i] == s[i] && r[j] == s[j]);
            } else {
                assert(r[i] == s[i]);
                if i < s.len() - 1 {
                    assert(key_le(s[i], s[s.len() - 1]));
                }
            }
        }
    } else {
        let front = s.drop_last();
        let last = s.last();
        assert forall|i: int, j: int| 0 <= i < j < front.len() implies key_le(
            #[trigger] front[i],
            #[trigger] front[j],
        ) by {
            assert(front[i] == s[i] && front[j] == s[j]);
        }
        placed_is_sorted(front, x);
        let q = placed(front, x);
        let bound = |e: Indel| key_le(e, last);
        assert forall|i: int| 0 <= i < front.len() implies bound(#[trigger] front[i]) by {
            assert(front[i] == s[i]);
            assert(key_le(s[i], s[s.len() - 1]));
        }
        assert(bound(x));
        placed_keeps(front, x, bound);
        let r = q.push(last);
        assert forall|i: int, j: int| 0 <= i < j < r.len() implies key_le(
            #[trigger] r[i],
            #[trigger] r[j],
        ) by {
            if j < q.len() {
                assert(r[i] == q[i] && r[j] == q[j]);
            } else {
                assert(r[i] == q[i]);
                assert(bound(q[i]));
            }
        }
    }
}

/// The ordered edits stand in the order of their spans.
pub proof fn ordered_is_sorted(s: Seq<Indel>)
    ensures
        key_sorted(ordered(s)),
    decreases s.len(),
{
    if s.len() > 0 {
        ordered_is_sorted(s.drop_last());
        placed_is_sorted(ordered(s.drop_last()), s.last());
    }
}

/// An edit that overlaps none of the edits, put in its place, leaves them free of overlap.
pub proof fn placed_is_disjoint(s: Seq<Indel>, x: Indel)
    requires
        pairwise_disjoint(s),
        all(s, |e: Indel| disjoint(e, x)),
    ensures
        pairwise_disjoint(placed(s, x)),
    decreases s.len(),
{
    if s.len() == 0 || key_le(s.last(), x) {
        let r = s.push(x);
        assert forall|i: int, j: int| 0 <= i < j < r.len() implies disjoint(
            #[trigger] r[i],
            #[trigger] r[j],
        ) by {
            assert(r[i] == s[i]);
            if j < s.len() {
                assert(r[j] == s[j]);
            }
        }
    } else {
        let front = s.drop_last();
        let last = s.last();
        let apart = |e: Indel| disjoint(e, x);
        assert forall|i: int, j: int| 0 <= i < j < front.len() implies disjoint(
            #[trigger] front[i],
            #[trigger] front[j],
        ) by {
            assert(front[i] == s[i] && front[j] == s[j]);
        }
        assert forall|i: int| 0 <= i < front.len() implies apart(#[trigger] front[i]) by {
            assert(front[i] == s[i]);
        }
        placed_is_disjoint(front, x);
        let q = placed(front, x);
        let clear = |e: Indel| disjoint(e, last);
        assert forall|i: int| 0 <= i < front.len() implies clear(#[trigger] front[i]) by {
            assert(front[i] == s[i]);
            assert(disjoint(s[i], s[s.len() - 1]));
        }
        assert(apart(s[s.len() - 1]));
        assert(clear(x));
        placed_keeps(front, x, clear);
        let r = q.push(last);
        assert forall|i: int, j: int| 0 <= i < j < r.len() implies disjoint(
            #[trigger] r[i],
            #[trigger] r[j],
        ) by {
            assert(r[i] == q[i]);
            if j < q.len() {
                assert(r[j] == q[j]);
            } else {
                assert(clear(q[i]));
            }
        }
    }
}

/// Ordering edits that do not overlap leaves them free of overlap.
pub proof fn ordered_is_disjoint(s: Seq<Indel>)
    requires
        pairwise_disjoint(s),
    ensures
        pairwise_disjoint(ordered(s)),
    decreases s.len(),
{
    if s.len() > 0 {
        let front = s.drop_last();
        let last = s.last();
        assert forall|i: int, j: int| 0 <= i < j < front.len() implies disjoint(
            #[trigger] front[i],
            #[trigger] front[j],
        ) by {
            assert(front[i] == s[i] && front[j] == s[j]);
        }
        ordered_is_disjoint(front);
        let apart = |e: Indel| disjoint(e, last);
        assert forall|i: int| 0 <= i < front.len() implies apart(#[trigger] front[i]) by {
            assert(front[i] == s[i]);
            assert(disjoint(s[i], s[s.len() - 1]));
        }
        ordered_keeps(front, apart);
        placed_is_disjoint(ordered(front), last);
    }
}

/// Edits that run forward, stand in order and do not overlap lie one behind the other.
pub proof fn sorted_and_disjoint(s: Seq<Indel>)
    requires
        well_formed(s),
        key_sorted(s),
        pairwise_disjoint(s),
    ensures
        sorted_disjoint(s),
{
    assert forall|i: int, j: int| 0 <= i < j < s.len() implies (#[trigger] s[i]).end <= (
    #[trigger] s[j]).start by {
        assert(key_le(s[i], s[j]));
        assert(disjoint(s[i], s[j]));
        assert(0 <= s[i].start <= s[i].end);
        assert(0 <= s[j].start <= s[j].end);
    }
}

/// Edits that stand in the order of their spans are left as they are by ordering.
pub proof fn sorted_stays_ordered(s: Seq<Indel>)
    requires
        key_sorted(s),
    ensures
        ordered(s) == s,
    decreases s.len(),
{
    if s.len() > 0 {
        let front = s.drop_last();
        assert forall|i: int, j: int| 0 <= i < j < front.len() implies key_le(
            #[trigger] front[i],
            #[trigger] front[j],
        ) by {
            assert(front[i] == s[i] && front[j] == s[j]);
        }
        sorted_stays_ordered(front);
        if front.len() > 0 {
            assert(front.last() == s[s.len() - 2]);
            assert(key_le(s[s.len() - 2], s[s.len() - 1]));
        }
        assert(front.push(s.last()) =~= s);
    }
}

/// Edits that run forward and do not overlap, once ordered, lie one behind the other.
pub proof fn ordered_lies_in_order(s: Seq<Indel>)
    requires
        well_formed(s),
        pairwise_disjoint(s),
    ensures
        sorted_disjoint(ordered(s)),
{
    let forward = |e: Indel| 0 <= e.start <= e.end;
    assert forall|i: int| 0 <= i < s.len() implies forward(#[trigger] s[i]) by {}
    ordered_keeps(s, forward);
    let o = ordered(s);
    assert forall|i: int| 0 <= i < o.len() implies 0 <= (#[trigger] o[i]).start <= o[i].end by {
        assert(forward(o[i]));
    }
    ordered_is_sorted(s);
    ordered_is_disjoint(s);
    sorted_and_disjoint(o);
}

/// Joining neighbours that touch keeps edits that lie one behind the other so, keeps
/// what they insert, and keeps them within a text; the last edit ends where it did.
pub proof fn merged_keeps(s: Seq<Indel>, text: Seq<u8>)
    requires
        sorted_disjoint(s),
    ensures
        sorted_disjoint(merged(s)),
        inserted_len(merged(s)) == inserted_len(s),
        within(s, text) ==> within(merged(s), text),
        merged(s).len() == 0 <==> s.len() == 0,
        s.len() > 0 ==> merged(s).last().end == s.last().end,
    decreases s.len(),
{
    if s.len() <= 1 {
    } else {
        let front = s.drop_last();
        let b = s.last();
        assert(front.last() == s[s.len() - 2]);
        assert forall|i: int| 0 <= i < front.len() implies 0 <= (#[trigger] front[i]).start
            <= front[i].end by {
            assert(front[i] == s[i]);
        }
        assert forall|i: int, j: int| 0 <= i < j < front.len() implies (#[trigger] front[i]).end <= (
        #[trigger] front[j]).start by {
            assert(front[i] == s[i] && front[j] == s[j]);
        }
        if within(s, text) {
            assert forall|i: int| 0 <= i < front.len() implies {
                &&& 0 <= (#[trigger] front[i]).start <= front[i].end <= text.len()
                &&& is_char_boundary(text, front[i].start)
                &&& is_char_boundary(text, front[i].end)
            } by {
                assert(front[i] == s[i]);
            }
        }
        merged_keeps(front, text);
        let m = merged(front);
        let a = m.last();
        assert(a == m[m.len() - 1]);
        assert(b == s[s.len() - 1]);
        assert(s[s.len() - 2].end <= s[s.len() - 1].start);
        if a.end == b.start {
            let joined = Indel { start: a.start, end: b.end, insert: a.insert + b.insert };
            let r = m.drop_last().push(joined);
            assert(r.drop_last() =~= m.drop_last());
            assert(inserted_len(m) == inserted_len(m.drop_last()) + a.insert.len());
            assert forall|i: int| 0 <= i < r.len() implies 0 <= (#[trigger] r[i]).start <= r[i].end by {
                if i < r.len() - 1 {
                    assert(r[i] == m[i]);
                }
            }
            assert forall|i: int, j: int| 0 <= i < j < r.len() implies (#[trigger] r[i]).end <= (
            #[trigger] r[j]).start by {
                assert(r[i] == m[i]);
                if j < r.len() - 1 {
                    assert(r[j] == m[j]);
                } else {
                    assert(m[i].end <= m[m.len() - 1].start);
                }
            }
            if within(s, text) {
                assert forall|i: int| 0 <= i < r.len() implies {
                    &&& 0 <= (#[trigger] r[i]).start <= r[i].end <= text.len()
                    &&& is_char_boundary(text, r[i].start)
                    &&& is_char_boundary(text, r[i].end)
                } by {
                    if i < r.len() - 1 {
                        assert(r[i] == m[i]);
                    }
                }
            }
        } else {
            let r = m.push(b);
            assert(r.drop_last() =~= m);
            assert forall|i: int| 0 <= i < r.len() implies 0 <= (#[trigger] r[i]).start <= r[i].end by {
                if i < r.len() - 1 {
                    assert(r[i] == m[i]);
                }
            }
            assert forall|i: int, j: int| 0 <= i < j < r.len() implies (#[trigger] r[i]).end <= (
            #[trigger] r[j]).start by {
                assert(r[i] == m[i]);
                if j < r.len() - 1 {
                    assert(r[j] == m[j]);
                } else {
                    if i < m.len() - 1 {
                        assert(m[i].end <= m[m.len() - 1].start);
                    }
                }
            }
            if within(s, text) {
                assert forall|i: int| 0 <= i < r.len() implies {
                    &&& 0 <= (#[trigger] r[i]).start <= r[i].end <= text.len()
                    &&& is_char_boundary(text, r[i].start)
                    &&& is_char_boundary(text, r[i].end)
                } by {
                    if i < r.len() - 1 {
                        assert(r[i] == m[i]);
                    }
                }
            }
        }
    }
}

/// Edits of a text that do not overlap, once ordered and joined, lie one behind the
/// other within the text and insert what they inserted.
pub proof fn ordered_and_merged(s: Seq<Indel>, text: Seq<u8>)
    requires
        within(s, text),
        pairwise_disjoint(s),
    ensures
        sorted_disjoint(merged(ordered(s))),
        within(merged(ordered(s)), text),
        inserted_len(merged(ordered(s))) == inserted_len(s),
{
    let fits = |e: Indel|
        {
            &&& 0 <= e.start <= e.end <= text.len()
            &&& is_char_boundary(text, e.start)
            &&& is_char_boundary(text, e.end)
        };
    assert forall|i: int| 0 <= i < s.len() implies fits(#[trigger] s[i]) by {}
    ordered_keeps(s, fits);
    let o = ordered(s);
    assert forall|i: int| 0 <= i < o.len() implies {
        &&& 0 <= (#[trigger] o[i]).start <= o[i].end <= text.len()
        &&& is_char_boundary(text, o[i].start)
        &&& is_char_boundary(text, o[i].end)
    } by {
        assert(fits(o[i]));
    }
    ordered_is_sorted(s);
    ordered_is_disjoint(s);
    sorted_and_disjoint(o);
    merged_keeps(o, text);
}

/// The text with every span replaced at once: the stretches of the text that lie
/// outside the spans, in their order, with the inserted bytes between them.
pub open spec fn spliced(text: Seq<u8>, s: Seq<Indel>) -> Seq<u8>
    decreases s.len(),
{
    if s.len() == 0 {
        text
    } else {
        spliced(text.subrange(0, s.last().start), s.drop_last()) + s.last().insert + text.subrange(
            s.last().end,
            text.len() as int,
        )
    }
}

/// Every span ends within the first `len` bytes.
pub open spec fn ends_by(s: Seq<Indel>, len: int) -> bool {
    forall|i: int| 0 <= i < s.len() ==> (#[trigger] s[i]).end <= len
}

/// Each edit ends before the next starts, with at least one byte between them.
pub open spec fn separated(s: Seq<Indel>) -> bool {
    &&& well_formed(s)
    &&& forall|i: int, j: int| 0 <= i < j < s.len() ==> (#[trigger] s[i]).end < (#[trigger] s[j]).start
}

/// Edits made from the back, each at its span of the text as it was, replace every span
/// at once: what lies outside the spans is what it was.
pub proof fn applied_is_spliced(text: Seq<u8>, s: Seq<Indel>)
    requires
        sorted_disjoint(s),
        ends_by(s, text.len() as int),
    ensures
        applied(text, s) == spliced(text, s),
    decreases s.len(),
{
    if s.len() > 0 {
        let front = s.drop_last();
        let last = s.last();
        assert(last == s[s.len() - 1]);
        let head = text.subrange(0, last.start);
        let rest = last.insert + text.subrange(last.end, text.len() as int);
        let next = replaced(text, last);
        assert(next =~= head + rest);
        assert forall|i: int| 0 <= i < front.len() implies 0 <= (#[trigger] front[i]).start
            <= front[i].end by {
            assert(front[i] == s[i]);
        }
        assert forall|i: int, j: int| 0 <= i < j < front.len() implies (#[trigger] front[i]).end <= (
        #[trigger] front[j]).start by {
            assert(front[i] == s[i] && front[j] == s[j]);
        }
        assert forall|i: int| 0 <= i < front.len() implies (#[trigger] front[i]).end
            <= head.len() by {
            assert(front[i] == s[i]);
            assert(s[i].end <= s[s.len() - 1].start);
        }
        assert(ends_by(front, next.len() as int));
        applied_is_spliced(next, front);
        if front.len() > 0 {
            let f = front.last();
            assert(f == front[front.len() - 1]);
            assert((head + rest).subrange(0, f.start) =~= head.subrange(0, f.start));
            assert((head + rest).subrange(f.end, (head + rest).len() as int) =~= head.subrange(
                f.end,
                head.len() as int,
            ) + rest);
            assert(spliced(head + rest, front) =~= spliced(head, front) + rest);
        }
        assert(spliced(text, s) =~= spliced(head, front) + rest);
    }
}

/// A patch whose edits lie in the text and do not overlap replaces every span at once.
pub proof fn patched_is_spliced(text: Seq<u8>, s: Seq<Indel>)
    requires
        within(s, text),
        pairwise_disjoint(s),
    ensures
        patched(text, s) == spliced(text, merged(ordered(s))),
{
    ordered_and_merged(s, text);
    applied_is_spliced(text, merged(ordered(s)));
}

/// Edits that were recorded in the order of their spans, none touching the next, are
/// neither moved nor joined.
pub proof fn separated_stays(s: Seq<Indel>)
    requires
        separated(s),
    ensures
        ordered(s) == s,
        merged(s) == s,
    decreases s.len(),
{
    if s.len() > 0 {
        let front = s.drop_last();
        assert forall|i: int| 0 <= i < front.len() implies 0 <= (#[trigger] front[i]).start
            <= front[i].end by {
            assert(front[i] == s[i]);
        }
        assert forall|i: int, j: int| 0 <= i < j < front.len() implies (#[trigger] front[i]).end < (
        #[trigger] front[j]).start by {
            assert(front[i] == s[i] && front[j] == s[j]);
        }
        separated_stays(front);
        if front.len() > 0 {
            assert(front.last() == s[s.len() - 2]);
            assert(s[s.len() - 2].end < s[s.len() - 1].start);
            assert(0 <= s[s.len() - 2].start <= s[s.len() - 2].end);
        }
        assert(front.push(s.last()) =~= s);
    }
}

/// With edits recorded in order and apart, the patched text is the text with exactly
/// the spans replaced: no byte outside a span changes.
pub proof fn separated_patch_changes_spans_only(text: Seq<u8>, s: Seq<Indel>)
    requires
        separated(s),
        ends_by(s, text.len() as int),
    ensures
        patched(text, s) == spliced(text, s),
{
    separated_stays(s);
    assert(sorted_disjoint(s));
    applied_is_spliced(text, s);
}

/// What lies before the first span and what lies behind the last is kept as it is.
pub proof fn spliced_keeps_both_ends(text: Seq<u8>, s: Seq<Indel>)
    requires
        sorted_disjoint(s),
        ends_by(s, text.len() as int),
        s.len() > 0,
    ensures
        spliced(text, s).len() >= s[0].start + (text.len() - s.last().end),
        spliced(text, s).subrange(0, s[0].start) == text.subrange(0, s[0].start),
        spliced(text, s).subrange(
            spliced(text, s).len() - (text.len() - s.last().end),
            spliced(text, s).len() as int,
        ) == text.subrange(s.last().end, text.len() as int),
    decreases s.len(),
{
    let front = s.drop_last();
    let last = s.last();
    assert(last == s[s.len() - 1]);
    assert(0 <= last.start <= last.end);
    let head = text.subrange(0, last.start);
    let tail = text.subrange(last.end, text.len() as int);
    let result = spliced(text, s);
    assert(result == spliced(head, front) + last.insert + tail);
    if front.len() == 0 {
        assert(spliced(head, front) == head);
        assert(result.subrange(0, s[0].start) =~= text.subrange(0, s[0].start));
        assert(result.subrange(result.len() - tail.len(), result.len() as int) =~= tail);
    } else {
        assert forall|i: int| 0 <= i < front.len() implies 0 <= (#[trigger] front[i]).start
            <= front[i].end by {
            assert(front[i] == s[i]);
        }
        assert forall|i: int, j: int| 0 <= i < j < front.len() implies (#[trigger] front[i]).end <= (
        #[trigger] front[j]).start by {
            assert(front[i] == s[i] && front[j] == s[j]);
        }
        assert forall|i: int| 0 <= i < front.len() implies (#[trigger] front[i]).end
            <= head.len() by {
            assert(front[i] == s[i]);
            assert(s[i].end <= s[s.len() - 1].start);
        }
        spliced_keeps_both_ends(head, front);
        assert(front[0] == s[0]);
        let inner = spliced(head, front);
        assert(result.subrange(0, s[0].start) =~= inner.subrange(0, s[0].start));
        assert(head.subrange(0, s[0].start) =~= text.subrange(0, s[0].start));
        assert(result.subrange(result.len() - tail.len(), result.len() as int) =~= tail);
    }
}

/// The number of bytes that the edits take away, all together.
pub open spec fn removed_len(s: Seq<Indel>) -> int
    decreases s.len(),
{
    if s.len() == 0 {
        0
    } else {
        removed_len(s.drop_last()) + (s.last().end - s.last().start)
    }
}

/// The text with its spans replaced is as long as the text, less what the spans held,
/// more what was put there.
pub proof fn spliced_has_its_length(text: Seq<u8>, s: Seq<Indel>)
    requires
        sorted_disjoint(s),
        ends_by(s, text.len() as int),
    ensures
        spliced(text, s).len() == text.len() + inserted_len(s) - removed_len(s),
    decreases s.len(),
{
    if s.len() > 0 {
        let front = s.drop_last();
        let last = s.last();
        assert(last == s[s.len() - 1]);
        assert(0 <= last.start <= last.end <= text.len());
        let head = text.subrange(0, last.start);
        assert forall|i: int| 0 <= i < front.len() implies 0 <= (#[trigger] front[i]).start
            <= front[i].end by {
            assert(front[i] == s[i]);
        }
        assert forall|i: int, j: int| 0 <= i < j < front.len() implies (#[trigger] front[i]).end <= (
        #[trigger] front[j]).start by {
            assert(front[i] == s[i] && front[j] == s[j]);
        }
        assert forall|i: int| 0 <= i < front.len() implies (#[trigger] front[i]).end
            <= head.len() by {
            assert(front[i] == s[i]);
            assert(s[i].end <= s[s.len() - 1].start);
        }
        spliced_has_its_length(head, front);
    }
}

/// A patch of edits recorded in order and apart changes the length of the text by what
/// it inserts less what its spans held. Two renames that each put a name one byte
/// shorter in the place of an identifier leave the text two bytes shorter.
pub proof fn separated_patch_has_its_length(text: Seq<u8>, s: Seq<Indel>)
    requires
        separated(s),
        ends_by(s, text.len() as int),
    ensures
        patched(text, s).len() == text.len() + inserted_len(s) - removed_len(s),
{
    separated_patch_changes_spans_only(text, s);
    assert(sorted_disjoint(s));
    spliced_has_its_length(text, s);
}

/// Two renames, recorded in order and apart, that each put a name one byte shorter in
/// the place of an identifier leave the text two bytes shorter.
pub proof fn two_shorter_names_take_two_bytes(text: Seq<u8>, a: Indel, b: Indel)
    requires
        0 <= a.start <= a.end < b.start <= b.end <= text.len(),
        a.insert.len() == a.end - a.start - 1,
        b.insert.len() == b.end - b.start - 1,
    ensures
        patched(text, seq![a, b]).len() == text.len() - 2,
{
    let s = seq![a, b];
    assert(s.drop_last() =~= seq![a]);
    assert(seq![a].drop_last() =~= Seq::<Indel>::empty());
    assert(s.last() == b && seq![a].last() == a);
    reveal_with_fuel(inserted_len, 3);
    reveal_with_fuel(removed_len, 3);
    assert(inserted_len(s) == a.insert.len() + b.insert.len());
    assert(removed_len(s) == (a.end - a.start) + (b.end - b.start));
    separated_patch_has_its_length(text, s);
}

} // verus!
