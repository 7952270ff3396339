//! Edits to a text buffer that are located by byte offset.
//!
//! Every range of a batch is measured against the buffer as it stands before the batch
//! is applied. The batch is applied from the end of the buffer towards its start, so that
//! an edit never moves the bytes that a later one refers to.

use vstd::multiset::*;
use vstd::prelude::*;
use vstd::seq_lib::*;
use vstd::utf8::*;

verus! {

/// One edit: the bytes from `start` up to `end` give way to `replacement`.
#[derive(Debug)]
pub struct Edit {
    /// The offset of the first byte that is replaced.
    pub start: usize,
    /// The offset behind the last byte that is replaced.
    pub end: usize,
    /// The text that takes the place of the range.
    pub replacement: String,
}

/// An edit over bytes.
pub struct Splice {
    pub start: int,
    pub end: int,
    pub with: Seq<u8>,
}

impl View for Edit {
    type V = Splice;

    open spec fn view(&self) -> Splice {
        Splice {
            start: self.start as int,
            end: self.end as int,
            with: encode_utf8(self.replacement@),
        }
    }
}

impl Edit {
    /// An edit that replaces the bytes from `start` up to `end` with `replacement`.
    pub fn new(start: usize, end: usize, replacement: String) -> (r: Edit)
        ensures
            r.start == start,
            r.end == end,
            r.replacement == replacement,
    {
        Edit { start, end, replacement }
    }
}

/// The edits of `edits` over bytes.
pub open spec fn splices(edits: Seq<Edit>) -> Seq<Splice> {
    Seq::new(edits.len(), |i: int| edits[i]@)
}

/// `buf` after the one edit `e`.
pub open spec fn splice(buf: Seq<u8>, e: Splice) -> Seq<u8> {
    buf.subrange(0, e.start) + e.with + buf.subrange(e.end, buf.len() as int)
}

/// `buf` after the edits of `order`, one at a time, the first of them first.
pub open spec fn apply_in_order(buf: Seq<u8>, order: Seq<Splice>) -> Seq<u8>
    decreases order.len(),
{
    if order.len() == 0 {
        buf
    } else {
        apply_in_order(splice(buf, order[0]), order.drop_first())
    }
}

/// `sorted` with `e` behind the last edit that starts at or after the start of `e`.
pub open spec fn insert_descending(sorted: Seq<Splice>, e: Splice) -> Seq<Splice>
    decreases sorted.len(),
{
    if sorted.len() == 0 {
        seq![e]
    } else if sorted.last().start >= e.start {
        sorted.push(e)
    } else {
        insert_descending(sorted.drop_last(), e).push(sorted.last())
    }
}

/// `edits` by descending start; edits with one start keep the order they came in.
pub open spec fn sort_descending(edits: Seq<Splice>) -> Seq<Splice>
    decreases edits.len(),
{
    if edits.len() == 0 {
        Seq::empty()
    } else {
        insert_descending(sort_descending(edits.drop_last()), edits.last())
    }
}

/// Every edit of `order` lies inside a buffer of `len` bytes.
pub open spec fn within(len: int, order: Seq<Splice>) -> bool {
    forall|i: int| 0 <= i < order.len() ==> 0 <= (#[trigger] order[i]).start <= order[i].end <= len
}

/// Every edit of `order` ends where an earlier one of `order` starts, or before.
pub open spec fn separated(order: Seq<Splice>) -> bool {
    forall|i: int, j: int|
        0 <= i < j < order.len() ==> (#[trigger] order[j]).end <= (#[trigger] order[i]).start
}

/// Every edit of `order` starts and ends between two characters of `buf`.
pub open spec fn on_boundaries(buf: Seq<u8>, order: Seq<Splice>) -> bool {
    forall|i: int|
        0 <= i < order.len() ==> is_char_boundary(buf, (#[trigger] order[i]).start)
            && is_char_boundary(buf, order[i].end)
}

/// No two edits of `edits` start at one offset.
pub open spec fn distinct_starts(edits: Seq<Splice>) -> bool {
    forall|i: int, j: int|
        0 <= i < j < edits.len() ==> (#[trigger] edits[i]).start != (#[trigger] edits[j]).start
}

/// No two edits of `edits` share a byte: of any two, one ends where the other starts, or
/// before.
pub open spec fn non_overlapping(edits: Seq<Splice>) -> bool {
    forall|i: int, j: int|
        0 <= i < edits.len() && 0 <= j < edits.len() && i != j ==> (#[trigger] edits[i]).end
            <= (#[trigger] edits[j]).start || edits[j].end <= edits[i].start
}

/// The batch `edits` can be applied to `buf`: taken from the end of the buffer towards
/// its start, each edit lies inside the buffer, between characters, and ahead of those
/// taken before it.
pub open spec fn applicable(buf: Seq<u8>, edits: Seq<Splice>) -> bool {
    let order = sort_descending(edits);
    &&& within(buf.len() as int, order)
    &&& on_boundaries(buf, order)
    &&& separated(order)
}

/// What a batch of edits makes of `buf`.
pub open spec fn edited(buf: Seq<u8>, edits: Seq<Splice>) -> Seq<u8> {
    apply_in_order(buf, sort_descending(edits))
}

/// `buf` from offset `from` on, with each range of `order` replaced at once. `order`
/// descends, so its last edit is the one nearest to `from`.
pub open spec fn stitched(buf: Seq<u8>, order: Seq<Splice>, from: int) -> Seq<u8>
    decreases order.len(),
{
    if order.len() == 0 {
        buf.subrange(from, buf.len() as int)
    } else {
        let e = order.last();
        buf.subrange(from, e.start) + e.with + stitched(buf, order.drop_last(), e.end)
    }
}

proof fn lemma_insert_at(sorted: Seq<Splice>, e: Splice, p: int)
    requires
        0 <= p <= sorted.len(),
        forall|k: int| p <= k < sorted.len() ==> (#[trigger] sorted[k]).start < e.start,
        p > 0 ==> sorted[p - 1].start >= e.start,
    ensures
        insert_descending(sorted, e) == sorted.insert(p, e),
    decreases sorted.len(),
{
    if sorted.len() == 0 {
        assert(sorted.insert(p, e) =~= seq![e]);
    } else if p == sorted.len() {
        assert(sorted.insert(p, e) =~= sorted.push(e));
    } else {
        assert(sorted.last() == sorted[sorted.len() - 1]);
        let front = sorted.drop_last();
        assert forall|k: int| p <= k < front.len() implies (#[trigger] front[k]).start
            < e.start by {
            assert(front[k] == sorted[k]);
        }
        if p > 0 {
            assert(front[p - 1] == sorted[p - 1]);
        }
        lemma_insert_at(front, e, p);
        assert(front.insert(p, e).push(sorted.last()) =~= sorted.insert(p, e));
    }
}

/// The edits of `edits` at the places that `idx` names, in the order of `idx`.
pub open spec fn picked(edits: Seq<Edit>, idx: Seq<usize>) -> Seq<Splice> {
    Seq::new(idx.len(), |k: int| edits[idx[k] as int]@)
}

/// The places of `edits` in the order in which the batch is applied.
fn descending_order(edits: &Vec<Edit>) -> (idx: Vec<usize>)
    ensures
        idx@.len() == edits@.len(),
        forall|k: int| 0 <= k < idx@.len() ==> (#[trigger] idx@[k]) < edits@.len(),
        picked(edits@, idx@) == sort_descending(splices(edits@)),
{
    let mut idx: Vec<usize> = Vec::new();
    let mut i: usize = 0;
    assert(picked(edits@, idx@) =~= sort_descending(splices(edits@).take(0)));
    while i < edits.len()
        invariant
            i <= edits.len(),
            idx@.len() == i,
            forall|k: int| 0 <= k < idx@.len() ==> (#[trigger] idx@[k]) < edits@.len(),
            picked(edits@, idx@) == sort_descending(splices(edits@).take(i as int)),
        decreases edits.len() - i,
    {
        let start = edits[i].start;
        let ghost sorted = picked(edits@, idx@);
        let mut p: usize = idx.len();
        while p > 0 && edits[idx[p - 1]].start < start
            invariant
                p <= idx@.len(),
                i < edits.len(),
                sorted == picked(edits@, idx@),
                forall|k: int| 0 <= k < idx@.len() ==> (#[trigger] idx@[k]) < edits@.len(),
                forall|k: int| p <= k < sorted.len() ==> (#[trigger] sorted[k]).start < start,
            decreases p,
        {
            assert(sorted[p - 1] == edits@[idx@[p - 1] as int]@);
            p -= 1;
        }
        proof {
            if p > 0 {
                assert(sorted[p - 1] == edits@[idx@[p - 1] as int]@);
            }
            lemma_insert_at(sorted, edits@[i as int]@, p as int);
            let taken = splices(edits@).take(i + 1);
            assert(taken.drop_last() =~= splices(edits@).take(i as int));
            assert(taken.last() == edits@[i as int]@);
        }
        idx.insert(p, i);
        assert(picked(edits@, idx@) =~= sorted.insert(p as int, edits@[i as int]@));
        i += 1;
    }
    assert(splices(edits@).take(edits@.len() as int) =~= splices(edits@));
    idx
}

proof fn lemma_boundary_carries(old_buf: Seq<u8>, cur: Seq<u8>, bound: int, at: int)
    requires
        valid_utf8(old_buf),
        valid_utf8(cur),
        0 <= at <= bound,
        bound <= old_buf.len(),
        bound <= cur.len(),
        cur.subrange(0, bound) == old_buf.subrange(0, bound),
        is_char_boundary(cur, bound),
        is_char_boundary(old_buf, at),
    ensures
        is_char_boundary(cur, at),
{
    if at < bound && at > 0 {
        is_char_boundary_iff_not_is_continuation_byte(old_buf, at);
        is_char_boundary_iff_not_is_continuation_byte(cur, at);
        assert(cur.subrange(0, bound)[at] == cur[at]);
        assert(old_buf.subrange(0, bound)[at] == old_buf[at]);
    }
}

proof fn lemma_boundary_behind_splice(cur: Seq<u8>, e: Splice)
    requires
        valid_utf8(cur),
        valid_utf8(e.with),
        0 <= e.start <= e.end <= cur.len(),
        is_char_boundary(cur, e.start),
        is_char_boundary(cur, e.end),
    ensures
        valid_utf8(splice(cur, e)),
        is_char_boundary(splice(cur, e), e.start),
{
    let head = cur.subrange(0, e.start);
    let rest = cur.subrange(e.end, cur.len() as int);
    let tail = e.with + rest;
    let whole = splice(cur, e);
    valid_utf8_split(cur, e.start);
    valid_utf8_split(cur, e.end);
    valid_utf8_concat(e.with, rest);
    valid_utf8_concat(head, tail);
    assert(whole =~= head + tail);
    if e.start == whole.len() {
        is_char_boundary_start_end_of_seq(whole);
    } else if e.start > 0 {
        is_char_boundary_iff_not_is_continuation_byte(tail, 0);
        is_char_boundary_iff_not_is_continuation_byte(whole, e.start);
        assert(whole[e.start] == tail[0]);
    }
}

/// Applies the batch `edits` to `buffer`: the edits are taken by descending start, and
/// each replaces its range of the buffer as the edits before it have left it.
pub fn apply(buffer: &mut String, edits: &Vec<Edit>)
    requires
        applicable(encode_utf8(old(buffer)@), splices(edits@)),
    ensures
        encode_utf8(final(buffer)@) == edited(encode_utf8(old(buffer)@), splices(edits@)),
{
    let idx = descending_order(edits);
    let ghost old_buf = encode_utf8(buffer@);
    let ghost order = sort_descending(splices(edits@));
    let ghost mut bound: int = old_buf.len() as int;
    let mut k: usize = 0;
    proof {
        encode_utf8_valid_utf8(buffer@);
        is_char_boundary_start_end_of_seq(old_buf);
        assert(order.skip(0) =~= order);
    }
    while k < idx.len()
        invariant
            k <= idx@.len(),
            idx@.len() == edits@.len(),
            forall|m: int| 0 <= m < idx@.len() ==> (#[trigger] idx@[m]) < edits@.len(),
            order == picked(edits@, idx@),
            within(old_buf.len() as int, order),
            on_boundaries(old_buf, order),
            separated(order),
            valid_utf8(old_buf),
            0 <= bound <= old_buf.len(),
            bound <= encode_utf8(buffer@).len(),
            k == 0 ==> bound == old_buf.len(),
            k > 0 ==> bound == order[k - 1].start,
            encode_utf8(buffer@).subrange(0, bound) == old_buf.subrange(0, bound),
            is_char_boundary(encode_utf8(buffer@), bound),
            apply_in_order(encode_utf8(buffer@), order.skip(k as int)) == apply_in_order(
                old_buf,
                order,
            ),
        decreases idx@.len() - k,
    {
        let edit = &edits[idx[k]];
        let ghost cur = encode_utf8(buffer@);
        let ghost e = order[k as int];
        proof {
            assert(e == edit@);
            encode_utf8_valid_utf8(buffer@);
            encode_utf8_valid_utf8(edit.replacement@);
            assert(0 <= order[k as int].start <= order[k as int].end <= old_buf.len());
            if k > 0 {
                assert(order[k as int].end <= order[k - 1].start);
            }
            lemma_boundary_carries(old_buf, cur, bound, e.start);
            lemma_boundary_carries(old_buf, cur, bound, e.end);
            lemma_boundary_behind_splice(cur, e);
            assert(order.skip(k as int)[0] == e);
            assert(order.skip(k as int).drop_first() =~= order.skip(k + 1));
            assert(splice(cur, e).subrange(0, e.start) =~= old_buf.subrange(0, e.start)) by {
                assert(cur.subrange(0, bound).subrange(0, e.start) =~= cur.subrange(0, e.start));
                assert(old_buf.subrange(0, bound).subrange(0, e.start) =~= old_buf.subrange(
                    0,
                    e.start,
                ));
            }
        }
        crate::outside::replace_range(buffer, edit.start, edit.end, edit.replacement.as_str());
        proof {
            bound = e.start;
        }
        k += 1;
    }
    assert(order.skip(idx@.len() as int) =~= Seq::<Splice>::empty());
}

proof fn lemma_boundary_inside(bytes: Seq<u8>, at: int)
    requires
        valid_utf8(bytes),
        is_char_boundary(bytes, at),
    ensures
        0 <= at <= bytes.len(),
    decreases bytes.len(),
{
    if at != 0 && 0 < at && at <= bytes.len() {
    } else if at != 0 {
        reveal_with_fuel(is_char_boundary, 2);
    }
}

/// Whether the batch `edits` can be applied to `buffer`.
pub fn can_apply(buffer: &str, edits: &Vec<Edit>) -> (r: bool)
    ensures
        r == applicable(encode_utf8(buffer@), splices(edits@)),
{
    let idx = descending_order(edits);
    let ghost bytes = encode_utf8(buffer@);
    let ghost order = sort_descending(splices(edits@));
    proof {
        encode_utf8_valid_utf8(buffer@);
    }
    let mut k: usize = 0;
    while k < idx.len()
        invariant
            k <= idx@.len(),
            idx@.len() == edits@.len(),
            forall|m: int| 0 <= m < idx@.len() ==> (#[trigger] idx@[m]) < edits@.len(),
            order == picked(edits@, idx@),
            order == sort_descending(splices(edits@)),
            bytes == encode_utf8(buffer@),
            valid_utf8(bytes),
            within(bytes.len() as int, order.take(k as int)),
            on_boundaries(bytes, order.take(k as int)),
            separated(order.take(k as int)),
        decreases idx@.len() - k,
    {
        let edit = &edits[idx[k]];
        let ghost e = order[k as int];
        assert(e == edit@);
        let ok = edit.start <= edit.end && buffer.is_char_boundary(edit.start)
            && buffer.is_char_boundary(edit.end) && (k == 0 || edit.end
            <= edits[idx[k - 1]].start);
        if !ok {
            proof {
                if within(bytes.len() as int, order) && on_boundaries(bytes, order) && separated(
                    order,
                ) {
                    assert(0 <= order[k as int].start <= order[k as int].end <= bytes.len());
                    assert(is_char_boundary(bytes, order[k as int].start));
                    assert(is_char_boundary(bytes, order[k as int].end));
                    if k > 0 {
                        assert(order[k - 1] == edits@[idx@[k - 1] as int]@);
                        assert(order[k as int].end <= order[k - 1].start);
                    }
                }
            }
            return false;
        }
        proof {
            lemma_boundary_inside(bytes, e.end);
            let next = order.take(k + 1);
            let before = order.take(k as int);
            assert forall|i: int| 0 <= i < next.len() implies 0 <= (#[trigger] next[i]).start
                <= next[i].end <= bytes.len() by {
                if i < k {
                    assert(before[i] == next[i]);
                }
            }
            assert forall|i: int| 0 <= i < next.len() implies is_char_boundary(
                bytes,
                (#[trigger] next[i]).start,
            ) && is_char_boundary(bytes, next[i].end) by {
                if i < k {
                    assert(before[i] == next[i]);
                }
            }
            assert forall|i: int, j: int| 0 <= i < j < next.len() implies (#[trigger] next[j]).end
                <= (#[trigger] next[i]).start by {
                if j < k {
                    assert(before[i] == next[i] && before[j] == next[j]);
                } else {
                    assert(next[j] == e);
                    if i == k - 1 {
                        assert(next[i] == order[k - 1]);
                    } else {
                        assert(before[i] == next[i]);
                        assert(before[k - 1] == order[k - 1]);
                        assert(before[k - 1].end <= before[i].start);
                        assert(0 <= before[k - 1].start <= before[k - 1].end);
                    }
                }
            }
        }
        k += 1;
    }
    assert(order.take(idx@.len() as int) =~= order);
    true
}

/// Applies the batch `edits` to `buffer` where it can be applied, and says whether it
/// could. A batch that cannot be applied leaves the buffer as it is.
pub fn try_apply(buffer: &mut String, edits: &Vec<Edit>) -> (r: bool)
    ensures
        r == applicable(encode_utf8(old(buffer)@), splices(edits@)),
        r ==> encode_utf8(final(buffer)@) == edited(encode_utf8(old(buffer)@), splices(edits@)),
        !r ==> final(buffer)@ == old(buffer)@,
{
    if can_apply(buffer.as_str(), edits) {
        apply(buffer, edits);
        true
    } else {
        false
    }
}

/// Each edit of `order` starts at or after the start of the one behind it.
pub open spec fn descending(order: Seq<Splice>) -> bool {
    forall|i: int, j: int|
        0 <= i < j < order.len() ==> (#[trigger] order[i]).start >= (#[trigger] order[j]).start
}

/// Each edit of `order` starts after the start of the one behind it.
pub open spec fn strictly_descending(order: Seq<Splice>) -> bool {
    forall|i: int, j: int|
        0 <= i < j < order.len() ==> (#[trigger] order[i]).start > (#[trigger] order[j]).start
}

proof fn lemma_insert_keeps_edits(sorted: Seq<Splice>, e: Splice)
    ensures
        insert_descending(sorted, e).to_multiset() == sorted.to_multiset().insert(e),
        insert_descending(sorted, e).len() == sorted.len() + 1,
    decreases sorted.len(),
{
    broadcast use group_multiset_axioms;
    broadcast use group_to_multiset_ensures;

    if sorted.len() == 0 {
        assert(seq![e] =~= sorted.push(e));
    } else if sorted.last().start >= e.start {
    } else {
        let front = sorted.drop_last();
        lemma_insert_keeps_edits(front, e);
        assert(front.push(sorted.last()) =~= sorted);
        assert(insert_descending(front, e).push(sorted.last()).to_multiset()
            =~= sorted.to_multiset().insert(e));
    }
}

proof fn lemma_insert_keeps_order(sorted: Seq<Splice>, e: Splice)
    requires
        descending(sorted),
    ensures
        descending(insert_descending(sorted, e)),
        forall|k: int|
            0 <= k < insert_descending(sorted, e).len() ==> (#[trigger] insert_descending(
                sorted,
                e,
            )[k]).start >= e.start || (sorted.len() > 0 && insert_descending(sorted, e)[k].start
                >= sorted.last().start),
    decreases sorted.len(),
{
    let out = insert_descending(sorted, e);
    if sorted.len() == 0 {
    } else if sorted.last().start >= e.start {
        assert forall|i: int, j: int| 0 <= i < j < out.len() implies (#[trigger] out[i]).start
            >= (#[trigger] out[j]).start by {
            if j == sorted.len() {
                assert(sorted[i].start >= sorted[sorted.len() - 1].start || i == sorted.len() - 1);
            } else {
                assert(out[i] == sorted[i] && out[j] == sorted[j]);
            }
        }
        assert forall|k: int| 0 <= k < out.len() implies (#[trigger] out[k]).start >= e.start
            || (sorted.len() > 0 && out[k].start >= sorted.last().start) by {
            if k < sorted.len() {
                assert(out[k] == sorted[k]);
                assert(sorted[k].start >= sorted[sorted.len() - 1].start || k == sorted.len() - 1);
            }
        }
    } else {
        let front = sorted.drop_last();
        let last = sorted.last();
        assert(descending(front)) by {
            assert forall|i: int, j: int| 0 <= i < j < front.len() implies (#[trigger] front[i]).start
                >= (#[trigger] front[j]).start by {
                assert(front[i] == sorted[i] && front[j] == sorted[j]);
            }
        }
        lemma_insert_keeps_order(front, e);
        lemma_insert_keeps_edits(front, e);
        let inner = insert_descending(front, e);
        assert(out == inner.push(last));
        assert forall|k: int| 0 <= k < inner.len() implies (#[trigger] inner[k]).start
            >= last.start by {
            if inner[k].start >= e.start {
            } else {
                assert(front.len() > 0 && inner[k].start >= front.last().start);
                assert(front.last() == sorted[sorted.len() - 2]);
                assert(sorted[sorted.len() - 2].start >= sorted[sorted.len() - 1].start);
            }
        }
        assert forall|i: int, j: int| 0 <= i < j < out.len() implies (#[trigger] out[i]).start
            >= (#[trigger] out[j]).start by {
            if j == inner.len() {
                assert(out[i] == inner[i]);
            } else {
                assert(out[i] == inner[i] && out[j] == inner[j]);
            }
        }
        assert forall|k: int| 0 <= k < out.len() implies (#[trigger] out[k]).start >= e.start
            || (sorted.len() > 0 && out[k].start >= sorted.last().start) by {
            if k < inner.len() {
                assert(out[k] == inner[k]);
            }
        }
    }
}

/// Sorting a batch keeps its edits, each as often as it came, and puts them in
/// descending order of their starts.
pub proof fn lemma_sort_descending(edits: Seq<Splice>)
    ensures
        sort_descending(edits).to_multiset() == edits.to_multiset(),
        sort_descending(edits).len() == edits.len(),
        descending(sort_descending(edits)),
    decreases edits.len(),
{
    broadcast use group_multiset_axioms;
    broadcast use group_to_multiset_ensures;

    if edits.len() == 0 {
        assert(edits =~= Seq::<Splice>::empty());
    } else {
        let front = edits.drop_last();
        lemma_sort_descending(front);
        lemma_insert_keeps_edits(sort_descending(front), edits.last());
        lemma_insert_keeps_order(sort_descending(front), edits.last());
        assert(front.push(edits.last()) =~= edits);
    }
}

proof fn lemma_same_edits_distinct_starts(found: Seq<Splice>, order: Seq<Splice>)
    requires
        distinct_starts(found),
        found.to_multiset() == order.to_multiset(),
        descending(order),
    ensures
        strictly_descending(order),
{
    broadcast use group_multiset_axioms;
    broadcast use group_to_multiset_ensures;

    assert(found.no_duplicates()) by {
        assert forall|i: int, j: int|
            0 <= i < found.len() && 0 <= j < found.len() && i != j implies found[i]
            != found[j] by {
            if i < j {
                assert(found[i].start != found[j].start);
            } else {
                assert(found[j].start != found[i].start);
            }
        }
    }
    found.lemma_multiset_has_no_duplicates();
    order.lemma_multiset_has_no_duplicates_conv();
    assert forall|i: int, j: int| 0 <= i < j < order.len() implies (#[trigger] order[i]).start
        > (#[trigger] order[j]).start by {
        assert(order[i] != order[j]);
        assert(order.contains(order[i]));
        assert(order.contains(order[j]));
        assert(found.to_multiset().count(order[i]) > 0);
        assert(found.to_multiset().count(order[j]) > 0);
        assert(found.contains(order[i]));
        assert(found.contains(order[j]));
        let p = choose|p: int| 0 <= p < found.len() && found[p] == order[i];
        let q = choose|q: int| 0 <= q < found.len() && found[q] == order[j];
        if p < q {
            assert(found[p].start != found[q].start);
        } else if q < p {
            assert(found[q].start != found[p].start);
        }
    }
}

proof fn lemma_strictly_descending_is_unique(x: Seq<Splice>, y: Seq<Splice>)
    requires
        strictly_descending(x),
        strictly_descending(y),
        x.to_multiset() == y.to_multiset(),
    ensures
        x == y,
    decreases x.len(),
{
    broadcast use group_multiset_axioms;
    broadcast use group_to_multiset_ensures;

    to_multiset_len(x);
    to_multiset_len(y);
    if x.len() == 0 {
        assert(x =~= y);
    } else {
        assert(x.contains(x[0]));
        assert(y.contains(y[0]));
        assert(y.to_multiset().count(x[0]) > 0);
        assert(x.to_multiset().count(y[0]) > 0);
        assert(y.contains(x[0]));
        assert(x.contains(y[0]));
        let k = choose|k: int| 0 <= k < y.len() && y[k] == x[0];
        let m = choose|m: int| 0 <= m < x.len() && x[m] == y[0];
        if k > 0 {
            assert(y[0].start > y[k].start);
            if m > 0 {
                assert(x[0].start > x[m].start);
            }
        }
        assert(x[0] == y[0]);
        let xs = x.drop_first();
        let ys = y.drop_first();
        assert(xs =~= x.remove(0));
        assert(ys =~= y.remove(0));
        assert(xs.to_multiset() =~= ys.to_multiset());
        assert(strictly_descending(xs)) by {
            assert forall|i: int, j: int| 0 <= i < j < xs.len() implies (#[trigger] xs[i]).start
                > (#[trigger] xs[j]).start by {
                assert(xs[i] == x[i + 1] && xs[j] == x[j + 1]);
            }
        }
        assert(strictly_descending(ys)) by {
            assert forall|i: int, j: int| 0 <= i < j < ys.len() implies (#[trigger] ys[i]).start
                > (#[trigger] ys[j]).start by {
                assert(ys[i] == y[i + 1] && ys[j] == y[j + 1]);
            }
        }
        lemma_strictly_descending_is_unique(xs, ys);
        assert(x =~= seq![x[0]] + xs);
        assert(y =~= seq![y[0]] + ys);
    }
}

/// The order in which the edits of a batch were found is no matter: where no two
/// edits of `found` start at one offset, the batch makes of `buf` what its edits make of
/// it when they are applied one at a time from the end of the buffer towards its start,
/// which is the order `from_end`.
pub proof fn law_discovery_order(buf: Seq<u8>, found: Seq<Splice>, from_end: Seq<Splice>)
    requires
        non_overlapping(found),
        distinct_starts(found),
        found.to_multiset() == from_end.to_multiset(),
        descending(from_end),
    ensures
        sort_descending(found) == from_end,
        edited(buf, found) == apply_in_order(buf, from_end),
{
    lemma_sort_descending(found);
    lemma_same_edits_distinct_starts(found, sort_descending(found));
    lemma_same_edits_distinct_starts(found, from_end);
    lemma_strictly_descending_is_unique(sort_descending(found), from_end);
}

/// Two batches that hold the same edits, found in whatever order, make the same of
/// `buf`, where no two of the edits start at one offset.
pub proof fn law_any_discovery_order(buf: Seq<u8>, found: Seq<Splice>, other: Seq<Splice>)
    requires
        non_overlapping(found),
        distinct_starts(found),
        found.to_multiset() == other.to_multiset(),
    ensures
        edited(buf, found) == edited(buf, other),
{
    lemma_sort_descending(other);
    law_discovery_order(buf, found, sort_descending(other));
}

proof fn lemma_stitched_behind(buf: Seq<u8>, first: Splice, rest: Seq<Splice>, from: int)
    requires
        0 <= from <= first.start <= first.end <= buf.len(),
        within(first.start, rest),
        separated(rest),
        forall|i: int| 0 <= i < rest.len() ==> from <= (#[trigger] rest[i]).start,
    ensures
        stitched(splice(buf, first), rest, from) == stitched(buf, seq![first] + rest, from),
    decreases rest.len(),
{
    let after = splice(buf, first);
    let all = seq![first] + rest;
    reveal_with_fuel(stitched, 2);
    if rest.len() == 0 {
        assert(all.drop_last() =~= Seq::<Splice>::empty());
        assert(all.last() == first);
        assert(after.subrange(from, after.len() as int) =~= buf.subrange(from, first.start)
            + first.with + buf.subrange(first.end, buf.len() as int));
    } else {
        let e = rest.last();
        let front = rest.drop_last();
        assert(e == rest[rest.len() - 1]);
        assert(all.last() == e);
        assert(all.drop_last() =~= seq![first] + front);
        assert(within(first.start, front)) by {
            assert forall|i: int| 0 <= i < front.len() implies 0 <= (#[trigger] front[i]).start
                <= front[i].end <= first.start by {
                assert(front[i] == rest[i]);
            }
        }
        assert(separated(front)) by {
            assert forall|i: int, j: int| 0 <= i < j < front.len() implies (#[trigger] front[j]).end
                <= (#[trigger] front[i]).start by {
                assert(front[i] == rest[i] && front[j] == rest[j]);
            }
        }
        assert forall|i: int| 0 <= i < front.len() implies e.end <= (#[trigger] front[i]).start by {
            assert(front[i] == rest[i]);
            assert(rest[rest.len() - 1].end <= rest[i].start);
        }
        lemma_stitched_behind(buf, first, front, e.end);
        assert(after.subrange(from, e.start) =~= buf.subrange(from, e.start));
    }
}

/// A batch whose edits descend, none reaching into one before it, replaces every range
/// at once: the bytes between the ranges stay as they were in `buf`, and each range
/// gives way to its replacement.
pub proof fn law_ranges_replaced_at_once(buf: Seq<u8>, order: Seq<Splice>)
    requires
        within(buf.len() as int, order),
        separated(order),
    ensures
        apply_in_order(buf, order) == stitched(buf, order, 0),
    decreases order.len(),
{
    if order.len() == 0 {
        assert(buf.subrange(0, buf.len() as int) =~= buf);
    } else {
        let first = order[0];
        let rest = order.drop_first();
        let after = splice(buf, first);
        assert(within(first.start, rest)) by {
            assert forall|i: int| 0 <= i < rest.len() implies 0 <= (#[trigger] rest[i]).start
                <= rest[i].end <= first.start by {
                assert(rest[i] == order[i + 1]);
                assert(order[i + 1].end <= order[0].start);
            }
        }
        assert(separated(rest)) by {
            assert forall|i: int, j: int| 0 <= i < j < rest.len() implies (#[trigger] rest[j]).end
                <= (#[trigger] rest[i]).start by {
                assert(rest[i] == order[i + 1] && rest[j] == order[j + 1]);
            }
        }
        assert(within(after.len() as int, rest));
        law_ranges_replaced_at_once(after, rest);
        lemma_stitched_behind(buf, first, rest, 0);
        assert(seq![first] + rest =~= order);
    }
}

} // verus!
