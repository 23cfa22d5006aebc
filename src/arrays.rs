//! JSON arrays written out from their element texts, and what the pulls find
//! in them.
use vstd::prelude::*;
use crate::framing::{Fault, Phase, element_at, frame, frame_from, is_ws, pull, skip_ws};
use crate::json::{compact_text, value_read};
use crate::stream::output_lines;

verus! {

/// The text that follows the byte before an element: for each element a `,`
/// and the element's text, then the closing `]`.
pub open spec fn rest_text(elems: Seq<Seq<u8>>) -> Seq<u8>
    decreases elems.len(),
{
    if elems.len() == 0 {
        seq![0x5Du8]
    } else {
        seq![0x2Cu8] + elems[0] + rest_text(elems.drop_first())
    }
}

/// The compact array of the given element texts: `[e0,e1,...]`.
pub open spec fn array_text(elems: Seq<Seq<u8>>) -> Seq<u8> {
    if elems.len() == 0 {
        seq![0x5Bu8, 0x5Du8]
    } else {
        seq![0x5Bu8] + elems[0] + rest_text(elems.drop_first())
    }
}

/// Element `i` can start an element where it stands: it is not empty and its
/// first byte is neither whitespace nor `]`.
pub open spec fn starts_element(elems: Seq<Seq<u8>>, i: int) -> bool {
    &&& elems[i].len() > 0
    &&& !is_ws(elems[i][0])
    &&& elems[i][0] != 0x5Du8
}

/// What serde_json measures at element `i`, with the rest of the array after it.
pub open spec fn extent_at(elems: Seq<Seq<u8>>, i: int) -> Option<nat> {
    match value_read(elems[i] + rest_text(elems.skip(i + 1))) {
        Some((_, n)) => Some(n),
        None => None,
    }
}

/// Element `i` is a JSON value that serde_json reads exactly where it stands.
pub open spec fn fits(elems: Seq<Seq<u8>>, i: int) -> bool {
    &&& starts_element(elems, i)
    &&& extent_at(elems, i) == Some(elems[i].len())
}

/// The spans of the elements when the byte before the first of them is `base`.
pub open spec fn spans_from(elems: Seq<Seq<u8>>, base: int) -> Seq<(int, int)>
    decreases elems.len(),
{
    if elems.len() == 0 {
        Seq::empty()
    } else {
        seq![(base + 1, base + 1 + elems[0].len())] + spans_from(
            elems.drop_first(),
            base + 1 + elems[0].len(),
        )
    }
}

/// Where element `k` starts when the byte before the first element is `base`.
pub open spec fn start_of(elems: Seq<Seq<u8>>, base: int, k: int) -> int
    decreases k,
{
    if k <= 0 || elems.len() == 0 {
        base + 1
    } else {
        start_of(elems.drop_first(), base + 1 + elems[0].len(), k - 1)
    }
}

proof fn lemma_skip_at_non_ws(s: Seq<u8>, i: int)
    requires
        0 <= i < s.len(),
        !is_ws(s[i]),
    ensures
        skip_ws(s, i) == i,
{
}

proof fn lemma_shift(elems: Seq<Seq<u8>>)
    requires
        elems.len() > 0,
    ensures
        forall|i: int|
            0 <= i < elems.len() - 1 ==> {
                &&& #[trigger] fits(elems.drop_first(), i) == fits(elems, i + 1)
                &&& starts_element(elems.drop_first(), i) == starts_element(elems, i + 1)
                &&& extent_at(elems.drop_first(), i) == extent_at(elems, i + 1)
            },
{
    assert forall|i: int| 0 <= i < elems.len() - 1 implies {
        &&& #[trigger] fits(elems.drop_first(), i) == fits(elems, i + 1)
        &&& starts_element(elems.drop_first(), i) == starts_element(elems, i + 1)
        &&& extent_at(elems.drop_first(), i) == extent_at(elems, i + 1)
    } by {
        assert(elems.drop_first().skip(i + 1) =~= elems.skip(i + 2));
    }
}

/// From the byte `pos` before an element inside the array, the pulls find the
/// first `k` elements and then either the end of the array (`k` is all of
/// them) or the element `k` that serde_json rejects.
proof fn lemma_rest(s: Seq<u8>, pos: int, elems: Seq<Seq<u8>>, k: int)
    requires
        0 <= pos,
        pos + rest_text(elems).len() == s.len(),
        s.subrange(pos, s.len() as int) == rest_text(elems),
        0 <= k <= elems.len(),
        forall|i: int| 0 <= i < k ==> fits(elems, i),
        k < elems.len() ==> starts_element(elems, k) && extent_at(elems, k) is None,
    ensures
        frame_from(s, pos, Phase::Inside) == (
            spans_from(elems.take(k), pos),
            if k == elems.len() {
                Ok::<int, (Fault, int)>(s.len() as int)
            } else {
                Err((Fault::BadElement, start_of(elems, pos, k)))
            },
        ),
    decreases elems.len(), 1int,
{
    assert(s[pos] == rest_text(elems)[0]);
    lemma_skip_at_non_ws(s, pos);
    if elems.len() == 0 {
        assert(elems.take(k) =~= Seq::<Seq<u8>>::empty());
    } else {
        let t = rest_text(elems);
        assert(t =~= seq![0x2Cu8] + elems[0] + rest_text(elems.drop_first()));
        assert(s.subrange(pos + 1, s.len() as int) =~= t.subrange(1, t.len() as int));
        if starts_element(elems, 0) {
            assert(s[pos + 1] == t[1]);
            lemma_skip_at_non_ws(s, pos + 1);
        }
        lemma_first_element(s, pos + 1, Phase::Inside, elems, k);
    }
}

/// The element at byte `q` is the first of `elems`, and a pull from the byte
/// before it reads it: then the pulls find the first `k` elements and stop as
/// `lemma_rest` says.
proof fn lemma_first_element(s: Seq<u8>, q: int, phase: Phase, elems: Seq<Seq<u8>>, k: int)
    requires
        1 <= q,
        elems.len() > 0,
        q + elems[0].len() + rest_text(elems.drop_first()).len() == s.len(),
        s.subrange(q, s.len() as int) =~= elems[0] + rest_text(elems.drop_first()),
        phase != Phase::Done,
        starts_element(elems, 0) ==> pull(s, q - 1, phase) == element_at(s, q),
        0 <= k <= elems.len(),
        forall|i: int| 0 <= i < k ==> fits(elems, i),
        k < elems.len() ==> starts_element(elems, k) && extent_at(elems, k) is None,
    ensures
        frame_from(s, q - 1, phase) == (
            spans_from(elems.take(k), q - 1),
            if k == elems.len() {
                Ok::<int, (Fault, int)>(s.len() as int)
            } else {
                Err((Fault::BadElement, start_of(elems, q - 1, k)))
            },
        ),
    decreases elems.len(), 0int,
{
    let e = elems[0];
    let rest = elems.drop_first();
    if k > 0 {
        assert(fits(elems, 0));
    }
    assert(starts_element(elems, 0));
    assert(elems.skip(1) =~= rest);
    if k == 0 {
        assert(elems.take(k) =~= Seq::<Seq<u8>>::empty());
    } else {
        let end = q + e.len() as int;
        let t = s.subrange(q, s.len() as int);
        assert(s.subrange(end, s.len() as int) =~= t.subrange(e.len() as int, t.len() as int));
        assert(t.subrange(e.len() as int, t.len() as int) =~= rest_text(rest));
        lemma_shift(elems);
        assert forall|i: int| 0 <= i < k - 1 implies fits(rest, i) by {
            assert(fits(elems, i + 1));
        }
        if k < elems.len() {
            assert(fits(rest, k - 1) == fits(elems, k));
        }
        lemma_rest(s, end, rest, k - 1);
        assert(elems.take(k).drop_first() =~= rest.take(k - 1));
    }
}

/// A well-formed array of `n` elements, each one a JSON value that serde_json
/// reads exactly where it stands, is pulled as exactly `n` elements, in the
/// order of the array and each over its own bytes, and then the run succeeds.
/// For `[]` that means no element at all.
pub proof fn lemma_array_yields_each_element(elems: Seq<Seq<u8>>)
    requires
        forall|i: int| 0 <= i < elems.len() ==> fits(elems, i),
    ensures
        frame(array_text(elems)).0 == spans_from(elems, 0),
        frame(array_text(elems)).0.len() == elems.len(),
        frame(array_text(elems)).1 == Ok::<int, (Fault, int)>(array_text(elems).len() as int),
{
    lemma_array_prefix(elems, elems.len() as int);
    assert(elems.take(elems.len() as int) =~= elems);
    lemma_spans_len(elems, 0);
}

/// In an array whose element `k` serde_json rejects, while every element before
/// it is read: exactly the `k` elements before it are pulled, in order, and the
/// run then fails on element `k`; nothing after it is pulled.
pub proof fn lemma_array_stops_at_bad_element(elems: Seq<Seq<u8>>, k: int)
    requires
        0 <= k < elems.len(),
        forall|i: int| 0 <= i < k ==> fits(elems, i),
        starts_element(elems, k),
        extent_at(elems, k) is None,
    ensures
        frame(array_text(elems)).0 == spans_from(elems.take(k), 0),
        frame(array_text(elems)).0.len() == k,
        frame(array_text(elems)).1 == Err::<int, (Fault, int)>(
            (Fault::BadElement, start_of(elems, 0, k)),
        ),
{
    lemma_array_prefix(elems, k);
    lemma_spans_len(elems.take(k), 0);
}

proof fn lemma_spans_len(elems: Seq<Seq<u8>>, base: int)
    ensures
        spans_from(elems, base).len() == elems.len(),
    decreases elems.len(),
{
    if elems.len() > 0 {
        lemma_spans_len(elems.drop_first(), base + 1 + elems[0].len());
    }
}

proof fn lemma_array_prefix(elems: Seq<Seq<u8>>, k: int)
    requires
        0 <= k <= elems.len(),
        forall|i: int| 0 <= i < k ==> fits(elems, i),
        k < elems.len() ==> starts_element(elems, k) && extent_at(elems, k) is None,
    ensures
        frame(array_text(elems)) == (
            spans_from(elems.take(k), 0),
            if k == elems.len() {
                Ok::<int, (Fault, int)>(array_text(elems).len() as int)
            } else {
                Err((Fault::BadElement, start_of(elems, 0, k)))
            },
        ),
{
    let s = array_text(elems);
    assert(s[0] == 0x5Bu8);
    lemma_skip_at_non_ws(s, 0);
    if elems.len() == 0 {
        lemma_skip_at_non_ws(s, 1);
        assert(elems.take(k) =~= Seq::<Seq<u8>>::empty());
    } else {
        assert(s =~= seq![0x5Bu8] + elems[0] + rest_text(elems.drop_first()));
        assert(s.subrange(1, s.len() as int) =~= elems[0] + rest_text(elems.drop_first()));
        if starts_element(elems, 0) {
            lemma_skip_at_non_ws(s, 1);
        }
        lemma_first_element(s, 1, Phase::Start, elems, k);
    }
}

/// The value serde_json reads for element `i` where it stands in the array.
pub open spec fn value_of(elems: Seq<Seq<u8>>, i: int) -> serde_json::Value {
    value_read(elems[i] + rest_text(elems.skip(i + 1)))->Some_0.0
}

/// Element `i`, laid out after the byte `base`, starts where its span starts.
proof fn lemma_span_bytes(s: Seq<u8>, base: int, elems: Seq<Seq<u8>>)
    requires
        elems.len() > 0,
        0 <= base,
        base + 1 + elems[0].len() + rest_text(elems.drop_first()).len() == s.len(),
        s.subrange(base + 1, s.len() as int) == elems[0] + rest_text(elems.drop_first()),
    ensures
        forall|i: int|
            0 <= i < elems.len() ==> s.subrange(
                #[trigger] spans_from(elems, base)[i].0,
                s.len() as int,
            ) == elems[i] + rest_text(elems.skip(i + 1)),
    decreases elems.len(),
{
    let e = elems[0];
    let rest = elems.drop_first();
    let next = base + 1 + e.len() as int;
    assert(elems.skip(1) =~= rest);
    if rest.len() > 0 {
        let t = s.subrange(base + 1, s.len() as int);
        assert(rest_text(rest) =~= seq![0x2Cu8] + rest[0] + rest_text(rest.drop_first()));
        assert(s.subrange(next + 1, s.len() as int) =~= t.subrange(
            e.len() as int + 1,
            t.len() as int,
        ));
        assert(t.subrange(e.len() as int + 1, t.len() as int) =~= rest[0] + rest_text(
            rest.drop_first(),
        ));
        lemma_span_bytes(s, next, rest);
    }
    lemma_spans_len(rest, next);
    assert forall|i: int| 0 <= i < elems.len() implies s.subrange(
        #[trigger] spans_from(elems, base)[i].0,
        s.len() as int,
    ) == elems[i] + rest_text(elems.skip(i + 1)) by {
        if i > 0 {
            assert(spans_from(elems, base)[i] == spans_from(rest, next)[i - 1]);
            assert(rest.skip(i) =~= elems.skip(i + 1));
        }
    }
}

/// The output of a well-formed array of `n` elements, each one a JSON value
/// that serde_json reads exactly where it stands, is exactly `n` lines, and
/// line `i` is the compact JSON text of element `i` followed by a line feed.
/// The output depends on the element texts alone, so two runs over the same
/// array write the same lines.
pub proof fn lemma_array_output(elems: Seq<Seq<u8>>)
    requires
        forall|i: int| 0 <= i < elems.len() ==> fits(elems, i),
    ensures
        output_lines(array_text(elems)).len() == elems.len(),
        forall|i: int|
            0 <= i < elems.len() ==> #[trigger] output_lines(array_text(elems))[i] == compact_text(
                value_of(elems, i),
            ).push('\n'),
{
    let s = array_text(elems);
    lemma_array_yields_each_element(elems);
    if elems.len() > 0 {
        assert(fits(elems, 0));
        assert(s =~= seq![0x5Bu8] + elems[0] + rest_text(elems.drop_first()));
        assert(s.subrange(1, s.len() as int) =~= elems[0] + rest_text(elems.drop_first()));
        lemma_span_bytes(s, 0, elems);
    }
    assert forall|i: int| 0 <= i < elems.len() implies #[trigger] output_lines(s)[i]
        == compact_text(value_of(elems, i)).push('\n') by {
        assert(s.subrange(spans_from(elems, 0)[i].0, s.len() as int) == elems[i] + rest_text(
            elems.skip(i + 1),
        ));
    }
}

} // verus!
