//! JSON Lines output: one encoded value per line.
use vstd::prelude::*;

verus! {

/// `t` is the text of one output line: a non-empty encoded value without a
/// line feed, followed by a line feed.
pub open spec fn is_line(t: Seq<char>) -> bool {
    &&& t.len() >= 2
    &&& t.last() == '\n'
    &&& forall|i: int| 0 <= i < t.len() - 1 ==> t[i] != '\n'
}

/// The number of line feeds in `t`.
pub open spec fn count_newlines(t: Seq<char>) -> nat
    decreases t.len(),
{
    if t.len() == 0 {
        0
    } else {
        count_newlines(t.drop_last()) + if t.last() == '\n' {
            1nat
        } else {
            0nat
        }
    }
}

/// The output made of `lines`, written one after the other.
pub open spec fn join(lines: Seq<Seq<char>>) -> Seq<char>
    decreases lines.len(),
{
    if lines.len() == 0 {
        Seq::empty()
    } else {
        join(lines.drop_last()) + lines.last()
    }
}

/// Where line `i` starts in the output made of `lines`.
pub open spec fn line_start(lines: Seq<Seq<char>>, i: int) -> int {
    join(lines.take(i)).len() as int
}

/// Turns the encoded text of one value into its output line.
pub fn to_line(text: String) -> (r: String)
    ensures
        r@ == text@.push('\n'),
{
    let mut line = text;
    line.append("\n");
    proof {
        reveal_strlit("\n");
        assert(line@ =~= text@.push('\n'));
    }
    line
}

/// Line feeds add up over text written one piece after another.
pub proof fn lemma_count_newlines_append(a: Seq<char>, b: Seq<char>)
    ensures
        count_newlines(a + b) == count_newlines(a) + count_newlines(b),
    decreases b.len(),
{
    if b.len() == 0 {
        assert(a + b =~= a);
    } else {
        lemma_count_newlines_append(a, b.drop_last());
        assert((a + b).drop_last() =~= a + b.drop_last());
    }
}

/// A line holds exactly one line feed, at its end.
pub proof fn lemma_line_has_one_newline(t: Seq<char>)
    requires
        is_line(t),
    ensures
        count_newlines(t) == 1,
{
    let body = t.drop_last();
    assert forall|k: int| 0 <= k <= body.len() implies count_newlines(body.take(k)) == 0 by {
        lemma_prefix_without_newline(body, k);
    }
    assert(body.take(body.len() as int) =~= body);
}

proof fn lemma_prefix_without_newline(body: Seq<char>, k: int)
    requires
        0 <= k <= body.len(),
        forall|i: int| 0 <= i < body.len() ==> body[i] != '\n',
    ensures
        count_newlines(body.take(k)) == 0,
    decreases k,
{
    if k > 0 {
        lemma_prefix_without_newline(body, k - 1);
        assert(body.take(k).drop_last() =~= body.take(k - 1));
    }
}

/// Written one after another, `n` lines make an output of exactly `n` lines:
/// it holds `n` line feeds, and each line is found, in order, at the place
/// where it was written.
pub proof fn lemma_joined_lines(lines: Seq<Seq<char>>)
    requires
        forall|i: int| 0 <= i < lines.len() ==> is_line(#[trigger] lines[i]),
    ensures
        count_newlines(join(lines)) == lines.len(),
        forall|i: int|
            0 <= i < lines.len() ==> join(lines).subrange(
                line_start(lines, i),
                line_start(lines, i) + lines[i].len(),
            ) == lines[i],
    decreases lines.len(),
{
    if lines.len() > 0 {
        let init = lines.drop_last();
        lemma_joined_lines(init);
        lemma_count_newlines_append(join(init), lines.last());
        lemma_line_has_one_newline(lines.last());
        assert forall|i: int| 0 <= i < lines.len() implies join(lines).subrange(
            line_start(lines, i),
            line_start(lines, i) + lines[i].len(),
        ) == lines[i] by {
            if i < init.len() {
                assert(lines.take(i) =~= init.take(i));
                assert(init[i] == lines[i]);
                lemma_join_prefix_len(init, i + 1);
                assert(init.take(i + 1).drop_last() =~= init.take(i));
                assert(join(lines).subrange(
                    line_start(lines, i),
                    line_start(lines, i) + lines[i].len(),
                ) =~= join(init).subrange(
                    line_start(init, i),
                    line_start(init, i) + init[i].len(),
                ));
            } else {
                assert(lines.take(i) =~= init);
                assert(join(lines).subrange(
                    line_start(lines, i),
                    line_start(lines, i) + lines[i].len(),
                ) =~= lines[i]);
            }
        }
    }
}

/// Joining a prefix of the lines gives no more text than joining them all.
proof fn lemma_join_prefix_len(lines: Seq<Seq<char>>, k: int)
    requires
        0 <= k <= lines.len(),
    ensures
        join(lines.take(k)).len() <= join(lines).len(),
    decreases lines.len() - k,
{
    if k < lines.len() {
        lemma_join_prefix_len(lines, k + 1);
        assert(lines.take(k + 1).drop_last() =~= lines.take(k));
    } else {
        assert(lines.take(k) =~= lines);
    }
}

} // verus!
