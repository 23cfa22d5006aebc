//! Where the elements of a top-level JSON array lie in the input bytes.
//!
//! The array's own punctuation (`[`, `,`, `]` and the whitespace around them)
//! is read here; each element is read and measured by serde_json (`value_read`).
use vstd::prelude::*;
use crate::json::value_read;

verus! {

/// The JSON whitespace bytes: space, tab, line feed, carriage return.
pub open spec fn is_ws(b: u8) -> bool {
    b == 0x20u8 || b == 0x09u8 || b == 0x0Au8 || b == 0x0Du8
}

/// The first index at or after `i` that does not hold whitespace.
pub open spec fn skip_ws(s: Seq<u8>, i: int) -> int
    decreases s.len() - i,
{
    if 0 <= i < s.len() && is_ws(s[i]) {
        skip_ws(s, i + 1)
    } else {
        i
    }
}

/// Why a pull over the array stopped with an error.
#[derive(PartialEq, Eq, Structural, Clone, Copy, Debug)]
pub enum Fault {
    /// The first value of the input is not an array.
    NotAnArray,
    /// The input ends before the array is closed.
    UnexpectedEnd,
    /// After an element comes neither `,` nor `]`.
    ExpectedCommaOrEnd,
    /// A `,` is followed directly by `]`.
    TrailingComma,
    /// An element is not a JSON value that serde_json accepts.
    BadElement,
}

/// How far the pulls over one input have come.
#[derive(PartialEq, Eq, Structural, Clone, Copy, Debug)]
pub enum Phase {
    /// Nothing is read yet: the opening `[` is still to come.
    Start,
    /// Inside the array, after at least one element.
    Inside,
    /// The array was closed, or an error was reported.
    Done,
}

/// What one pull reports.
pub enum Pulled {
    /// An element occupies the bytes `start .. end`.
    Element { start: int, end: int },
    /// The array is closed; its `]` ends just before `after`.
    End { after: int },
    /// The pull fails at byte `at`.
    Failed { fault: Fault, at: int },
    /// Nothing more is pulled: the stream has finished.
    Idle,
}

/// The element that starts at byte `q`, as serde_json measures it.
pub open spec fn element_at(s: Seq<u8>, q: int) -> Pulled {
    match value_read(s.subrange(q, s.len() as int)) {
        Some((_, n)) => if 0 < n <= s.len() - q {
            Pulled::Element { start: q, end: q + n }
        } else {
            Pulled::Failed { fault: Fault::BadElement, at: q }
        },
        None => Pulled::Failed { fault: Fault::BadElement, at: q },
    }
}

/// The value that serde_json reads for the element that starts at byte `q`.
pub open spec fn element_value(s: Seq<u8>, q: int) -> serde_json::Value {
    value_read(s.subrange(q, s.len() as int))->Some_0.0
}

/// One pull inside the array from byte `pos`; `first` when no element has been
/// read yet, so that no `,` is expected.
pub open spec fn pull_inside(s: Seq<u8>, pos: int, first: bool) -> Pulled {
    let p = skip_ws(s, pos);
    if p >= s.len() {
        Pulled::Failed { fault: Fault::UnexpectedEnd, at: p }
    } else if s[p] == 0x5Du8 {
        Pulled::End { after: p + 1 }
    } else if first {
        element_at(s, p)
    } else if s[p] == 0x2Cu8 {
        let q = skip_ws(s, p + 1);
        if q >= s.len() {
            Pulled::Failed { fault: Fault::UnexpectedEnd, at: q }
        } else if s[q] == 0x5Du8 {
            Pulled::Failed { fault: Fault::TrailingComma, at: q }
        } else {
            element_at(s, q)
        }
    } else {
        Pulled::Failed { fault: Fault::ExpectedCommaOrEnd, at: p }
    }
}

/// One pull from byte `pos` in the given phase.
pub open spec fn pull(s: Seq<u8>, pos: int, phase: Phase) -> Pulled {
    match phase {
        Phase::Start => {
            let p = skip_ws(s, pos);
            if p >= s.len() {
                Pulled::Failed { fault: Fault::UnexpectedEnd, at: p }
            } else if s[p] != 0x5Bu8 {
                Pulled::Failed { fault: Fault::NotAnArray, at: p }
            } else {
                pull_inside(s, p + 1, true)
            }
        },
        Phase::Inside => pull_inside(s, pos, false),
        Phase::Done => Pulled::Idle,
    }
}

/// The whole run of pulls from a state: the spans of the elements in the order
/// in which they come, and how the run ends (the byte after the closing `]`,
/// or the fault and where it was met).
pub open spec fn frame_from(s: Seq<u8>, pos: int, phase: Phase) -> (
    Seq<(int, int)>,
    Result<int, (Fault, int)>,
)
    decreases s.len() - pos, if phase is Start { 1int } else { 0int },
{
    match pull(s, pos, phase) {
        Pulled::Element { start, end } => if pos < end <= s.len() {
            let rest = frame_from(s, end, Phase::Inside);
            (seq![(start, end)] + rest.0, rest.1)
        } else {
            (seq![(start, end)], Err((Fault::BadElement, start)))
        },
        Pulled::End { after } => (Seq::empty(), Ok(after)),
        Pulled::Failed { fault, at } => (Seq::empty(), Err((fault, at))),
        Pulled::Idle => (Seq::empty(), Ok(pos)),
    }
}

/// The run of pulls over the whole input.
pub open spec fn frame(s: Seq<u8>) -> (Seq<(int, int)>, Result<int, (Fault, int)>) {
    frame_from(s, 0, Phase::Start)
}

/// `skip_ws` moves forward, stays within the input, and stops at a byte that
/// is not whitespace unless it reached the end.
pub proof fn lemma_skip_ws(s: Seq<u8>, i: int)
    requires
        0 <= i <= s.len(),
    ensures
        i <= skip_ws(s, i) <= s.len(),
        skip_ws(s, i) < s.len() ==> !is_ws(s[skip_ws(s, i)]),
    decreases s.len() - i,
{
    if i < s.len() && is_ws(s[i]) {
        lemma_skip_ws(s, i + 1);
    }
}

/// An element that a pull reports lies after the pull's starting byte and
/// within the input.
pub proof fn lemma_pull_advances(s: Seq<u8>, pos: int, phase: Phase)
    requires
        0 <= pos <= s.len(),
    ensures
        pull(s, pos, phase) matches Pulled::Element { start, end } ==> pos <= start < end
            <= s.len(),
{
    lemma_skip_ws(s, pos);
    let p = skip_ws(s, pos);
    if p < s.len() {
        lemma_skip_ws(s, p + 1);
        let q = skip_ws(s, p + 1);
        if q < s.len() {
            lemma_skip_ws(s, q + 1);
        }
    }
}

/// Finds the first byte at or after `i` that is not JSON whitespace.
pub fn skip_whitespace(s: &[u8], i: usize) -> (r: usize)
    requires
        i <= s@.len(),
    ensures
        r == skip_ws(s@, i as int),
        i <= r <= s@.len(),
        r < s@.len() ==> !is_ws(s@[r as int]),
{
    proof {
        lemma_skip_ws(s@, i as int);
    }
    let mut j: usize = i;
    while j < s.len() && (s[j] == 0x20u8 || s[j] == 0x09u8 || s[j] == 0x0Au8 || s[j] == 0x0Du8)
        invariant
            i <= j <= s@.len(),
            skip_ws(s@, j as int) == skip_ws(s@, i as int),
        decreases s@.len() - j,
    {
        j = j + 1;
    }
    j
}

} // verus!
