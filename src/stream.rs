//! Pulls the elements of a top-level JSON array one at a time.
use vstd::prelude::*;
use crate::framing::{
    Fault, Phase, Pulled, element_at, element_value, frame, frame_from, pull, skip_whitespace,
};
use crate::json::{compact_text, encode_value, parse_value_at};
use crate::lines::{is_line, to_line};

verus! {

/// An error that ends a run over the array.
pub struct StreamError {
    /// What went wrong.
    pub fault: Fault,
    /// The byte of the input at which it was found.
    pub offset: usize,
    /// serde_json's own report, where serde_json found the error.
    pub cause: Option<serde_json::Error>,
}

/// A single pass over the elements of the JSON array at the start of `input`.
///
/// At most one decoded element exists at a time: each pull reads exactly one
/// element, the end of the array, or an error. After the end or an error the
/// stream stays finished.
pub struct ArrayStream<'a> {
    input: &'a [u8],
    pos: usize,
    phase: Phase,
    yielded: Ghost<Seq<(int, int)>>,
}

impl<'a> ArrayStream<'a> {
    /// The bytes the stream reads.
    pub closed spec fn input(&self) -> Seq<u8> {
        self.input@
    }

    /// The byte at which the next pull starts.
    pub closed spec fn pos(&self) -> int {
        self.pos as int
    }

    /// How far the pulls have come.
    pub closed spec fn phase(&self) -> Phase {
        self.phase
    }

    /// The spans of the elements pulled so far, in order.
    pub closed spec fn yielded(&self) -> Seq<(int, int)> {
        self.yielded@
    }

    /// What has been pulled, followed by what is still to be pulled, is the
    /// whole run over the input; until the stream finishes, the rest of the run
    /// also ends as the whole run does.
    pub closed spec fn wf(&self) -> bool {
        &&& self.pos <= self.input@.len()
        &&& self.yielded@ + frame_from(self.input@, self.pos as int, self.phase).0 == frame(
            self.input@,
        ).0
        &&& self.phase != Phase::Done ==> frame_from(self.input@, self.pos as int, self.phase).1
            == frame(self.input@).1
    }

    /// A stream positioned before the first byte of `input`.
    pub fn new(input: &'a [u8]) -> (r: Self)
        ensures
            r.wf(),
            r.input() == input@,
            r.pos() == 0,
            r.phase() == Phase::Start,
            r.yielded() == Seq::<(int, int)>::empty(),
    {
        let r = ArrayStream { input, pos: 0, phase: Phase::Start, yielded: Ghost(Seq::empty()) };
        assert(r.yielded@ + frame_from(input@, 0, Phase::Start).0 =~= frame(input@).0);
        r
    }

    /// Whether the stream has finished, at the end of the array or on an error.
    pub fn is_finished(&self) -> (r: bool)
        ensures
            r == (self.phase() == Phase::Done),
    {
        self.phase == Phase::Done
    }

    fn fail(&mut self, fault: Fault, offset: usize, cause: Option<serde_json::Error>) -> (r:
        StreamError)
        ensures
            r.fault == fault,
            r.offset == offset,
            final(self).input() == old(self).input(),
            final(self).pos() == old(self).pos(),
            final(self).yielded() == old(self).yielded(),
            final(self).phase() == Phase::Done,
    {
        self.phase = Phase::Done;
        StreamError { fault, offset, cause }
    }

    /// Reads the element whose first byte is `q`.
    fn element(&mut self, q: usize) -> (r: Result<Option<serde_json::Value>, StreamError>)
        requires
            q < old(self).input().len(),
            !crate::framing::is_ws(old(self).input()[q as int]),
        ensures
            final(self).input() == old(self).input(),
            final(self).yielded() == old(self).yielded(),
            match element_at(old(self).input(), q as int) {
                Pulled::Element { start, end } => {
                    &&& r matches Ok(Some(v)) && v == element_value(old(self).input(), start)
                    &&& final(self).pos() == end
                    &&& final(self).phase() == Phase::Inside
                },
                Pulled::Failed { fault, at } => {
                    &&& r matches Err(e) && e.fault == fault && e.offset == at
                    &&& final(self).pos() == old(self).pos()
                    &&& final(self).phase() == Phase::Done
                },
                _ => false,
            },
    {
        let len = self.input.len();
        let (parsed, used) = parse_value_at(self.input, q);
        match parsed {
            Some(Ok(v)) => {
                assert(q + used <= len);
                self.pos = q + used;
                self.phase = Phase::Inside;
                Ok(Some(v))
            },
            Some(Err(e)) => Err(self.fail(Fault::BadElement, q, Some(e))),
            None => Err(self.fail(Fault::BadElement, q, None)),
        }
    }

    /// Pulls once, without the bookkeeping of what was pulled.
    fn step(&mut self) -> (r: Result<Option<serde_json::Value>, StreamError>)
        requires
            old(self).pos() <= old(self).input().len(),
        ensures
            final(self).input() == old(self).input(),
            final(self).yielded() == old(self).yielded(),
            match pull(old(self).input(), old(self).pos(), old(self).phase()) {
                Pulled::Element { start, end } => {
                    &&& r matches Ok(Some(v)) && v == element_value(old(self).input(), start)
                    &&& final(self).pos() == end
                    &&& final(self).phase() == Phase::Inside
                },
                Pulled::End { after } => {
                    &&& r matches Ok(None)
                    &&& final(self).pos() == after
                    &&& final(self).phase() == Phase::Done
                },
                Pulled::Failed { fault, at } => {
                    &&& r matches Err(e) && e.fault == fault && e.offset == at
                    &&& final(self).pos() == old(self).pos()
                    &&& final(self).phase() == Phase::Done
                },
                Pulled::Idle => {
                    &&& r matches Ok(None)
                    &&& final(self).pos() == old(self).pos()
                    &&& final(self).phase() == Phase::Done
                },
            },
    {
        let first = self.phase == Phase::Start;
        let mut p = skip_whitespace(self.input, self.pos);
        match self.phase {
            Phase::Done => {
                return Ok(None);
            },
            Phase::Start => {
                if p >= self.input.len() {
                    return Err(self.fail(Fault::UnexpectedEnd, p, None));
                }
                if self.input[p] != 0x5Bu8 {
                    return Err(self.fail(Fault::NotAnArray, p, None));
                }
                p = skip_whitespace(self.input, p + 1);
            },
            Phase::Inside => {},
        }
        if p >= self.input.len() {
            return Err(self.fail(Fault::UnexpectedEnd, p, None));
        }
        if self.input[p] == 0x5Du8 {
            self.pos = p + 1;
            self.phase = Phase::Done;
            return Ok(None);
        }
        if first {
            return self.element(p);
        }
        if self.input[p] != 0x2Cu8 {
            return Err(self.fail(Fault::ExpectedCommaOrEnd, p, None));
        }
        let q = skip_whitespace(self.input, p + 1);
        if q >= self.input.len() {
            return Err(self.fail(Fault::UnexpectedEnd, q, None));
        }
        if self.input[q] == 0x5Du8 {
            return Err(self.fail(Fault::TrailingComma, q, None));
        }
        self.element(q)
    }

    /// Pulls the next element of the array.
    ///
    /// Returns `Ok(Some(v))` for the next element, `Ok(None)` once the array is
    /// closed (and on every later call), and `Err` when the input does not
    /// continue the array; the stream is then finished.
    pub fn next_element(&mut self) -> (r: Result<Option<serde_json::Value>, StreamError>)
        requires
            old(self).wf(),
        ensures
            final(self).wf(),
            final(self).input() == old(self).input(),
            match pull(old(self).input(), old(self).pos(), old(self).phase()) {
                Pulled::Element { start, end } => {
                    &&& r matches Ok(Some(v)) && v == element_value(old(self).input(), start)
                    &&& final(self).pos() == end
                    &&& final(self).phase() == Phase::Inside
                    &&& final(self).yielded() == old(self).yielded().push((start, end))
                },
                Pulled::End { after } => {
                    &&& r matches Ok(None)
                    &&& final(self).pos() == after
                    &&& final(self).phase() == Phase::Done
                    &&& final(self).yielded() == old(self).yielded()
                },
                Pulled::Failed { fault, at } => {
                    &&& r matches Err(e) && e.fault == fault && e.offset == at
                    &&& final(self).phase() == Phase::Done
                    &&& final(self).yielded() == old(self).yielded()
                },
                Pulled::Idle => {
                    &&& r matches Ok(None)
                    &&& final(self).phase() == Phase::Done
                    &&& final(self).yielded() == old(self).yielded()
                },
            },
    {
        let ghost s = self.input@;
        let ghost pos0 = self.pos as int;
        let ghost phase0 = self.phase;
        let r = self.step();
        proof {
            crate::framing::lemma_pull_advances(s, pos0, phase0);
            match pull(s, pos0, phase0) {
                Pulled::Element { start, end } => {
                    self.yielded = Ghost(self.yielded@.push((start, end)));
                    assert(self.yielded@ + frame_from(s, end, Phase::Inside).0 =~= frame(s).0);
                },
                _ => {},
            }
        }
        r
    }

    /// Pulls the next element and writes it back as one line of JSON Lines:
    /// its compact JSON text followed by a line feed.
    ///
    /// The stream moves exactly as [`ArrayStream::next_element`] moves it.
    pub fn next_line(&mut self) -> (r: Result<Option<String>, StreamError>)
        requires
            old(self).wf(),
        ensures
            final(self).wf(),
            final(self).input() == old(self).input(),
            match pull(old(self).input(), old(self).pos(), old(self).phase()) {
                Pulled::Element { start, end } => {
                    &&& r matches Ok(Some(l)) && l@ == line_of(old(self).input(), start) && is_line(
                        l@,
                    )
                    &&& final(self).pos() == end
                    &&& final(self).phase() == Phase::Inside
                    &&& final(self).yielded() == old(self).yielded().push((start, end))
                },
                Pulled::End { after } => {
                    &&& r matches Ok(None)
                    &&& final(self).pos() == after
                    &&& final(self).phase() == Phase::Done
                    &&& final(self).yielded() == old(self).yielded()
                },
                Pulled::Failed { fault, at } => {
                    &&& r matches Err(e) && e.fault == fault && e.offset == at
                    &&& final(self).phase() == Phase::Done
                    &&& final(self).yielded() == old(self).yielded()
                },
                Pulled::Idle => {
                    &&& r matches Ok(None)
                    &&& final(self).phase() == Phase::Done
                    &&& final(self).yielded() == old(self).yielded()
                },
            },
    {
        match self.next_element() {
            Ok(Some(v)) => Ok(Some(to_line(encode_value(&v).unwrap()))),
            Ok(None) => Ok(None),
            Err(e) => Err(e),
        }
    }

} // impl

/// The output line of the element that starts at byte `start` of `s`: the
/// compact JSON text of the value serde_json reads there, and a line feed.
pub open spec fn line_of(s: Seq<u8>, start: int) -> Seq<char> {
    compact_text(element_value(s, start)).push('\n')
}

/// The output lines of the whole input: one for each element that the run
/// over `s` pulls, in order.
pub open spec fn output_lines(s: Seq<u8>) -> Seq<Seq<char>> {
    frame(s).0.map_values(|span: (int, int)| line_of(s, span.0))
}

/// Runs over the whole array at the start of `input` and gathers its output
/// lines, one per element and in the order of the array.
///
/// Succeeds exactly when the input starts with a well-formed array whose
/// elements serde_json all reads. Otherwise the lines of all the elements
/// before the point of failure are kept, nothing after it is read, and the
/// error says what went wrong and where.
pub fn collect_lines(input: &[u8]) -> (r: (Vec<String>, Result<(), StreamError>))
    ensures
        r.0@.len() == output_lines(input@).len(),
        forall|i: int| 0 <= i < r.0@.len() ==> #[trigger] r.0@[i]@ == output_lines(input@)[i],
        forall|i: int| 0 <= i < r.0@.len() ==> is_line(#[trigger] r.0@[i]@),
        r.1 is Ok <==> frame(input@).1 is Ok,
        r.1 matches Err(e) ==> frame(input@).1 == Err::<int, (Fault, int)>(
            (e.fault, e.offset as int),
        ),
{
    let mut stream = ArrayStream::new(input);
    let mut lines: Vec<String> = Vec::new();
    loop
        invariant
            stream.wf(),
            stream.input() == input@,
            stream.phase() != Phase::Done,
            lines@.len() == stream.yielded().len(),
            forall|i: int|
                0 <= i < lines@.len() ==> #[trigger] lines@[i]@ == line_of(
                    input@,
                    stream.yielded()[i].0,
                ),
            forall|i: int| 0 <= i < lines@.len() ==> is_line(#[trigger] lines@[i]@),
        decreases input@.len() - stream.pos() + if stream.phase() is Start {
            1int
        } else {
            0int
        },
    {
        let ghost before = stream;
        proof {
            crate::framing::lemma_pull_advances(input@, stream.pos(), stream.phase());
        }
        let next = stream.next_line();
        if !(next matches Ok(Some(_))) {
            proof {
                // The pull ended the run: nothing was left to pull after it.
                assert(frame_from(input@, before.pos(), before.phase()).0.len() == 0);
                assert(before.yielded() + frame_from(input@, before.pos(), before.phase()).0
                    =~= before.yielded());
                assert(output_lines(input@).len() == lines@.len());
            }
        }
        match next {
            Ok(Some(line)) => {
                lines.push(line);
            },
            Ok(None) => {
                return (lines, Ok(()));
            },
            Err(e) => {
                return (lines, Err(e));
            },
        }
    }
}

} // verus!
