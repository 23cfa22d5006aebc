//! The calls into serde_json that the library makes.
use vstd::prelude::*;

verus! {

#[verifier::external_type_specification]
#[verifier::external_body]
pub struct ExValue(serde_json::Value);

#[verifier::external_type_specification]
#[verifier::external_body]
pub struct ExError(serde_json::Error);

/// What serde_json's stream deserializer reads as the first JSON value of `s`:
/// the value and the number of bytes it consumed, or `None` when it reports an
/// error there.
pub uninterp spec fn value_read(s: Seq<u8>) -> Option<(serde_json::Value, nat)>;

/// The compact JSON text that `serde_json::to_string` writes for `v`.
pub uninterp spec fn compact_text(v: serde_json::Value) -> Seq<char>;

/// Relies on serde_json's `StreamDeserializer` over a slice: `next` reads one
/// value that starts at `s[start]` (which is not whitespace, so a value is
/// attempted), and `byte_offset` then gives how far the reader got.
#[verifier::external_body]
pub(crate) fn parse_value_at(s: &[u8], start: usize) -> (r: (
    Option<Result<serde_json::Value, serde_json::Error>>,
    usize,
))
    requires
        start < s@.len(),
        !crate::framing::is_ws(s@[start as int]),
    ensures
        r.0 is Some,
        (r.0 matches Some(Ok(_))) <==> value_read(s@.subrange(start as int, s@.len() as int))
            is Some,
        r.0 matches Some(Ok(v)) ==> {
            &&& value_read(s@.subrange(start as int, s@.len() as int)) == Some((v, r.1 as nat))
            &&& 0 < r.1 <= s@.len() - start
        },
{
    let mut values = serde_json::Deserializer::from_slice(&s[start..]).into_iter::<serde_json::Value>();
    let first = values.next();
    (first, values.byte_offset())
}

/// Relies on `serde_json::to_string`: a `Value` always serializes (its map
/// keys are strings and its `Serialize` impl does not fail); the compact
/// writer emits no whitespace between tokens and escapes every control
/// character inside strings, so the text is never empty and holds no line feed.
#[verifier::external_body]
pub(crate) fn encode_value(v: &serde_json::Value) -> (r: Result<String, serde_json::Error>)
    ensures
        r is Ok,
        r->Ok_0@ == compact_text(*v),
        r->Ok_0@.len() > 0,
        forall|i: int| 0 <= i < r->Ok_0@.len() ==> r->Ok_0@[i] != '\n',
{
    serde_json::to_string(v)
}

} // verus!
