//! Streams the elements of a top-level JSON array out as JSON Lines.
//!
//! `framing` describes, over the input bytes, where each element of the array
//! lies; `stream` pulls the elements one at a time against that description;
//! `arrays` shows what the pulls find in an array written out from its
//! elements; `lines` turns an encoded element into one output line; `date` and `field`
//! decode the optional, custom-formatted fields of typed records.
mod json;

pub mod arrays;
pub mod date;
pub mod field;
pub mod framing;
pub mod lines;
pub mod stream;
