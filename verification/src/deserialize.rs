//! The entry point, and the sizing rule applied before a text is parsed.

use crate::decode::{node_value, parse_node, MAX_DEPTH};
use crate::error::{DeserializeError, DeserializeErrorView, ParseFailure};
use crate::node::{yyjson_doc_get_root, NodeView, YyjsonDoc};
use crate::value::{NativeValue, Value};
use vstd::prelude::*;

verus! {

/// The most memory in bytes that parsing a text of `len` bytes can take.
pub open spec fn read_max_memory(len: int) -> int {
    12 * len + 256
}

/// The most memory in bytes that parsing a text of `len` bytes can take.
pub fn yyjson_read_max_memory_usage(len: usize) -> (usage: usize)
    requires
        read_max_memory(len as int) <= usize::MAX,
    ensures
        usage == read_max_memory(len as int),
{
    (12 * len) + 256
}

/// Where the parser takes its memory from.
#[derive(Clone, Copy, Debug, PartialEq, Eq, Structural)]
pub enum AllocatorChoice {
    /// The bounded buffer that is kept between calls.
    Reusable,
    /// General-purpose allocation.
    General,
}

/// Chooses the reusable buffer of `buffer_size` bytes where the most memory
/// that a text of `len` bytes can take is less than the buffer holds, and
/// general-purpose allocation otherwise.
pub fn select_allocator(len: usize, buffer_size: usize) -> (choice: AllocatorChoice)
    ensures
        choice == if read_max_memory(len as int) < buffer_size {
            AllocatorChoice::Reusable
        } else {
            AllocatorChoice::General
        },
{
    if len > (usize::MAX - 256) / 12 {
        AllocatorChoice::General
    } else if yyjson_read_max_memory_usage(len) < buffer_size {
        AllocatorChoice::Reusable
    } else {
        AllocatorChoice::General
    }
}

/// The model of a result of the entry point.
pub open spec fn deserialized(r: Result<NativeValue, DeserializeError>) -> Result<
    Value,
    DeserializeErrorView,
> {
    match r {
        Ok(v) => Ok(v@),
        Err(e) => Err(e@),
    }
}

/// What a parsed document decodes to from its root, or the syntax error that
/// the document source reported in its place.
pub open spec fn document_value(
    parsed: Result<Seq<NodeView>, (Seq<char>, usize)>,
    root: int,
) -> Result<Value, DeserializeErrorView> {
    match parsed {
        Err((message, offset)) => Err(DeserializeErrorView::Syntax { message, offset }),
        Ok(vals) => match node_value(vals, root, MAX_DEPTH as nat) {
            Ok(v) => Ok(v),
            Err(e) => Err(DeserializeErrorView::Decode(e)),
        },
    }
}

/// The model of what the document source hands over.
pub open spec fn parsed_view(parsed: Result<YyjsonDoc, ParseFailure>) -> Result<
    Seq<NodeView>,
    (Seq<char>, usize),
> {
    match parsed {
        Ok(doc) => Ok(doc@),
        Err(failure) => Err((failure.message@, failure.offset)),
    }
}

/// The place of the root in what the document source hands over.
pub open spec fn parsed_root(parsed: Result<YyjsonDoc, ParseFailure>) -> int {
    match parsed {
        Ok(doc) => doc.root as int,
        Err(_) => 0,
    }
}

/// Decodes what the document source made of a text.
///
/// A failure of the source comes back as a syntax error with the source's
/// message and byte offset. A document is decoded from its root with room for
/// `MAX_DEPTH` containers inside one another.
pub fn deserialize_yyjson(parsed: Result<YyjsonDoc, ParseFailure>) -> (r: Result<
    NativeValue,
    DeserializeError,
>)
    ensures
        deserialized(r) == document_value(parsed_view(parsed), parsed_root(parsed)),
{
    match parsed {
        Err(failure) => Err(
            DeserializeError::Syntax { message: failure.message, offset: failure.offset },
        ),
        Ok(doc) => {
            let root: usize = yyjson_doc_get_root(&doc);
            match parse_node(&doc, root, MAX_DEPTH) {
                Ok(ret) => Ok(ret),
                Err(e) => Err(DeserializeError::Decode(e)),
            }
        },
    }
}

} // verus!
