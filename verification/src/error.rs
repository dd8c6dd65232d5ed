//! The ways in which decoding fails.

use vstd::prelude::*;

verus! {

/// Why a document could not be turned into a native value.
#[derive(Clone, Copy, Debug, PartialEq, Eq, Structural)]
pub enum DecodeError {
    /// The payload of an `N` shorthand is not a number.
    NumericCoercion,
    /// The document holds an `NS`, `SS` or `BS` shorthand, which is not
    /// decoded.
    UnimplementedShorthand,
    /// The layout breaks its own rules: an unknown tag, or a cursor that
    /// leaves the document. This is a defect of whoever produced the
    /// document, not of the text it was parsed from.
    InternalConsistency,
    /// The document nests containers more deeply than the budget allows.
    DepthLimit,
}

/// What the document source reports of text that is not JSON.
#[derive(Clone, Debug, PartialEq, Eq)]
pub struct ParseFailure {
    pub message: String,
    /// Offset in bytes of the place where parsing stopped.
    pub offset: usize,
}

/// Why text could not be decoded.
#[derive(Clone, Debug, PartialEq, Eq)]
pub enum DeserializeError {
    /// The text is not JSON.
    Syntax { message: String, offset: usize },
    /// The text is JSON, and its tree could not be decoded.
    Decode(DecodeError),
}

/// A `DeserializeError` with its message as a sequence of characters.
pub enum DeserializeErrorView {
    Syntax { message: Seq<char>, offset: usize },
    Decode(DecodeError),
}

impl View for DeserializeError {
    type V = DeserializeErrorView;

    open spec fn view(&self) -> DeserializeErrorView {
        match self {
            DeserializeError::Syntax { message, offset } => DeserializeErrorView::Syntax {
                message: message@,
                offset: *offset,
            },
            DeserializeError::Decode(e) => DeserializeErrorView::Decode(*e),
        }
    }
}

} // verus!
