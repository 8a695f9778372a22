//! The ways in which decoding fails.

use vstd::prelude::*;
use crate::datatype::TypeKind;
use crate::value::ValueKind;

verus! {

/// Why a value could not be read as text.
#[derive(Clone, Copy, Debug, PartialEq, Eq, Structural)]
pub enum StringCause {
    /// The value is a byte sequence that is not valid UTF-8.
    InvalidUtf8,
    /// The value is of a kind that has no text.
    NotAString(ValueKind),
}

/// A failure of the decoder. A failure of one column fails the whole batch.
#[derive(Debug, PartialEq)]
pub enum DecodeError {
    /// The writer schema is not a record.
    NotARecord,
    /// The target schema declares a type that the decoder cannot build.
    UnsupportedType { kind: TypeKind },
    /// A value of one kind stands where another kind was expected.
    ShapeMismatch { expected: ValueKind, actual: ValueKind, path: String },
    /// A value could not be read as text.
    StringConversion { cause: StringCause },
    /// A dictionary column holds more distinct texts than its keys can number.
    DictionaryKeyOverflow { path: String, capacity: u128 },
    /// The target schema declares a list of elements that the decoder cannot build.
    NestedTypeUnsupported { kind: TypeKind, path: String },
    /// A buffered row names a writer schema that has not been registered.
    SchemaResolutionFailed { schema_id: u32 },
}

/// A [`DecodeError`] with its texts as sequences of characters.
pub enum ErrorView {
    NotARecord,
    UnsupportedType { kind: TypeKind },
    ShapeMismatch { expected: ValueKind, actual: ValueKind, path: Seq<char> },
    StringConversion { cause: StringCause },
    DictionaryKeyOverflow { path: Seq<char>, capacity: int },
    NestedTypeUnsupported { kind: TypeKind, path: Seq<char> },
    SchemaResolutionFailed { schema_id: u32 },
}

impl View for DecodeError {
    type V = ErrorView;

    open spec fn view(&self) -> ErrorView {
        match *self {
            DecodeError::NotARecord => ErrorView::NotARecord,
            DecodeError::UnsupportedType { kind } => ErrorView::UnsupportedType { kind },
            DecodeError::ShapeMismatch { expected, actual, path } => ErrorView::ShapeMismatch {
                expected,
                actual,
                path: path@,
            },
            DecodeError::StringConversion { cause } => ErrorView::StringConversion { cause },
            DecodeError::DictionaryKeyOverflow { path, capacity } => ErrorView::DictionaryKeyOverflow {
                path: path@,
                capacity: capacity as int,
            },
            DecodeError::NestedTypeUnsupported { kind, path } => ErrorView::NestedTypeUnsupported {
                kind,
                path: path@,
            },
            DecodeError::SchemaResolutionFailed { schema_id } => ErrorView::SchemaResolutionFailed {
                schema_id,
            },
        }
    }
}

} // verus!
