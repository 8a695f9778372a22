//! The value resolvers: each reads one source value as one scalar kind.
//!
//! Every resolver first takes one level of union tagging off the value, and
//! then looks at what is left.

use vstd::prelude::*;
use vstd::string::*;
use vstd::utf8::*;
use crate::error::{DecodeError, ErrorView, StringCause};
use crate::number::{as_int, cast_number, cast_number_spec, Native, Number};
use crate::seqs::{collect, lemma_collect_prefix_err};
use crate::value::{maybe_resolve_union, unwrap_union, Value, ValueKind};

verus! {

/// What the boolean resolver gives: the boolean that the value is, nothing
/// for a value of any other kind.
pub open spec fn resolve_boolean_spec(v: Value) -> Option<bool> {
    match unwrap_union(v) {
        Value::Boolean(b) => Some(b),
        _ => None,
    }
}

/// Reads a value as a boolean.
pub fn resolve_boolean(value: &Value) -> (r: Option<bool>)
    ensures
        r == resolve_boolean_spec(*value),
{
    match maybe_resolve_union(value) {
        Value::Boolean(b) => Some(*b),
        _ => None,
    }
}

/// The number that a value holds: integers, the two floating-point widths,
/// dates, and the times and timestamps counted in milliseconds or
/// microseconds. Nothing for a value of any other kind.
pub open spec fn source_number(v: Value) -> Option<Number> {
    match unwrap_union(v) {
        Value::Int(i) => Some(Number::Int(i as i64)),
        Value::TimeMillis(i) => Some(Number::Int(i as i64)),
        Value::Date(i) => Some(Number::Int(i as i64)),
        Value::Long(l) => Some(Number::Int(l)),
        Value::TimeMicros(l) => Some(Number::Int(l)),
        Value::TimestampMillis(l) => Some(Number::Int(l)),
        Value::TimestampMicros(l) => Some(Number::Int(l)),
        Value::Float(bits) => Some(Number::Float(bits)),
        Value::Double(bits) => Some(Number::Double(bits)),
        _ => None,
    }
}

/// Reads the number that a value holds, without casting it.
pub fn resolve_number(value: &Value) -> (r: Option<Number>)
    ensures
        r == source_number(*value),
{
    match maybe_resolve_union(value) {
        Value::Int(i) => Some(Number::Int(*i as i64)),
        Value::TimeMillis(i) => Some(Number::Int(*i as i64)),
        Value::Date(i) => Some(Number::Int(*i as i64)),
        Value::Long(l) => Some(Number::Int(*l)),
        Value::TimeMicros(l) => Some(Number::Int(*l)),
        Value::TimestampMillis(l) => Some(Number::Int(*l)),
        Value::TimestampMicros(l) => Some(Number::Int(*l)),
        Value::Float(bits) => Some(Number::Float(*bits)),
        Value::Double(bits) => Some(Number::Double(*bits)),
        _ => None,
    }
}

/// What the numeric resolver gives for an integer type: the number that the
/// value holds, cast to the type; nothing where the value holds no number or
/// the type cannot represent it.
pub open spec fn resolve_item_spec(v: Value, native: Native) -> Option<int> {
    match source_number(v) {
        Some(n) => cast_number_spec(n, native),
        None => None,
    }
}

/// Reads a value as a number of the given integer type.
pub fn resolve_item(value: &Value, native: Native) -> (r: Option<i128>)
    ensures
        as_int(r) == resolve_item_spec(*value, native),
        r matches Some(n) ==> native.holds(n as int),
{
    match resolve_number(value) {
        Some(n) => cast_number(n, native),
        None => None,
    }
}

/// What the text resolver gives: the text of a string or of an enumeration
/// symbol, the text that a byte sequence encodes, nothing for null, and a
/// failure for bytes that are not valid UTF-8 and for every other kind.
pub open spec fn resolve_string_spec(v: Value) -> Result<Option<Seq<char>>, ErrorView> {
    match unwrap_union(v) {
        Value::String(s) => Ok(Some(s@)),
        Value::Bytes(bytes) => if valid_utf8(bytes@) {
            Ok(Some(decode_utf8(bytes@)))
        } else {
            Err(ErrorView::StringConversion { cause: StringCause::InvalidUtf8 })
        },
        Value::Enum(_, symbol) => Ok(Some(symbol@)),
        Value::Null => Ok(None),
        other => Err(ErrorView::StringConversion { cause: StringCause::NotAString(other.kind()) }),
    }
}

/// An optional text, or a failure, with the texts as sequences of characters.
pub open spec fn text_view(r: Result<Option<String>, DecodeError>) -> Result<
    Option<Seq<char>>,
    ErrorView,
> {
    match r {
        Ok(Some(s)) => Ok(Some(s@)),
        Ok(None) => Ok(None),
        Err(e) => Err(e@),
    }
}

/// `std::str::from_utf8`: the text that the bytes encode where they are valid
/// UTF-8, and `None` where they are not.
#[verifier::external_body]
fn text_of(bytes: &[u8]) -> (r: Option<&str>)
    ensures
        match r {
            Some(s) => valid_utf8(bytes@) && s@ == decode_utf8(bytes@),
            None => !valid_utf8(bytes@),
        },
{
    match std::str::from_utf8(bytes) {
        Ok(text) => Some(text),
        Err(_) => None,
    }
}

/// Reads a value as text.
pub fn resolve_string(v: &Value) -> (r: Result<Option<String>, DecodeError>)
    ensures
        text_view(r) == resolve_string_spec(*v),
{
    let v = maybe_resolve_union(v);
    match v {
        Value::String(s) => Ok(Some(s.clone())),
        Value::Bytes(bytes) => match text_of(bytes.as_slice()) {
            Some(s) => Ok(Some(s.to_owned())),
            None => Err(DecodeError::StringConversion { cause: StringCause::InvalidUtf8 }),
        },
        Value::Enum(_, symbol) => Ok(Some(symbol.clone())),
        Value::Null => Ok(None),
        other => Err(DecodeError::StringConversion { cause: StringCause::NotAString(other.kind()) }),
    }
}

/// What the byte resolver gives for one element of an array: the integer,
/// where the value is a 32-bit or 64-bit integer that fits in one byte.
/// No union tagging is taken off.
pub open spec fn resolve_u8_spec(v: Value) -> Option<u8> {
    match v {
        Value::Int(n) => if 0 <= n <= 0xff {
            Some(n as u8)
        } else {
            None
        },
        Value::Long(n) => if 0 <= n <= 0xff {
            Some(n as u8)
        } else {
            None
        },
        _ => None,
    }
}

/// Reads a value as one byte.
pub fn resolve_u8(v: &Value) -> (r: Option<u8>)
    ensures
        r == resolve_u8_spec(*v),
{
    match v {
        Value::Int(n) => if 0 <= *n && *n <= 0xff {
            Some(*n as u8)
        } else {
            None
        },
        Value::Long(n) => if 0 <= *n && *n <= 0xff {
            Some(*n as u8)
        } else {
            None
        },
        _ => None,
    }
}

/// One byte of an array that is read as bytes: the byte that the element
/// is, or a failure that names the kind of the element.
pub open spec fn byte_of(item: Value, path: Seq<char>) -> Result<u8, ErrorView> {
    match resolve_u8_spec(item) {
        Some(byte) => Ok(byte),
        None => Err(
            ErrorView::ShapeMismatch { expected: ValueKind::Bytes, actual: item.kind(), path },
        ),
    }
}

/// What the byte resolver gives: a byte sequence itself, the UTF-8 encoding
/// of a string, and the bytes of an array whose elements all read as one
/// byte. An array with an element that does not fit in one byte is a
/// failure, that of its first such element. Any other kind gives nothing.
pub open spec fn resolve_bytes_spec(v: Value, path: Seq<char>) -> Result<Option<Seq<u8>>, ErrorView> {
    match unwrap_union(v) {
        Value::Bytes(bytes) => Ok(Some(bytes@)),
        Value::String(s) => Ok(Some(encode_utf8(s@))),
        Value::Array(items) => match collect(
            Seq::new(items@.len(), |i: int| byte_of(items@[i], path)),
        ) {
            Ok(bytes) => Ok(Some(bytes)),
            Err(e) => Err(e),
        },
        _ => Ok(None),
    }
}

/// An optional byte vector, or a failure, as their views.
pub open spec fn blob_view(r: Result<Option<Vec<u8>>, DecodeError>) -> Result<
    Option<Seq<u8>>,
    ErrorView,
> {
    match r {
        Ok(Some(bytes)) => Ok(Some(bytes@)),
        Ok(None) => Ok(None),
        Err(e) => Err(e@),
    }
}

/// An optional byte vector as an optional sequence of bytes.
pub open spec fn bytes_view(o: Option<Vec<u8>>) -> Option<Seq<u8>> {
    match o {
        Some(bytes) => Some(bytes@),
        None => None,
    }
}

/// Copies a byte vector.
pub fn copy_bytes(bytes: &Vec<u8>) -> (r: Vec<u8>)
    ensures
        r@ == bytes@,
{
    let mut out: Vec<u8> = Vec::new();
    let mut i: usize = 0;
    while i < bytes.len()
        invariant
            i <= bytes.len(),
            out@ == bytes@.take(i as int),
        decreases bytes.len() - i,
    {
        out.push(bytes[i]);
        i = i + 1;
    }
    out
}

/// Reads a value as a byte sequence. `path` is where the value stands, for
/// the failure to name.
#[verifier::loop_isolation(false)]
pub fn resolve_bytes(v: &Value, path: &String) -> (r: Result<Option<Vec<u8>>, DecodeError>)
    ensures
        blob_view(r) == resolve_bytes_spec(*v, path@),
{
    let inner = maybe_resolve_union(v);
    match inner {
        Value::Bytes(bytes) => Ok(Some(copy_bytes(bytes))),
        Value::String(s) => Ok(Some(s.as_str().as_bytes_vec())),
        Value::Array(items) => {
            let ghost results = Seq::new(items@.len(), |i: int| byte_of(items@[i], path@));
            let mut out: Vec<u8> = Vec::with_capacity(items.len());
            let mut i: usize = 0;
            while i < items.len()
                invariant
                    i <= items.len(),
                    collect(results.take(i as int)) == Ok::<Seq<u8>, ErrorView>(out@),
                decreases items.len() - i,
            {
                assert(results.take(i + 1).drop_last() == results.take(i as int));
                match resolve_u8(&items[i]) {
                    Some(byte) => out.push(byte),
                    None => {
                        proof {
                            lemma_collect_prefix_err(results, i + 1);
                        }
                        return Err(
                            DecodeError::ShapeMismatch {
                                expected: ValueKind::Bytes,
                                actual: items[i].kind(),
                                path: path.clone(),
                            },
                        );
                    },
                }
                i = i + 1;
            }
            assert(results.take(i as int) == results);
            Ok(Some(out))
        },
        _ => Ok(None),
    }
}

/// What the fixed-size resolver gives: the bytes of a fixed-size value whose
/// declared size is the one asked for, and nothing for anything else.
pub open spec fn resolve_fixed_spec(v: Value, size: usize) -> Option<Seq<u8>> {
    match unwrap_union(v) {
        Value::Fixed(n, bytes) => if n == size {
            Some(bytes@)
        } else {
            None
        },
        _ => None,
    }
}

/// Reads a value as a byte sequence of a declared size.
pub fn resolve_fixed(v: &Value, size: usize) -> (r: Option<Vec<u8>>)
    ensures
        bytes_view(r) == resolve_fixed_spec(*v, size),
{
    let v = maybe_resolve_union(v);
    match v {
        Value::Fixed(n, bytes) => {
            if *n == size {
                Some(copy_bytes(bytes))
            } else {
                None
            }
        },
        _ => None,
    }
}

} // verus!
