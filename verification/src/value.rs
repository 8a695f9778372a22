//! The semi-structured source values that the decoder reads.

use vstd::prelude::*;

verus! {

/// One schema-tagged source value.
///
/// Floating-point numbers are carried as their IEEE-754 bit patterns, so that
/// a value is made of integers, bytes and text only.
#[derive(Debug, PartialEq)]
pub enum Value {
    /// The absent value.
    Null,
    /// A boolean.
    Boolean(bool),
    /// A 32-bit integer.
    Int(i32),
    /// A 64-bit integer.
    Long(i64),
    /// A single-precision number, as its bit pattern.
    Float(u32),
    /// A double-precision number, as its bit pattern.
    Double(u64),
    /// A byte sequence.
    Bytes(Vec<u8>),
    /// A text.
    String(String),
    /// A fixed-size byte sequence with its declared size.
    Fixed(usize, Vec<u8>),
    /// An enumeration symbol with its position in the symbol list.
    Enum(u32, String),
    /// A union: the index of the chosen branch and the value it holds.
    Union(u32, Box<Value>),
    /// An array of values.
    Array(Vec<Value>),
    /// A map from text keys to values, as its entries.
    Mapping(Vec<(String, Value)>),
    /// A record: its fields in the order of the writer schema.
    Record(Vec<(String, Value)>),
    /// A date, in days since the epoch.
    Date(i32),
    /// A decimal, as its big-endian unscaled bytes.
    Decimal(Vec<u8>),
    /// An arbitrary-precision decimal, as its text.
    BigDecimal(String),
    /// A time of day in milliseconds.
    TimeMillis(i32),
    /// A time of day in microseconds.
    TimeMicros(i64),
    /// A timestamp in milliseconds.
    TimestampMillis(i64),
    /// A timestamp in microseconds.
    TimestampMicros(i64),
    /// A timestamp in nanoseconds.
    TimestampNanos(i64),
    /// A local timestamp in milliseconds.
    LocalTimestampMillis(i64),
    /// A local timestamp in microseconds.
    LocalTimestampMicros(i64),
    /// A local timestamp in nanoseconds.
    LocalTimestampNanos(i64),
    /// A duration in months, days and milliseconds.
    Duration(u32, u32, u32),
    /// A universally unique identifier.
    Uuid(u128),
}

/// The variant of a [`Value`], without what it holds.
#[derive(Clone, Copy, Debug, PartialEq, Eq, Structural)]
pub enum ValueKind {
    Null,
    Boolean,
    Int,
    Long,
    Float,
    Double,
    Bytes,
    String,
    Fixed,
    Enum,
    Union,
    Array,
    Mapping,
    Record,
    Date,
    Decimal,
    BigDecimal,
    TimeMillis,
    TimeMicros,
    TimestampMillis,
    TimestampMicros,
    TimestampNanos,
    LocalTimestampMillis,
    LocalTimestampMicros,
    LocalTimestampNanos,
    Duration,
    Uuid,
}

/// The fields of a record value.
pub type Record = Vec<(String, Value)>;

impl Value {
    /// The variant of this value.
    pub open spec fn spec_kind(&self) -> ValueKind {
        match *self {
            Value::Null => ValueKind::Null,
            Value::Boolean(_) => ValueKind::Boolean,
            Value::Int(_) => ValueKind::Int,
            Value::Long(_) => ValueKind::Long,
            Value::Float(_) => ValueKind::Float,
            Value::Double(_) => ValueKind::Double,
            Value::Bytes(_) => ValueKind::Bytes,
            Value::String(_) => ValueKind::String,
            Value::Fixed(_, _) => ValueKind::Fixed,
            Value::Enum(_, _) => ValueKind::Enum,
            Value::Union(_, _) => ValueKind::Union,
            Value::Array(_) => ValueKind::Array,
            Value::Mapping(_) => ValueKind::Mapping,
            Value::Record(_) => ValueKind::Record,
            Value::Date(_) => ValueKind::Date,
            Value::Decimal(_) => ValueKind::Decimal,
            Value::BigDecimal(_) => ValueKind::BigDecimal,
            Value::TimeMillis(_) => ValueKind::TimeMillis,
            Value::TimeMicros(_) => ValueKind::TimeMicros,
            Value::TimestampMillis(_) => ValueKind::TimestampMillis,
            Value::TimestampMicros(_) => ValueKind::TimestampMicros,
            Value::TimestampNanos(_) => ValueKind::TimestampNanos,
            Value::LocalTimestampMillis(_) => ValueKind::LocalTimestampMillis,
            Value::LocalTimestampMicros(_) => ValueKind::LocalTimestampMicros,
            Value::LocalTimestampNanos(_) => ValueKind::LocalTimestampNanos,
            Value::Duration(_, _, _) => ValueKind::Duration,
            Value::Uuid(_) => ValueKind::Uuid,
        }
    }

    /// The variant of this value.
    #[verifier::when_used_as_spec(spec_kind)]
    pub fn kind(&self) -> (k: ValueKind)
        ensures
            k == self.spec_kind(),
    {
        match *self {
            Value::Null => ValueKind::Null,
            Value::Boolean(_) => ValueKind::Boolean,
            Value::Int(_) => ValueKind::Int,
            Value::Long(_) => ValueKind::Long,
            Value::Float(_) => ValueKind::Float,
            Value::Double(_) => ValueKind::Double,
            Value::Bytes(_) => ValueKind::Bytes,
            Value::String(_) => ValueKind::String,
            Value::Fixed(_, _) => ValueKind::Fixed,
            Value::Enum(_, _) => ValueKind::Enum,
            Value::Union(_, _) => ValueKind::Union,
            Value::Array(_) => ValueKind::Array,
            Value::Mapping(_) => ValueKind::Mapping,
            Value::Record(_) => ValueKind::Record,
            Value::Date(_) => ValueKind::Date,
            Value::Decimal(_) => ValueKind::Decimal,
            Value::BigDecimal(_) => ValueKind::BigDecimal,
            Value::TimeMillis(_) => ValueKind::TimeMillis,
            Value::TimeMicros(_) => ValueKind::TimeMicros,
            Value::TimestampMillis(_) => ValueKind::TimestampMillis,
            Value::TimestampMicros(_) => ValueKind::TimestampMicros,
            Value::TimestampNanos(_) => ValueKind::TimestampNanos,
            Value::LocalTimestampMillis(_) => ValueKind::LocalTimestampMillis,
            Value::LocalTimestampMicros(_) => ValueKind::LocalTimestampMicros,
            Value::LocalTimestampNanos(_) => ValueKind::LocalTimestampNanos,
            Value::Duration(_, _, _) => ValueKind::Duration,
            Value::Uuid(_) => ValueKind::Uuid,
        }
    }
}

/// The value with one level of union tagging taken off: the branch that a
/// union carries, whatever its index, and any other value itself.
pub open spec fn unwrap_union(v: Value) -> Value {
    match v {
        Value::Union(_, inner) => *inner,
        _ => v,
    }
}

/// Takes one level of union tagging off a value.
pub fn maybe_resolve_union(value: &Value) -> (r: &Value)
    ensures
        *r == unwrap_union(*value),
{
    match value {
        Value::Union(_, b) => b,
        _ => value,
    }
}

} // verus!
