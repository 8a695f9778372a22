//! The target schema: the declared types of the columns to build.

use vstd::prelude::*;
use crate::number::Native;

verus! {

/// The unit of a temporal type.
#[derive(Clone, Copy, Debug, PartialEq, Eq, Structural)]
pub enum TimeUnit {
    Second,
    Millisecond,
    Microsecond,
    Nanosecond,
}

/// The declared type of a column.
#[derive(Debug, PartialEq)]
pub enum DataType {
    Null,
    Boolean,
    Int8,
    Int16,
    Int32,
    Int64,
    UInt8,
    UInt16,
    UInt32,
    UInt64,
    Float16,
    Float32,
    Float64,
    Timestamp(TimeUnit),
    Date32,
    Date64,
    Time32(TimeUnit),
    Time64(TimeUnit),
    Duration(TimeUnit),
    Interval,
    Binary,
    LargeBinary,
    FixedSizeBinary(i32),
    Utf8,
    LargeUtf8,
    /// A list whose offsets are 32 bits wide, with its element field.
    List(Box<Field>),
    /// A list whose offsets are 64 bits wide, with its element field.
    LargeList(Box<Field>),
    /// A list of a fixed number of elements, with its element field.
    FixedSizeList(Box<Field>, i32),
    /// A nested struct, with its fields.
    Struct(Vec<Field>),
    /// A dictionary-encoded type, with its key type and its value type.
    Dictionary(Box<DataType>, Box<DataType>),
    Decimal,
    /// Any type that the decoder has no case for.
    Other,
}

/// One field of the target schema.
#[derive(Debug, PartialEq)]
pub struct Field {
    pub name: String,
    pub data_type: DataType,
    pub nullable: bool,
}

/// A declared type without its children: what an error says of a type.
#[derive(Clone, Copy, Debug, PartialEq, Eq, Structural)]
pub enum TypeKind {
    Null,
    Boolean,
    Int8,
    Int16,
    Int32,
    Int64,
    UInt8,
    UInt16,
    UInt32,
    UInt64,
    Float16,
    Float32,
    Float64,
    Timestamp(TimeUnit),
    Date32,
    Date64,
    Time32(TimeUnit),
    Time64(TimeUnit),
    Duration(TimeUnit),
    Interval,
    Binary,
    LargeBinary,
    FixedSizeBinary(i32),
    Utf8,
    LargeUtf8,
    List,
    LargeList,
    FixedSizeList,
    Struct,
    Dictionary,
    Decimal,
    Other,
}

impl DataType {
    /// The type without its children.
    pub open spec fn spec_kind(&self) -> TypeKind {
        match *self {
            DataType::Null => TypeKind::Null,
            DataType::Boolean => TypeKind::Boolean,
            DataType::Int8 => TypeKind::Int8,
            DataType::Int16 => TypeKind::Int16,
            DataType::Int32 => TypeKind::Int32,
            DataType::Int64 => TypeKind::Int64,
            DataType::UInt8 => TypeKind::UInt8,
            DataType::UInt16 => TypeKind::UInt16,
            DataType::UInt32 => TypeKind::UInt32,
            DataType::UInt64 => TypeKind::UInt64,
            DataType::Float16 => TypeKind::Float16,
            DataType::Float32 => TypeKind::Float32,
            DataType::Float64 => TypeKind::Float64,
            DataType::Timestamp(unit) => TypeKind::Timestamp(unit),
            DataType::Date32 => TypeKind::Date32,
            DataType::Date64 => TypeKind::Date64,
            DataType::Time32(unit) => TypeKind::Time32(unit),
            DataType::Time64(unit) => TypeKind::Time64(unit),
            DataType::Duration(unit) => TypeKind::Duration(unit),
            DataType::Interval => TypeKind::Interval,
            DataType::Binary => TypeKind::Binary,
            DataType::LargeBinary => TypeKind::LargeBinary,
            DataType::FixedSizeBinary(size) => TypeKind::FixedSizeBinary(size),
            DataType::Utf8 => TypeKind::Utf8,
            DataType::LargeUtf8 => TypeKind::LargeUtf8,
            DataType::List(_) => TypeKind::List,
            DataType::LargeList(_) => TypeKind::LargeList,
            DataType::FixedSizeList(_, _) => TypeKind::FixedSizeList,
            DataType::Struct(_) => TypeKind::Struct,
            DataType::Dictionary(_, _) => TypeKind::Dictionary,
            DataType::Decimal => TypeKind::Decimal,
            DataType::Other => TypeKind::Other,
        }
    }

    /// The type without its children.
    #[verifier::when_used_as_spec(spec_kind)]
    pub fn kind(&self) -> (k: TypeKind)
        ensures
            k == self.spec_kind(),
    {
        match self {
            DataType::Null => TypeKind::Null,
            DataType::Boolean => TypeKind::Boolean,
            DataType::Int8 => TypeKind::Int8,
            DataType::Int16 => TypeKind::Int16,
            DataType::Int32 => TypeKind::Int32,
            DataType::Int64 => TypeKind::Int64,
            DataType::UInt8 => TypeKind::UInt8,
            DataType::UInt16 => TypeKind::UInt16,
            DataType::UInt32 => TypeKind::UInt32,
            DataType::UInt64 => TypeKind::UInt64,
            DataType::Float16 => TypeKind::Float16,
            DataType::Float32 => TypeKind::Float32,
            DataType::Float64 => TypeKind::Float64,
            DataType::Timestamp(unit) => TypeKind::Timestamp(*unit),
            DataType::Date32 => TypeKind::Date32,
            DataType::Date64 => TypeKind::Date64,
            DataType::Time32(unit) => TypeKind::Time32(*unit),
            DataType::Time64(unit) => TypeKind::Time64(*unit),
            DataType::Duration(unit) => TypeKind::Duration(*unit),
            DataType::Interval => TypeKind::Interval,
            DataType::Binary => TypeKind::Binary,
            DataType::LargeBinary => TypeKind::LargeBinary,
            DataType::FixedSizeBinary(size) => TypeKind::FixedSizeBinary(*size),
            DataType::Utf8 => TypeKind::Utf8,
            DataType::LargeUtf8 => TypeKind::LargeUtf8,
            DataType::List(_) => TypeKind::List,
            DataType::LargeList(_) => TypeKind::LargeList,
            DataType::FixedSizeList(_, _) => TypeKind::FixedSizeList,
            DataType::Struct(_) => TypeKind::Struct,
            DataType::Dictionary(_, _) => TypeKind::Dictionary,
            DataType::Decimal => TypeKind::Decimal,
            DataType::Other => TypeKind::Other,
        }
    }

    /// The integer type of the keys, where this is an integer type.
    pub open spec fn spec_integer(&self) -> Option<Native> {
        match *self {
            DataType::Int8 => Some(Native::I8),
            DataType::Int16 => Some(Native::I16),
            DataType::Int32 => Some(Native::I32),
            DataType::Int64 => Some(Native::I64),
            DataType::UInt8 => Some(Native::U8),
            DataType::UInt16 => Some(Native::U16),
            DataType::UInt32 => Some(Native::U32),
            DataType::UInt64 => Some(Native::U64),
            _ => None,
        }
    }

    /// The integer type that this type is, if it is one of the eight.
    #[verifier::when_used_as_spec(spec_integer)]
    pub fn integer(&self) -> (n: Option<Native>)
        ensures
            n == self.spec_integer(),
    {
        match self {
            DataType::Int8 => Some(Native::I8),
            DataType::Int16 => Some(Native::I16),
            DataType::Int32 => Some(Native::I32),
            DataType::Int64 => Some(Native::I64),
            DataType::UInt8 => Some(Native::U8),
            DataType::UInt16 => Some(Native::U16),
            DataType::UInt32 => Some(Native::U32),
            DataType::UInt64 => Some(Native::U64),
            _ => None,
        }
    }

    /// The integer type that holds the cells of a column of this type, where
    /// the column is one of integers or of a temporal type with a unit that
    /// its width admits.
    pub open spec fn spec_native(&self) -> Option<Native> {
        match *self {
            DataType::Timestamp(_) => Some(Native::I64),
            DataType::Date64 => Some(Native::I64),
            DataType::Date32 => Some(Native::I32),
            DataType::Time64(unit) => match unit {
                TimeUnit::Microsecond => Some(Native::I64),
                TimeUnit::Nanosecond => Some(Native::I64),
                _ => None,
            },
            DataType::Time32(unit) => match unit {
                TimeUnit::Second => Some(Native::I32),
                TimeUnit::Millisecond => Some(Native::I32),
                _ => None,
            },
            _ => self.spec_integer(),
        }
    }

    /// The integer type that holds the cells of a column of this type.
    #[verifier::when_used_as_spec(spec_native)]
    pub fn native(&self) -> (n: Option<Native>)
        ensures
            n == self.spec_native(),
    {
        match self {
            DataType::Timestamp(_) => Some(Native::I64),
            DataType::Date64 => Some(Native::I64),
            DataType::Date32 => Some(Native::I32),
            DataType::Time64(unit) => match unit {
                TimeUnit::Microsecond => Some(Native::I64),
                TimeUnit::Nanosecond => Some(Native::I64),
                _ => None,
            },
            DataType::Time32(unit) => match unit {
                TimeUnit::Second => Some(Native::I32),
                TimeUnit::Millisecond => Some(Native::I32),
                _ => None,
            },
            _ => self.integer(),
        }
    }
}

} // verus!
