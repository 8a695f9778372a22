//! The columns that the decoder builds, and the batch that holds them.

use vstd::prelude::*;
use crate::bitmap::Bitmap;
use crate::number::Number;

verus! {

/// One column: the cells of one field of the target schema, one per row.
///
/// A column holds data only. Which type it was built for stands in the
/// target schema.
#[derive(Debug, PartialEq)]
#[allow(inconsistent_fields)]
pub enum Column {
    /// A column of nothing but nulls.
    Null { len: usize },
    /// Booleans.
    Boolean { values: Vec<Option<bool>> },
    /// Integers, dates, times and timestamps, each within the range of the
    /// integer type of the declared type.
    Integer { values: Vec<Option<i128>> },
    /// The source numbers of a floating-point column, to be rounded to the
    /// declared width.
    Float { values: Vec<Option<Number>> },
    /// Texts.
    Utf8 { values: Vec<Option<String>> },
    /// Byte sequences.
    Binary { values: Vec<Option<Vec<u8>>> },
    /// Byte sequences of one size.
    FixedSizeBinary { size: i32, values: Vec<Option<Vec<u8>>> },
    /// Dictionary-encoded texts: the distinct texts in the order in which
    /// they first came, and for each row the position of its text among them.
    Dictionary { keys: Vec<Option<u64>>, values: Vec<String> },
    /// Lists: row `i` holds the cells of `child` from `offsets[i]` up to
    /// `offsets[i + 1]`.
    List { offsets: Vec<usize>, validity: Bitmap, child: Box<Column> },
    /// Structs: one child column for each field.
    Struct { validity: Bitmap, children: Vec<Column> },
}

/// A [`Column`] as mathematical sequences.
#[allow(inconsistent_fields)]
pub enum ColumnView {
    Null { len: nat },
    Boolean { values: Seq<Option<bool>> },
    Integer { values: Seq<Option<int>> },
    Float { values: Seq<Option<Number>> },
    Utf8 { values: Seq<Option<Seq<char>>> },
    Binary { values: Seq<Option<Seq<u8>>> },
    FixedSizeBinary { size: int, values: Seq<Option<Seq<u8>>> },
    Dictionary { keys: Seq<Option<int>>, values: Seq<Seq<char>> },
    List { offsets: Seq<int>, validity: Seq<bool>, child: Box<ColumnView> },
    Struct { validity: Seq<bool>, children: Seq<ColumnView> },
}

/// Optional integers as mathematical ones.
pub open spec fn integers_view(values: Seq<Option<i128>>) -> Seq<Option<int>> {
    Seq::new(
        values.len(),
        |i: int|
            match values[i] {
                Some(n) => Some(n as int),
                None => None,
            },
    )
}

/// Optional keys as mathematical integers.
pub open spec fn keys_view(keys: Seq<Option<u64>>) -> Seq<Option<int>> {
    Seq::new(
        keys.len(),
        |i: int|
            match keys[i] {
                Some(n) => Some(n as int),
                None => None,
            },
    )
}

/// Optional texts as sequences of characters.
pub open spec fn texts_view(values: Seq<Option<String>>) -> Seq<Option<Seq<char>>> {
    Seq::new(
        values.len(),
        |i: int|
            match values[i] {
                Some(s) => Some(s@),
                None => None,
            },
    )
}

/// Texts as sequences of characters.
pub open spec fn strings_view(values: Seq<String>) -> Seq<Seq<char>> {
    Seq::new(values.len(), |i: int| values[i]@)
}

/// Optional byte vectors as sequences of bytes.
pub open spec fn blobs_view(values: Seq<Option<Vec<u8>>>) -> Seq<Option<Seq<u8>>> {
    Seq::new(
        values.len(),
        |i: int|
            match values[i] {
                Some(b) => Some(b@),
                None => None,
            },
    )
}

/// Offsets as mathematical integers.
pub open spec fn offsets_view(offsets: Seq<usize>) -> Seq<int> {
    Seq::new(offsets.len(), |i: int| offsets[i] as int)
}

/// The view of a column.
pub open spec fn column_view(column: Column) -> ColumnView
    decreases column,
{
    match column {
        Column::Null { len } => ColumnView::Null { len: len as nat },
        Column::Boolean { values } => ColumnView::Boolean { values: values@ },
        Column::Integer { values } => ColumnView::Integer { values: integers_view(values@) },
        Column::Float { values } => ColumnView::Float { values: values@ },
        Column::Utf8 { values } => ColumnView::Utf8 { values: texts_view(values@) },
        Column::Binary { values } => ColumnView::Binary { values: blobs_view(values@) },
        Column::FixedSizeBinary { size, values } => ColumnView::FixedSizeBinary {
            size: size as int,
            values: blobs_view(values@),
        },
        Column::Dictionary { keys, values } => ColumnView::Dictionary {
            keys: keys_view(keys@),
            values: strings_view(values@),
        },
        Column::List { offsets, validity, child } => ColumnView::List {
            offsets: offsets_view(offsets@),
            validity: validity@,
            child: Box::new(column_view(*child)),
        },
        Column::Struct { validity, children } => ColumnView::Struct {
            validity: validity@,
            children: columns_view(children@),
        },
    }
}

/// The views of a sequence of columns.
pub open spec fn columns_view(columns: Seq<Column>) -> Seq<ColumnView>
    decreases columns,
{
    if columns.len() == 0 {
        Seq::empty()
    } else {
        columns_view(columns.drop_last()).push(column_view(columns.last()))
    }
}

impl View for Column {
    type V = ColumnView;

    open spec fn view(&self) -> ColumnView {
        column_view(*self)
    }
}

impl ColumnView {
    /// The number of rows.
    pub open spec fn len(self) -> nat {
        match self {
            ColumnView::Null { len } => len,
            ColumnView::Boolean { values } => values.len(),
            ColumnView::Integer { values } => values.len(),
            ColumnView::Float { values } => values.len(),
            ColumnView::Utf8 { values } => values.len(),
            ColumnView::Binary { values } => values.len(),
            ColumnView::FixedSizeBinary { size, values } => values.len(),
            ColumnView::Dictionary { keys, values } => keys.len(),
            ColumnView::List { offsets, validity, child } => validity.len(),
            ColumnView::Struct { validity, children } => validity.len(),
        }
    }

    /// Whether the cell of row `i` is null.
    pub open spec fn is_null(self, i: int) -> bool {
        match self {
            ColumnView::Null { len } => true,
            ColumnView::Boolean { values } => values[i] is None,
            ColumnView::Integer { values } => values[i] is None,
            ColumnView::Float { values } => values[i] is None,
            ColumnView::Utf8 { values } => values[i] is None,
            ColumnView::Binary { values } => values[i] is None,
            ColumnView::FixedSizeBinary { size, values } => values[i] is None,
            ColumnView::Dictionary { keys, values } => keys[i] is None,
            ColumnView::List { offsets, validity, child } => !validity[i],
            ColumnView::Struct { validity, children } => !validity[i],
        }
    }

    /// Whether the parts of the column fit each other, at every depth: the
    /// children of a struct have as many rows as the struct; the offsets of a
    /// list start at zero, never fall, number one more than the rows, and end
    /// at the number of rows of the child; the keys of a dictionary point
    /// into its texts, of which no two are the same; the byte sequences of a
    /// fixed-size column have that size.
    pub open spec fn well_formed(self) -> bool
        decreases self,
    {
        match self {
            ColumnView::FixedSizeBinary { size, values } => forall|i: int|
                0 <= i < values.len() ==> ((#[trigger] values[i]) matches Some(b) ==> b.len()
                    == size),
            ColumnView::Dictionary { keys, values } => {
                &&& values.no_duplicates()
                &&& forall|i: int|
                    0 <= i < keys.len() ==> ((#[trigger] keys[i]) matches Some(k) ==> 0 <= k
                        < values.len())
            },
            ColumnView::List { offsets, validity, child } => {
                &&& offsets.len() == validity.len() + 1
                &&& offsets[0] == 0
                &&& forall|i: int| 0 <= i < validity.len() ==> offsets[i] <= #[trigger] offsets[i + 1]
                &&& offsets[validity.len() as int] == child.len()
                &&& child.well_formed()
            },
            ColumnView::Struct { validity, children } => columns_well_formed(
                children,
                validity.len(),
            ),
            _ => true,
        }
    }
}

/// Whether each of the columns is well formed and has `len` rows.
pub open spec fn columns_well_formed(columns: Seq<ColumnView>, len: nat) -> bool
    decreases columns,
{
    if columns.len() == 0 {
        true
    } else {
        &&& columns_well_formed(columns.drop_last(), len)
        &&& columns.last().len() == len
        &&& columns.last().well_formed()
    }
}

impl Column {
    /// The number of rows.
    pub fn len(&self) -> (n: usize)
        ensures
            n == self@.len(),
    {
        match self {
            Column::Null { len } => *len,
            Column::Boolean { values } => values.len(),
            Column::Integer { values } => values.len(),
            Column::Float { values } => values.len(),
            Column::Utf8 { values } => values.len(),
            Column::Binary { values } => values.len(),
            Column::FixedSizeBinary { size, values } => values.len(),
            Column::Dictionary { keys, values } => keys.len(),
            Column::List { offsets, validity, child } => validity.len(),
            Column::Struct { validity, children } => validity.len(),
        }
    }
}

/// One decoded batch: a column for each field of the target schema, in the
/// order of the schema.
#[derive(Debug, PartialEq)]
pub struct RecordBatch {
    pub num_rows: usize,
    pub columns: Vec<Column>,
}

/// A [`RecordBatch`] as mathematical sequences.
pub struct BatchView {
    pub num_rows: nat,
    pub columns: Seq<ColumnView>,
}

impl View for RecordBatch {
    type V = BatchView;

    open spec fn view(&self) -> BatchView {
        BatchView { num_rows: self.num_rows as nat, columns: columns_view(self.columns@) }
    }
}

} // verus!
