//! What decoding is: each column as a mathematical function of the rows, of
//! the path of its field and of its declared type.

use vstd::prelude::*;
use crate::column::{BatchView, ColumnView};
use crate::datatype::{DataType, Field, TypeKind};
use crate::error::ErrorView;
use crate::number::Native;
use crate::resolve::{
    resolve_boolean_spec, resolve_bytes_spec, resolve_fixed_spec, resolve_item_spec,
    resolve_string_spec, source_number,
};
use crate::schema::{dotted, map_get, SchemaIndex};
use crate::seqs::{
    collect, concat, dictionary_keys, distinct, lemma_concat_remove_empty, offsets_of,
};
use crate::value::{unwrap_union, Value, ValueKind};

verus! {

/// One row of a pass: a record, or no record at all where a struct is null,
/// with the index of the writer schema that the row was written with.
#[derive(Clone, Copy, Debug)]
pub struct Row<'a> {
    pub index: &'a SchemaIndex,
    pub record: Option<&'a Vec<(String, Value)>>,
}

/// One value of a pass with the index of the writer schema that it was
/// written with.
#[derive(Clone, Copy, Debug)]
pub struct Slot<'a> {
    pub index: &'a SchemaIndex,
    pub value: &'a Value,
}

/// A [`Row`] as mathematical values: the map of its index and the sequence
/// of its fields.
pub struct RowView {
    pub index: Map<Seq<char>, usize>,
    pub record: Option<Seq<(String, Value)>>,
}

/// A [`Slot`] as mathematical values: the map of its index and its value.
pub struct SlotView {
    pub index: Map<Seq<char>, usize>,
    pub value: Value,
}

impl<'a> View for Row<'a> {
    type V = RowView;

    open spec fn view(&self) -> RowView {
        RowView {
            index: (*self.index)@,
            record: match self.record {
                Some(fields) => Some(fields@),
                None => None,
            },
        }
    }
}

impl<'a> View for Slot<'a> {
    type V = SlotView;

    open spec fn view(&self) -> SlotView {
        SlotView { index: (*self.index)@, value: *self.value }
    }
}

/// The views of rows.
pub open spec fn row_views(rows: Seq<Row>) -> Seq<RowView> {
    Seq::new(rows.len(), |i: int| rows[i]@)
}

/// The views of slots.
pub open spec fn slot_views(slots: Seq<Slot>) -> Seq<SlotView> {
    Seq::new(slots.len(), |i: int| slots[i]@)
}

/// The maps of registered indexes.
pub open spec fn index_views(lookup: Map<u32, SchemaIndex>) -> Map<u32, Map<Seq<char>, usize>> {
    Map::new(|id: u32| lookup.dom().contains(id), |id: u32| lookup[id]@)
}

/// The path of a field under a parent path: the bare name under the empty
/// path, else the two joined by a dot.
pub open spec fn join_path(parent: Seq<char>, name: Seq<char>) -> Seq<char> {
    if parent.len() == 0 {
        name
    } else {
        dotted(parent, name)
    }
}

/// The value that a row holds under a path: the field at the position that
/// the index gives for the path. Nothing where the row has no record, the
/// index has no such path, or the record has no such position.
pub open spec fn field_lookup_spec(row: RowView, path: Seq<char>) -> Option<Value> {
    match row.record {
        None => None,
        Some(fields) => match map_get(row.index, path) {
            Some(position) => if position < fields.len() {
                Some(fields[position as int].1)
            } else {
                None
            },
            None => None,
        },
    }
}

/// The value that a row holds under a path, a miss counting as null.
pub open spec fn cell(row: RowView, path: Seq<char>) -> Value {
    match field_lookup_spec(row, path) {
        Some(v) => v,
        None => Value::Null,
    }
}

/// The values that the rows hold under a path.
pub open spec fn cells(rows: Seq<RowView>, path: Seq<char>) -> Seq<Value> {
    Seq::new(rows.len(), |i: int| cell(rows[i], path))
}

/// The values that the rows hold under a path, each with the index of its row.
pub open spec fn slots(rows: Seq<RowView>, path: Seq<char>) -> Seq<SlotView> {
    Seq::new(rows.len(), |i: int| SlotView { index: rows[i].index, value: cell(rows[i], path) })
}

/// The values that the rows hold under a path, each with the index of its
/// row, a miss counting as the given value.
pub open spec fn slots_or(rows: Seq<RowView>, path: Seq<char>, missing: Value) -> Seq<SlotView> {
    Seq::new(
        rows.len(),
        |i: int|
            SlotView {
                index: rows[i].index,
                value: match field_lookup_spec(rows[i], path) {
                    Some(v) => v,
                    None => missing,
                },
            },
    )
}

/// The values of a sequence of slots.
pub open spec fn values_of(slots: Seq<SlotView>) -> Seq<Value> {
    Seq::new(slots.len(), |i: int| slots[i].value)
}

/// A column of booleans: each value read by the boolean resolver.
pub open spec fn boolean_column(values: Seq<Value>) -> ColumnView {
    ColumnView::Boolean { values: Seq::new(values.len(), |i: int| resolve_boolean_spec(values[i])) }
}

/// A column of integers: each value read by the numeric resolver for the
/// given integer type.
pub open spec fn integer_column(values: Seq<Value>, native: Native) -> ColumnView {
    ColumnView::Integer {
        values: Seq::new(values.len(), |i: int| resolve_item_spec(values[i], native)),
    }
}

/// A floating-point column: the number that each value holds.
pub open spec fn float_column(values: Seq<Value>) -> ColumnView {
    ColumnView::Float { values: Seq::new(values.len(), |i: int| source_number(values[i])) }
}

/// The texts of the values, or the first failure of the text resolver.
pub open spec fn texts_of(values: Seq<Value>) -> Result<Seq<Option<Seq<char>>>, ErrorView> {
    collect(Seq::new(values.len(), |i: int| resolve_string_spec(values[i])))
}

/// A column of texts: each value read by the text resolver, the first
/// failure failing the column.
pub open spec fn utf8_column(values: Seq<Value>) -> Result<ColumnView, ErrorView> {
    match texts_of(values) {
        Ok(texts) => Ok(ColumnView::Utf8 { values: texts }),
        Err(e) => Err(e),
    }
}

/// What the text resolver gives, a failure counting as no text.
pub open spec fn lenient_text(v: Value) -> Option<Seq<char>> {
    match resolve_string_spec(v) {
        Ok(text) => text,
        Err(_) => None,
    }
}

/// The texts of the values, a value without a text counting as null.
pub open spec fn lenient_texts(values: Seq<Value>) -> Seq<Option<Seq<char>>> {
    Seq::new(values.len(), |i: int| lenient_text(values[i]))
}

/// A column of byte sequences: each value read by the byte resolver, the
/// first failure failing the column.
pub open spec fn binary_column(values: Seq<Value>, path: Seq<char>) -> Result<
    ColumnView,
    ErrorView,
> {
    match collect(Seq::new(values.len(), |i: int| resolve_bytes_spec(values[i], path))) {
        Ok(blobs) => Ok(ColumnView::Binary { values: blobs }),
        Err(e) => Err(e),
    }
}

/// One cell of a fixed-size column: what the fixed-size resolver gives, and
/// a failure where that is not of the declared size.
pub open spec fn fixed_cell(v: Value, size: int, path: Seq<char>) -> Result<
    Option<Seq<u8>>,
    ErrorView,
> {
    match resolve_fixed_spec(v, size as usize) {
        Some(bytes) => if bytes.len() == size {
            Ok(Some(bytes))
        } else {
            Err(
                ErrorView::ShapeMismatch {
                    expected: ValueKind::Fixed,
                    actual: ValueKind::Fixed,
                    path,
                },
            )
        },
        None => Ok(None),
    }
}

/// A column of byte sequences of one size; a negative size is not supported.
pub open spec fn fixed_column(values: Seq<Value>, size: i32, path: Seq<char>) -> Result<
    ColumnView,
    ErrorView,
> {
    if size < 0 {
        Err(ErrorView::UnsupportedType { kind: TypeKind::FixedSizeBinary(size) })
    } else {
        match collect(Seq::new(values.len(), |i: int| fixed_cell(values[i], size as int, path))) {
            Ok(cells) => Ok(ColumnView::FixedSizeBinary { size: size as int, values: cells }),
            Err(e) => Err(e),
        }
    }
}

/// The number of distinct texts that keys of an integer type can number.
pub open spec fn key_capacity(native: Native) -> int {
    native.highest() + 1
}

/// The dictionary encoding of optional texts, or a failure where there are
/// more distinct texts than the keys can number.
pub open spec fn dictionary_of(texts: Seq<Option<Seq<char>>>, path: Seq<char>, capacity: int) -> Result<
    ColumnView,
    ErrorView,
> {
    if distinct(texts).len() > capacity {
        Err(ErrorView::DictionaryKeyOverflow { path, capacity })
    } else {
        Ok(ColumnView::Dictionary { keys: dictionary_keys(texts), values: distinct(texts) })
    }
}

/// A dictionary column: the values must be texts and the keys of an integer
/// type; each value is read by the text resolver, a value without a text
/// counting as null.
pub open spec fn dictionary_column(
    values: Seq<Value>,
    path: Seq<char>,
    key_type: DataType,
    value_type: DataType,
) -> Result<ColumnView, ErrorView> {
    if value_type is Utf8 {
        match key_type.integer() {
            Some(native) => dictionary_of(lenient_texts(values), path, key_capacity(native)),
            None => Err(ErrorView::UnsupportedType { kind: key_type.kind() }),
        }
    } else {
        Err(ErrorView::UnsupportedType { kind: TypeKind::Dictionary })
    }
}

/// The texts of a value that is one row of a list of texts: the texts of the
/// elements of an array, and the one text of any other value, null giving
/// one missing text.
/// A record fails, and so does the first value that the text resolver fails
/// on.
pub open spec fn row_texts(v: Value, path: Seq<char>) -> Result<Seq<Option<Seq<char>>>, ErrorView> {
    match unwrap_union(v) {
        Value::Array(items) => texts_of(items@),
        Value::Record(_) => Err(
            ErrorView::ShapeMismatch {
                expected: ValueKind::String,
                actual: ValueKind::Record,
                path,
            },
        ),
        other => match resolve_string_spec(other) {
            Ok(text) => Ok(seq![text]),
            Err(e) => Err(e),
        },
    }
}

/// What each row holds under a path, if anything.
pub open spec fn lookups(rows: Seq<RowView>, path: Seq<char>) -> Seq<Option<Value>> {
    Seq::new(rows.len(), |i: int| field_lookup_spec(rows[i], path))
}

/// The texts of one row of a list of texts: none where the row does not
/// hold the field, and else the texts of the value.
pub open spec fn found_texts(found: Option<Value>, path: Seq<char>) -> Result<
    Seq<Option<Seq<char>>>,
    ErrorView,
> {
    match found {
        Some(v) => row_texts(v, path),
        None => Ok(Seq::empty()),
    }
}

/// The lists of texts of the rows of a list of texts, or the first failure:
/// rows are taken in order, and a row fails on its texts first and then,
/// where a capacity is given, on holding a text that the keys cannot number.
pub open spec fn text_lists(values: Seq<Option<Value>>, path: Seq<char>, capacity: Option<int>) -> Result<
    Seq<Seq<Option<Seq<char>>>>,
    ErrorView,
>
    decreases values.len(),
{
    if values.len() == 0 {
        Ok(Seq::empty())
    } else {
        match text_lists(values.drop_last(), path, capacity) {
            Err(e) => Err(e),
            Ok(lists) => match found_texts(values.last(), path) {
                Err(e) => Err(e),
                Ok(texts) => match capacity {
                    Some(c) => if distinct(concat(lists.push(texts))).len() > c {
                        Err(ErrorView::DictionaryKeyOverflow { path, capacity: c })
                    } else {
                        Ok(lists.push(texts))
                    },
                    None => Ok(lists.push(texts)),
                },
            },
        }
    }
}

/// A failure among the first `n` rows of a list of texts is the failure of
/// the whole.
pub proof fn lemma_text_lists_prefix_err(
    values: Seq<Option<Value>>,
    path: Seq<char>,
    capacity: Option<int>,
    n: int,
)
    requires
        0 <= n <= values.len(),
        text_lists(values.take(n), path, capacity) is Err,
    ensures
        text_lists(values, path, capacity) == text_lists(values.take(n), path, capacity),
    decreases values.len() - n,
{
    if n < values.len() {
        assert(values.take(n + 1).drop_last() == values.take(n));
        lemma_text_lists_prefix_err(values, path, capacity, n + 1);
    } else {
        assert(values.take(n) == values);
    }
}

/// The lists of a list of texts are the texts of its rows, one for one.
pub proof fn lemma_text_lists_items(
    values: Seq<Option<Value>>,
    path: Seq<char>,
    capacity: Option<int>,
)
    requires
        text_lists(values, path, capacity) is Ok,
    ensures
        text_lists(values, path, capacity)->Ok_0.len() == values.len(),
        forall|k: int|
            0 <= k < values.len() ==> (#[trigger] found_texts(values[k], path)) == Ok::<
                Seq<Option<Seq<char>>>,
                ErrorView,
            >(text_lists(values, path, capacity)->Ok_0[k]),
    decreases values.len(),
{
    if values.len() > 0 {
        lemma_text_lists_items(values.drop_last(), path, capacity);
        assert forall|k: int| 0 <= k < values.len() implies (#[trigger] found_texts(
            values[k],
            path,
        )) == Ok::<Seq<Option<Seq<char>>>, ErrorView>(
            text_lists(values, path, capacity)->Ok_0[k],
        ) by {
            if k < values.len() - 1 {
                assert(values.drop_last()[k] == values[k]);
            }
        }
    }
}

/// The distinct texts of a list of texts are no more than the capacity.
pub proof fn lemma_text_lists_within(values: Seq<Option<Value>>, path: Seq<char>, capacity: int)
    requires
        text_lists(values, path, Some(capacity)) is Ok,
        capacity >= 0,
    ensures
        distinct(concat(text_lists(values, path, Some(capacity))->Ok_0)).len() <= capacity,
    decreases values.len(),
{
}

/// Without a row that does not hold the field, a list of texts fails in the
/// same way, or gives the same lists without the one of that row.
pub proof fn lemma_text_lists_remove(
    values: Seq<Option<Value>>,
    path: Seq<char>,
    capacity: Option<int>,
    i: int,
)
    requires
        0 <= i < values.len(),
        values[i] is None,
        capacity matches Some(c) ==> c >= 0,
    ensures
        match text_lists(values, path, capacity) {
            Ok(lists) => text_lists(values.remove(i), path, capacity) == Ok::<
                Seq<Seq<Option<Seq<char>>>>,
                ErrorView,
            >(lists.remove(i)),
            Err(e) => text_lists(values.remove(i), path, capacity) == Err::<
                Seq<Seq<Option<Seq<char>>>>,
                ErrorView,
            >(e),
        },
    decreases values.len(),
{
    let head = text_lists(values.drop_last(), path, capacity);
    let none = Seq::<Option<Seq<char>>>::empty();
    if i == values.len() - 1 {
        assert(values.remove(i) == values.drop_last());
        if head is Ok {
            let lists = head->Ok_0;
            lemma_text_lists_items(values.drop_last(), path, capacity);
            assert(lists.push(none).drop_last() == lists);
            assert(concat(lists) + none == concat(lists));
            if capacity is Some {
                lemma_text_lists_within(values.drop_last(), path, capacity->Some_0);
            }
            assert(lists.push(none).remove(i) == lists);
        }
    } else {
        lemma_text_lists_remove(values.drop_last(), path, capacity, i);
        assert(values.remove(i).drop_last() == values.drop_last().remove(i));
        assert(values.remove(i).last() == values.last());
        if head is Ok && found_texts(values.last(), path) is Ok {
            let lists = head->Ok_0;
            let row = found_texts(values.last(), path)->Ok_0;
            lemma_text_lists_items(values.drop_last(), path, capacity);
            assert(values.drop_last()[i] == values[i]);
            assert(found_texts(values.drop_last()[i], path) == Ok::<
                Seq<Option<Seq<char>>>,
                ErrorView,
            >(lists[i]));
            assert(lists.remove(i).push(row) == lists.push(row).remove(i));
            lemma_concat_remove_empty(lists.push(row), i);
        }
    }
}

/// A list column of texts: a row is present where it holds the field, and
/// holds the texts of its value, dictionary-encoded where a capacity is
/// given and plain otherwise.
pub open spec fn text_list_column(
    values: Seq<Option<Value>>,
    path: Seq<char>,
    capacity: Option<int>,
) -> Result<ColumnView, ErrorView> {
    match text_lists(values, path, capacity) {
        Err(e) => Err(e),
        Ok(lists) => Ok(
            ColumnView::List {
                offsets: offsets_of(lists),
                validity: Seq::new(lists.len(), |i: int| values[i] is Some),
                child: Box::new(
                    match capacity {
                        Some(_) => ColumnView::Dictionary {
                            keys: dictionary_keys(concat(lists)),
                            values: distinct(concat(lists)),
                        },
                        None => ColumnView::Utf8 { values: concat(lists) },
                    },
                ),
            },
        ),
    }
}

/// A list column of texts for an element type that is text or a dictionary
/// of texts with integer keys.
pub open spec fn string_list_column(
    values: Seq<Option<Value>>,
    path: Seq<char>,
    element: DataType,
) -> Result<ColumnView, ErrorView> {
    match element {
        DataType::Utf8 => text_list_column(values, path, None),
        DataType::Dictionary(key_type, _) => match key_type.integer() {
            Some(native) => text_list_column(values, path, Some(key_capacity(native))),
            None => Err(ErrorView::UnsupportedType { kind: key_type.kind() }),
        },
        _ => Err(ErrorView::NestedTypeUnsupported { kind: element.kind(), path }),
    }
}

/// A list column of dictionary-encoded texts with keys of the given type.
pub open spec fn wrapped_list_column(
    values: Seq<Option<Value>>,
    path: Seq<char>,
    key_type: DataType,
) -> Result<ColumnView, ErrorView> {
    match key_type.integer() {
        Some(native) => text_list_column(values, path, Some(key_capacity(native))),
        None => Err(ErrorView::UnsupportedType { kind: key_type.kind() }),
    }
}

/// The elements that one row of a list column holds: the elements of an
/// array, nothing for null, and any other value as its one element.
pub open spec fn elements(slot: SlotView) -> Seq<SlotView> {
    match unwrap_union(slot.value) {
        Value::Array(items) => Seq::new(
            items@.len(),
            |i: int| SlotView { index: slot.index, value: items@[i] },
        ),
        Value::Null => Seq::empty(),
        other => seq![SlotView { index: slot.index, value: other }],
    }
}

/// Whether one row of a list column is present: it is unless it is null.
pub open spec fn present(slot: SlotView) -> bool {
    !(unwrap_union(slot.value) is Null)
}

/// The lists of elements of the rows of a list column.
pub open spec fn element_lists(slots: Seq<SlotView>) -> Seq<Seq<SlotView>> {
    Seq::new(slots.len(), |i: int| elements(slots[i]))
}

/// The elements of all rows of a list column, one row after the other.
pub open spec fn flatten_spec(slots: Seq<SlotView>) -> Seq<SlotView> {
    concat(element_lists(slots))
}

/// The texts of the elements of all rows, an element without a text counting
/// as null.
pub open spec fn flatten_strings_spec(slots: Seq<SlotView>) -> Seq<Option<Seq<char>>> {
    lenient_texts(values_of(flatten_spec(slots)))
}

/// The record that stands in a slot where a struct is built: the record and
/// a set validity bit, no record and an unset bit for null, and a failure
/// for any other value.
pub open spec fn record_of(slot: SlotView, path: Seq<char>) -> Result<(bool, RowView), ErrorView> {
    match unwrap_union(slot.value) {
        Value::Record(fields) => Ok((true, RowView { index: slot.index, record: Some(fields@) })),
        Value::Null => Ok((false, RowView { index: slot.index, record: None })),
        other => Err(
            ErrorView::ShapeMismatch { expected: ValueKind::Record, actual: other.kind(), path },
        ),
    }
}

/// The records that stand in the slots where a struct is built, or the
/// first failure.
pub open spec fn records_of(slots: Seq<SlotView>, path: Seq<char>) -> Result<
    Seq<(bool, RowView)>,
    ErrorView,
> {
    collect(Seq::new(slots.len(), |i: int| record_of(slots[i], path)))
}

/// The columns of the fields of a struct that stands at `parent`, in the
/// order of the fields, or the failure of the first field that fails.
pub open spec fn struct_columns(rows: Seq<RowView>, parent: Seq<char>, fields: Seq<Field>) -> Result<
    Seq<ColumnView>,
    ErrorView,
>
    decreases fields, 0nat,
{
    if fields.len() == 0 {
        Ok(Seq::empty())
    } else {
        match struct_columns(rows, parent, fields.drop_last()) {
            Err(e) => Err(e),
            Ok(columns) => match field_column(
                rows,
                join_path(parent, fields.last().name@),
                fields.last().data_type,
            ) {
                Err(e) => Err(e),
                Ok(column) => Ok(columns.push(column)),
            },
        }
    }
}

/// The column of the field that stands at `path` and has the declared type
/// `data_type`.
pub open spec fn field_column(rows: Seq<RowView>, path: Seq<char>, data_type: DataType) -> Result<
    ColumnView,
    ErrorView,
>
    decreases data_type, 0nat,
{
    match data_type {
        DataType::Null => Ok(ColumnView::Null { len: rows.len() }),
        DataType::Boolean => Ok(boolean_column(cells(rows, path))),
        DataType::Float32 => Ok(float_column(cells(rows, path))),
        DataType::Float64 => Ok(float_column(cells(rows, path))),
        DataType::Utf8 => utf8_column(cells(rows, path)),
        DataType::LargeUtf8 => utf8_column(cells(rows, path)),
        DataType::Binary => binary_column(cells(rows, path), path),
        DataType::LargeBinary => binary_column(cells(rows, path), path),
        DataType::FixedSizeBinary(size) => fixed_column(cells(rows, path), size, path),
        DataType::List(element) => match element.data_type {
            DataType::Dictionary(key_type, _) => wrapped_list_column(
                lookups(rows, path),
                path,
                *key_type,
            ),
            _ => list_column(slots(rows, path), path, *element),
        },
        DataType::Dictionary(key_type, value_type) => dictionary_column(
            cells(rows, path),
            path,
            *key_type,
            *value_type,
        ),
        DataType::Struct(fields) => struct_column(slots(rows, path), path, fields@),
        _ => match data_type.native() {
            Some(native) => Ok(integer_column(cells(rows, path), native)),
            None => Err(ErrorView::UnsupportedType { kind: data_type.kind() }),
        },
    }
}

/// A struct column that stands at `path`: the records of the slots give the
/// validity bits and the rows of the children.
pub open spec fn struct_column(slots: Seq<SlotView>, path: Seq<char>, fields: Seq<Field>) -> Result<
    ColumnView,
    ErrorView,
>
    decreases fields, 1nat,
{
    match records_of(slots, path) {
        Err(e) => Err(e),
        Ok(records) => match struct_columns(
            Seq::new(records.len(), |i: int| records[i].1),
            path,
            fields,
        ) {
            Err(e) => Err(e),
            Ok(children) => Ok(
                ColumnView::Struct {
                    validity: Seq::new(records.len(), |i: int| records[i].0),
                    children,
                },
            ),
        },
    }
}

/// A list column that stands at `path`, with the element field `element`:
/// the offsets and validity bits of the rows, over the column of all their
/// elements.
pub open spec fn list_column(slots: Seq<SlotView>, path: Seq<char>, element: Field) -> Result<
    ColumnView,
    ErrorView,
>
    decreases element, 1nat,
{
    match element_column(flatten_spec(slots), path, element) {
        Err(e) => Err(e),
        Ok(child) => Ok(
            ColumnView::List {
                offsets: offsets_of(element_lists(slots)),
                validity: Seq::new(slots.len(), |i: int| present(slots[i])),
                child: Box::new(child),
            },
        ),
    }
}

/// The column of the elements of a list that stands at `path`.
pub open spec fn element_column(slots: Seq<SlotView>, path: Seq<char>, element: Field) -> Result<
    ColumnView,
    ErrorView,
>
    decreases element, 0nat,
{
    match element.data_type {
        DataType::Null => Ok(ColumnView::Null { len: slots.len() }),
        DataType::Boolean => Ok(boolean_column(values_of(slots))),
        DataType::Float32 => Ok(float_column(values_of(slots))),
        DataType::Float64 => Ok(float_column(values_of(slots))),
        DataType::Utf8 => Ok(ColumnView::Utf8 { values: lenient_texts(values_of(slots)) }),
        DataType::LargeUtf8 => Ok(ColumnView::Utf8 { values: lenient_texts(values_of(slots)) }),
        DataType::List(inner) => list_column(slots, path, *inner),
        DataType::LargeList(inner) => list_column(slots, path, *inner),
        DataType::Struct(fields) => struct_column(slots, dotted(path, element.name@), fields@),
        _ => match element.data_type.integer() {
            Some(native) => Ok(integer_column(values_of(slots), native)),
            None => Err(
                ErrorView::NestedTypeUnsupported { kind: element.data_type.kind(), path },
            ),
        },
    }
}

/// A failure among the first `n` fields of a struct is the failure of the
/// whole.
pub proof fn lemma_struct_columns_prefix_err(
    rows: Seq<RowView>,
    parent: Seq<char>,
    fields: Seq<Field>,
    n: int,
)
    requires
        0 <= n <= fields.len(),
        struct_columns(rows, parent, fields.take(n)) is Err,
    ensures
        struct_columns(rows, parent, fields) == struct_columns(rows, parent, fields.take(n)),
    decreases fields.len() - n,
{
    if n < fields.len() {
        assert(fields.take(n + 1).drop_last() == fields.take(n));
        lemma_struct_columns_prefix_err(rows, parent, fields, n + 1);
    } else {
        assert(fields.take(n) == fields);
    }
}

/// The row that one buffered value gives: the value must be a record, and
/// the writer schema that it names must have an index among `lookup`.
pub open spec fn top_row(entry: (u32, Value), lookup: Map<u32, Map<Seq<char>, usize>>) -> Result<
    RowView,
    ErrorView,
> {
    match entry.1 {
        Value::Record(fields) => if lookup.dom().contains(entry.0) {
            Ok(RowView { index: lookup[entry.0], record: Some(fields@) })
        } else {
            Err(ErrorView::SchemaResolutionFailed { schema_id: entry.0 })
        },
        other => Err(
            ErrorView::ShapeMismatch {
                expected: ValueKind::Record,
                actual: other.kind(),
                path: Seq::empty(),
            },
        ),
    }
}

/// Whether one buffered value is a record, as every row must be.
pub open spec fn top_shape(entry: (u32, Value)) -> Result<(), ErrorView> {
    match entry.1 {
        Value::Record(_) => Ok(()),
        other => Err(
            ErrorView::ShapeMismatch {
                expected: ValueKind::Record,
                actual: other.kind(),
                path: Seq::empty(),
            },
        ),
    }
}

/// The rows that the buffered values give. The first value that is no
/// record fails them all; where every value is a record, so does the first
/// that names a writer schema without an index.
pub open spec fn top_rows(buffer: Seq<(u32, Value)>, lookup: Map<u32, Map<Seq<char>, usize>>) -> Result<
    Seq<RowView>,
    ErrorView,
> {
    match collect(Seq::new(buffer.len(), |i: int| top_shape(buffer[i]))) {
        Err(e) => Err(e),
        Ok(_) => collect(Seq::new(buffer.len(), |i: int| top_row(buffer[i], lookup))),
    }
}

/// The batch of one pass: a column for each field of the target schema, in
/// its order, over the rows that the buffered values give.
pub open spec fn batch_of(
    buffer: Seq<(u32, Value)>,
    lookup: Map<u32, Map<Seq<char>, usize>>,
    schema: Seq<Field>,
) -> Result<BatchView, ErrorView> {
    match top_rows(buffer, lookup) {
        Err(e) => Err(e),
        Ok(rows) => match struct_columns(rows, Seq::empty(), schema) {
            Err(e) => Err(e),
            Ok(columns) => Ok(BatchView { num_rows: buffer.len(), columns }),
        },
    }
}

} // verus!
