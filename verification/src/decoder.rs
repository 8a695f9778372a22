//! The decoder: the column builder, the nested list builder and the batch
//! assembler.

use std::collections::HashMap;
use vstd::prelude::*;
use vstd::string::*;
use crate::bitmap::Bitmap;
use crate::column::{
    BatchView, blobs_view, Column, columns_view, columns_well_formed, ColumnView, integers_view,
    offsets_view, RecordBatch, texts_view,
};
use crate::datatype::{DataType, Field, TypeKind};
use crate::dictionary::StringDictionaryBuilder;
use crate::error::{DecodeError, ErrorView};
use crate::laws::law_row_count;
use crate::lists::{
    build_wrapped_list_array, flatten_rows, list_validity, read_boolean_list_values,
    read_float_list_values, read_integer_list_values, string_values,
};
use crate::model::{
    batch_of, binary_column, boolean_column, cell, cells, dictionary_column, dictionary_of,
    element_column, field_column, field_lookup_spec, fixed_cell, fixed_column, float_column,
    index_views, integer_column, join_path, key_capacity, lemma_struct_columns_prefix_err,
    lenient_texts, list_column, record_of, records_of, Row, row_views, RowView, Slot, slot_views,
    slots, slots_or, struct_column, struct_columns, top_row, top_shape, utf8_column,
};
use crate::number::{as_int, Native, Number};
use crate::resolve::{
    blob_view, bytes_view, resolve_boolean, resolve_boolean_spec, resolve_bytes, resolve_bytes_spec,
    resolve_fixed, resolve_fixed_spec, resolve_item, resolve_item_spec, resolve_number,
    resolve_string, resolve_string_spec, source_number, text_view,
};
use crate::schema::{join_dotted, schema_lookup, schema_lookup_spec, SchemaIndex, WriterSchema};
use crate::seqs::{collect, distinct, lemma_collect_prefix_err, lemma_distinct_prefix};
use crate::value::{maybe_resolve_union, Value, ValueKind};

verus! {

/// A column, or a failure, as their views.
pub open spec fn column_result(r: Result<Column, DecodeError>) -> Result<ColumnView, ErrorView> {
    match r {
        Ok(column) => Ok(column@),
        Err(e) => Err(e@),
    }
}

/// Columns, or a failure, as their views.
pub open spec fn columns_result(r: Result<Vec<Column>, DecodeError>) -> Result<
    Seq<ColumnView>,
    ErrorView,
> {
    match r {
        Ok(columns) => Ok(columns_view(columns@)),
        Err(e) => Err(e@),
    }
}

/// Optional texts, or a failure, as their views.
pub open spec fn texts_result(r: Result<Vec<Option<String>>, DecodeError>) -> Result<
    Seq<Option<Seq<char>>>,
    ErrorView,
> {
    match r {
        Ok(texts) => Ok(texts_view(texts@)),
        Err(e) => Err(e@),
    }
}

/// Decodes buffered source values into batches of columns laid out by a
/// target schema.
pub struct AvroDecoder {
    /// The values that await a pass, each with the identifier of the writer
    /// schema that it was written with.
    pub buffer: Vec<(u32, Value)>,
    /// The index of each writer schema that has been registered.
    pub lookup: HashMap<u32, SchemaIndex>,
    /// The target schema.
    pub schema: Vec<Field>,
}

/// The value that a row holds under a path.
pub fn field_lookup<'b>(name: &String, row: &Row<'b>) -> (r: Option<&'b Value>)
    ensures
        match r {
            Some(v) => field_lookup_spec(row@, name@) == Some(*v),
            None => field_lookup_spec(row@, name@) is None,
        },
{
    match row.record {
        None => None,
        Some(fields) => match row.index.get(name) {
            Some(position) => if position < fields.len() {
                Some(&fields[position].1)
            } else {
                None
            },
            None => None,
        },
    }
}

/// The values that the rows hold under a path, a miss counting as the value
/// `missing`.
pub fn extract_rows<'b>(rows: &Vec<Row<'b>>, name: &String, missing: &'b Value) -> (r: Vec<Slot<'b>>)
    ensures
        slot_views(r@) == slots_or(row_views(rows@), name@, *missing),
{
    let mut out: Vec<Slot<'b>> = Vec::with_capacity(rows.len());
    let mut i: usize = 0;
    while i < rows.len()
        invariant
            i <= rows.len(),
            out@.len() == i,
            forall|j: int|
                0 <= j < i ==> (#[trigger] out@[j])@ == slots_or(
                    row_views(rows@),
                    name@,
                    *missing,
                )[j],
        decreases rows.len() - i,
    {
        let value = match field_lookup(name, &rows[i]) {
            Some(v) => v,
            None => missing,
        };
        out.push(Slot { index: rows[i].index, value });
        i = i + 1;
    }
    assert(slot_views(out@) =~= slots_or(row_views(rows@), name@, *missing));
    out
}

/// Builds a column of booleans.
pub fn build_boolean_array(rows: &Vec<Row>, col_name: &String) -> (r: Column)
    ensures
        r@ == boolean_column(cells(row_views(rows@), col_name@)),
{
    let mut values: Vec<Option<bool>> = Vec::with_capacity(rows.len());
    let mut i: usize = 0;
    while i < rows.len()
        invariant
            i <= rows.len(),
            values@.len() == i,
            forall|j: int|
                0 <= j < i ==> (#[trigger] values@[j]) == resolve_boolean_spec(
                    cell(rows@[j]@, col_name@),
                ),
        decreases rows.len() - i,
    {
        let value = match field_lookup(col_name, &rows[i]) {
            Some(value) => resolve_boolean(value),
            None => None,
        };
        values.push(value);
        i = i + 1;
    }
    assert(values@ =~= boolean_column(cells(row_views(rows@), col_name@))->Boolean_values);
    Column::Boolean { values }
}

/// Builds a column of integers of the given type.
pub fn build_primitive_array(rows: &Vec<Row>, col_name: &String, native: Native) -> (r: Column)
    ensures
        r@ == integer_column(cells(row_views(rows@), col_name@), native),
{
    let mut values: Vec<Option<i128>> = Vec::with_capacity(rows.len());
    let mut i: usize = 0;
    while i < rows.len()
        invariant
            i <= rows.len(),
            values@.len() == i,
            forall|j: int|
                0 <= j < i ==> as_int(#[trigger] values@[j]) == resolve_item_spec(
                    cell(rows@[j]@, col_name@),
                    native,
                ),
        decreases rows.len() - i,
    {
        let value = match field_lookup(col_name, &rows[i]) {
            Some(value) => resolve_item(value, native),
            None => None,
        };
        values.push(value);
        i = i + 1;
    }
    assert(integers_view(values@) =~= integer_column(
        cells(row_views(rows@), col_name@),
        native,
    )->Integer_values);
    Column::Integer { values }
}

/// Builds a floating-point column: the source number of each row.
pub fn build_float_array(rows: &Vec<Row>, col_name: &String) -> (r: Column)
    ensures
        r@ == float_column(cells(row_views(rows@), col_name@)),
{
    let mut values: Vec<Option<Number>> = Vec::with_capacity(rows.len());
    let mut i: usize = 0;
    while i < rows.len()
        invariant
            i <= rows.len(),
            values@.len() == i,
            forall|j: int|
                0 <= j < i ==> (#[trigger] values@[j]) == source_number(cell(rows@[j]@, col_name@)),
        decreases rows.len() - i,
    {
        let value = match field_lookup(col_name, &rows[i]) {
            Some(value) => resolve_number(value),
            None => None,
        };
        values.push(value);
        i = i + 1;
    }
    assert(values@ =~= float_column(cells(row_views(rows@), col_name@))->Float_values);
    Column::Float { values }
}

/// Builds a column of texts. The first value that the text resolver fails on
/// fails the column.
pub fn build_string_array(rows: &Vec<Row>, col_name: &String) -> (r: Result<Column, DecodeError>)
    ensures
        column_result(r) == utf8_column(cells(row_views(rows@), col_name@)),
{
    let ghost items = Seq::new(
        rows@.len(),
        |i: int| resolve_string_spec(cells(row_views(rows@), col_name@)[i]),
    );
    let mut values: Vec<Option<String>> = Vec::with_capacity(rows.len());
    let mut i: usize = 0;
    assert(texts_view(values@) =~= Seq::empty());
    while i < rows.len()
        invariant
            i <= rows.len(),
            items == Seq::new(
                rows@.len(),
                |i: int| resolve_string_spec(cells(row_views(rows@), col_name@)[i]),
            ),
            collect(items.take(i as int)) == Ok::<Seq<Option<Seq<char>>>, ErrorView>(
                texts_view(values@),
            ),
        decreases rows.len() - i,
    {
        assert(items.take(i + 1).drop_last() == items.take(i as int));
        let resolved = match field_lookup(col_name, &rows[i]) {
            Some(value) => resolve_string(value),
            None => Ok(None),
        };
        assert(text_view(resolved) == items[i as int]);
        match resolved {
            Ok(text) => {
                let ghost before = texts_view(values@);
                values.push(text);
                assert(texts_view(values@) =~= before.push(items[i as int]->Ok_0));
            },
            Err(e) => {
                proof {
                    lemma_collect_prefix_err(items, i + 1);
                }
                return Err(e);
            },
        }
        i = i + 1;
    }
    assert(items.take(i as int) == items);
    Ok(Column::Utf8 { values })
}

/// Builds a column of byte sequences. The first value that the byte resolver
/// fails on fails the column.
pub fn build_binary_array(rows: &Vec<Row>, col_name: &String) -> (r: Result<Column, DecodeError>)
    ensures
        column_result(r) == binary_column(cells(row_views(rows@), col_name@), col_name@),
{
    let ghost items = Seq::new(
        rows@.len(),
        |i: int| resolve_bytes_spec(cells(row_views(rows@), col_name@)[i], col_name@),
    );
    let mut values: Vec<Option<Vec<u8>>> = Vec::with_capacity(rows.len());
    let mut i: usize = 0;
    assert(blobs_view(values@) =~= Seq::empty());
    while i < rows.len()
        invariant
            i <= rows.len(),
            items == Seq::new(
                rows@.len(),
                |i: int| resolve_bytes_spec(cells(row_views(rows@), col_name@)[i], col_name@),
            ),
            collect(items.take(i as int)) == Ok::<Seq<Option<Seq<u8>>>, ErrorView>(
                blobs_view(values@),
            ),
        decreases rows.len() - i,
    {
        assert(items.take(i + 1).drop_last() == items.take(i as int));
        let resolved = match field_lookup(col_name, &rows[i]) {
            Some(value) => resolve_bytes(value, col_name),
            None => Ok(None),
        };
        assert(blob_view(resolved) == items[i as int]);
        match resolved {
            Ok(bytes) => {
                let ghost before = blobs_view(values@);
                values.push(bytes);
                assert(blobs_view(values@) =~= before.push(items[i as int]->Ok_0));
            },
            Err(e) => {
                proof {
                    lemma_collect_prefix_err(items, i + 1);
                }
                return Err(e);
            },
        }
        i = i + 1;
    }
    assert(items.take(i as int) == items);
    Ok(Column::Binary { values })
}

/// Builds a column of byte sequences of one size. A value whose bytes are
/// not as many as its declared size fails the column.
pub fn build_fixed_size_binary_array(rows: &Vec<Row>, col_name: &String, size: i32) -> (r: Result<
    Column,
    DecodeError,
>)
    ensures
        column_result(r) == fixed_column(cells(row_views(rows@), col_name@), size, col_name@),
{
    if size < 0 {
        return Err(DecodeError::UnsupportedType { kind: TypeKind::FixedSizeBinary(size) });
    }
    let width: usize = size as usize;
    let ghost items = Seq::new(
        rows@.len(),
        |i: int| fixed_cell(cells(row_views(rows@), col_name@)[i], size as int, col_name@),
    );
    let mut values: Vec<Option<Vec<u8>>> = Vec::with_capacity(rows.len());
    let mut i: usize = 0;
    assert(blobs_view(values@) =~= Seq::empty());
    while i < rows.len()
        invariant
            i <= rows.len(),
            size >= 0,
            width == size,
            items == Seq::new(
                rows@.len(),
                |i: int| fixed_cell(cells(row_views(rows@), col_name@)[i], size as int, col_name@),
            ),
            collect(items.take(i as int)) == Ok::<Seq<Option<Seq<u8>>>, ErrorView>(
                blobs_view(values@),
            ),
        decreases rows.len() - i,
    {
        assert(items.take(i + 1).drop_last() == items.take(i as int));
        let resolved = match field_lookup(col_name, &rows[i]) {
            Some(value) => resolve_fixed(value, width),
            None => None,
        };
        assert(bytes_view(resolved) == resolve_fixed_spec(cell(rows@[i as int]@, col_name@), width));
        let ghost before = blobs_view(values@);
        match resolved {
            Some(bytes) => {
                if bytes.len() != width {
                    proof {
                        lemma_collect_prefix_err(items, i + 1);
                    }
                    return Err(
                        DecodeError::ShapeMismatch {
                            expected: ValueKind::Fixed,
                            actual: ValueKind::Fixed,
                            path: col_name.clone(),
                        },
                    );
                }
                values.push(Some(bytes));
            },
            None => {
                values.push(None);
            },
        }
        assert(blobs_view(values@) =~= before.push(items[i as int]->Ok_0));
        i = i + 1;
    }
    assert(items.take(i as int) == items);
    Ok(Column::FixedSizeBinary { size, values })
}

/// A builder of a dictionary column with keys of the given type.
pub fn build_string_dictionary_builder(native: Native) -> (r: StringDictionaryBuilder)
    ensures
        r.well_formed(),
        r.texts() == Seq::<Option<Seq<char>>>::empty(),
        r.capacity() == key_capacity(native),
{
    StringDictionaryBuilder::new(native)
}

/// Builds a dictionary column of texts with keys of the given type. A value
/// without a text is a null cell; more distinct texts than the keys can
/// number fail the column.
pub fn build_dictionary_array(rows: &Vec<Row>, col_name: &String, native: Native) -> (r: Result<
    Column,
    DecodeError,
>)
    ensures
        column_result(r) == dictionary_of(
            lenient_texts(cells(row_views(rows@), col_name@)),
            col_name@,
            key_capacity(native),
        ),
{
    let ghost texts = lenient_texts(cells(row_views(rows@), col_name@));
    let mut builder = build_string_dictionary_builder(native);
    let mut i: usize = 0;
    assert(texts.take(0) =~= builder.texts());
    while i < rows.len()
        invariant
            i <= rows.len(),
            texts == lenient_texts(cells(row_views(rows@), col_name@)),
            builder.well_formed(),
            builder.capacity() == key_capacity(native),
            builder.texts() == texts.take(i as int),
        decreases rows.len() - i,
    {
        let resolved = match field_lookup(col_name, &rows[i]) {
            Some(value) => resolve_string(value),
            None => Ok(None),
        };
        assert(text_view(resolved) == resolve_string_spec(cell(rows@[i as int]@, col_name@)));
        match resolved {
            Ok(Some(text)) => {
                match builder.append(text) {
                    Ok(_) => {},
                    Err(_) => {
                        proof {
                            assert(texts.take(i as int).push(texts[i as int]) =~= texts.take(i + 1));
                            lemma_distinct_prefix(texts, i + 1);
                        }
                        return Err(
                            DecodeError::DictionaryKeyOverflow {
                                path: col_name.clone(),
                                capacity: native.key_capacity(),
                            },
                        );
                    },
                }
            },
            _ => {
                builder.append_null();
            },
        }
        assert(texts.take(i as int).push(texts[i as int]) =~= texts.take(i + 1));
        i = i + 1;
    }
    proof {
        assert(texts.take(i as int) == texts);
        builder.lemma_within_capacity();
    }
    Ok(builder.finish())
}

/// Builds a dictionary column: the values must be texts and the keys of an
/// integer type.
pub fn build_string_dictionary_array(
    rows: &Vec<Row>,
    col_name: &String,
    key_type: &DataType,
    value_type: &DataType,
) -> (r: Result<Column, DecodeError>)
    ensures
        column_result(r) == dictionary_column(
            cells(row_views(rows@), col_name@),
            col_name@,
            *key_type,
            *value_type,
        ),
{
    if let DataType::Utf8 = value_type {
        match key_type.integer() {
            Some(native) => build_dictionary_array(rows, col_name, native),
            None => Err(DecodeError::UnsupportedType { kind: key_type.kind() }),
        }
    } else {
        Err(DecodeError::UnsupportedType { kind: TypeKind::Dictionary })
    }
}

/// The records that stand in the slots where a struct is built: the
/// validity bit and the row of each, or the first failure.
pub fn struct_rows<'a>(values: &Vec<Slot<'a>>, path: &String) -> (r: Result<
    (Bitmap, Vec<Row<'a>>),
    DecodeError,
>)
    ensures
        match r {
            Ok((validity, rows)) => {
                &&& records_of(slot_views(values@), path@) is Ok
                &&& records_of(slot_views(values@), path@)->Ok_0.len() == values@.len()
                &&& validity@ == Seq::new(
                    values@.len(),
                    |i: int| records_of(slot_views(values@), path@)->Ok_0[i].0,
                )
                &&& row_views(rows@) == Seq::new(
                    values@.len(),
                    |i: int| records_of(slot_views(values@), path@)->Ok_0[i].1,
                )
            },
            Err(e) => records_of(slot_views(values@), path@) == Err::<
                Seq<(bool, RowView)>,
                ErrorView,
            >(e@),
        },
{
    let ghost items = Seq::new(
        values@.len(),
        |i: int| record_of(slot_views(values@)[i], path@),
    );
    let ghost mut records: Seq<(bool, RowView)> = Seq::empty();
    let mut validity = Bitmap::zeroed(values.len());
    let mut rows: Vec<Row<'a>> = Vec::with_capacity(values.len());
    let mut i: usize = 0;
    assert(validity@ =~= Seq::new(values@.len(), |j: int| j < 0 && records[j].0));
    while i < values.len()
        invariant
            i <= values.len(),
            items == Seq::new(values@.len(), |i: int| record_of(slot_views(values@)[i], path@)),
            collect(items.take(i as int)) == Ok::<Seq<(bool, RowView)>, ErrorView>(records),
            records.len() == i,
            rows@.len() == i,
            forall|j: int| 0 <= j < i ==> (#[trigger] rows@[j])@ == records[j].1,
            validity@ == Seq::new(values@.len(), |j: int| j < i && records[j].0),
        decreases values.len() - i,
    {
        assert(items.take(i + 1).drop_last() == items.take(i as int));
        let slot = values[i];
        let ghost before = records;
        assert(items[i as int] == record_of(slot@, path@));
        match maybe_resolve_union(slot.value) {
            Value::Record(fields) => {
                validity.set(i);
                rows.push(Row { index: slot.index, record: Some(fields) });
            },
            Value::Null => {
                rows.push(Row { index: slot.index, record: None });
            },
            other => {
                proof {
                    lemma_collect_prefix_err(items, i + 1);
                }
                return Err(
                    DecodeError::ShapeMismatch {
                        expected: ValueKind::Record,
                        actual: other.kind(),
                        path: path.clone(),
                    },
                );
            },
        }
        proof {
            records = before.push(items[i as int]->Ok_0);
            assert(validity@ =~= Seq::new(values@.len(), |j: int| j < i + 1 && records[j].0));
        }
        i = i + 1;
    }
    proof {
        assert(items.take(i as int) == items);
        assert(validity@ =~= Seq::new(values@.len(), |i: int| records[i].0));
        assert(row_views(rows@) =~= Seq::new(values@.len(), |i: int| records[i].1));
    }
    Ok((validity, rows))
}

/// Builds the list column that stands at `parent_field_name`, with the
/// element field `list_field`, from the values of its rows.
pub fn build_nested_list_array(parent_field_name: &String, rows: &Vec<Slot>, list_field: &Field) -> (r:
    Result<Column, DecodeError>)
    ensures
        column_result(r) == list_column(slot_views(rows@), parent_field_name@, *list_field),
    decreases list_field, 1nat,
{
    let (flat, offsets) = flatten_rows(rows);
    let validity = list_validity(rows);
    match build_list_elements(parent_field_name, &flat, list_field) {
        Ok(child) => {
            let ghost child_view = child@;
            let column = Column::List { offsets, validity, child: Box::new(child) };
            assert(column@ == ColumnView::List {
                offsets: offsets_view(offsets@),
                validity: validity@,
                child: Box::new(child_view),
            });
            Ok(column)
        },
        Err(e) => Err(e),
    }
}

/// Builds the column of the elements of the list that stands at
/// `parent_field_name`.
pub fn build_list_elements(parent_field_name: &String, values: &Vec<Slot>, list_field: &Field) -> (r:
    Result<Column, DecodeError>)
    ensures
        column_result(r) == element_column(slot_views(values@), parent_field_name@, *list_field),
    decreases list_field, 0nat,
{
    match &list_field.data_type {
        DataType::Null => Ok(Column::Null { len: values.len() }),
        DataType::Boolean => Ok(read_boolean_list_values(values)),
        DataType::Float32 => Ok(read_float_list_values(values)),
        DataType::Float64 => Ok(read_float_list_values(values)),
        DataType::Utf8 => Ok(Column::Utf8 { values: string_values(values) }),
        DataType::LargeUtf8 => Ok(Column::Utf8 { values: string_values(values) }),
        DataType::List(field) => build_nested_list_array(parent_field_name, values, field),
        DataType::LargeList(field) => build_nested_list_array(parent_field_name, values, field),
        DataType::Struct(fields) => {
            let sub_parent_field_name = join_dotted(
                parent_field_name.as_str(),
                list_field.name.as_str(),
            );
            build_struct_column(values, &sub_parent_field_name, fields)
        },
        datatype => match datatype.integer() {
            Some(native) => Ok(read_integer_list_values(values, native)),
            None => Err(
                DecodeError::NestedTypeUnsupported {
                    kind: datatype.kind(),
                    path: parent_field_name.clone(),
                },
            ),
        },
    }
}

/// Builds the struct column that stands at `path` from the values of its
/// rows: the validity bits, and a child column for each field.
pub fn build_struct_column(values: &Vec<Slot>, path: &String, fields: &Vec<Field>) -> (r: Result<
    Column,
    DecodeError,
>)
    ensures
        column_result(r) == struct_column(slot_views(values@), path@, fields@),
    decreases fields, 1nat,
{
    match struct_rows(values, path) {
        Err(e) => Err(e),
        Ok((validity, struct_rows)) => {
            proof {
                let records = records_of(slot_views(values@), path@)->Ok_0;
                assert(row_views(struct_rows@) =~= Seq::new(records.len(), |i: int| records[i].1));
                assert(validity@ =~= Seq::new(records.len(), |i: int| records[i].0));
            }
            match build_struct_array(&struct_rows, path.as_str(), fields) {
                Ok(children) => Ok(Column::Struct { validity, children }),
                Err(e) => Err(e),
            }
        },
    }
}

/// Builds the column of the field that stands at `field_path` and has the
/// declared type `data_type`.
pub fn build_column(rows: &Vec<Row>, field_path: &String, data_type: &DataType) -> (r: Result<
    Column,
    DecodeError,
>)
    ensures
        column_result(r) == field_column(row_views(rows@), field_path@, *data_type),
    decreases data_type, 0nat,
{
    match data_type {
        DataType::Null => Ok(Column::Null { len: rows.len() }),
        DataType::Boolean => Ok(build_boolean_array(rows, field_path)),
        DataType::Float32 => Ok(build_float_array(rows, field_path)),
        DataType::Float64 => Ok(build_float_array(rows, field_path)),
        DataType::Utf8 => build_string_array(rows, field_path),
        DataType::LargeUtf8 => build_string_array(rows, field_path),
        DataType::Binary => build_binary_array(rows, field_path),
        DataType::LargeBinary => build_binary_array(rows, field_path),
        DataType::FixedSizeBinary(size) => build_fixed_size_binary_array(rows, field_path, *size),
        DataType::List(list_field) => {
            match &list_field.data_type {
                DataType::Dictionary(key_ty, _) => build_wrapped_list_array(
                    rows,
                    field_path,
                    key_ty,
                ),
                _ => {
                    let null = Value::Null;
                    let extracted_rows = extract_rows(rows, field_path, &null);
                    assert(slot_views(extracted_rows@) =~= slots(row_views(rows@), field_path@));
                    build_nested_list_array(field_path, &extracted_rows, list_field)
                },
            }
        },
        DataType::Dictionary(key_ty, val_ty) => build_string_dictionary_array(
            rows,
            field_path,
            key_ty,
            val_ty,
        ),
        DataType::Struct(fields) => {
            let null = Value::Null;
            let extracted_rows = extract_rows(rows, field_path, &null);
            assert(slot_views(extracted_rows@) =~= slots(row_views(rows@), field_path@));
            build_struct_column(&extracted_rows, field_path, fields)
        },
        other => match other.native() {
            Some(native) => Ok(build_primitive_array(rows, field_path, native)),
            None => Err(DecodeError::UnsupportedType { kind: other.kind() }),
        },
    }
}

/// Builds the columns of the fields of the struct that stands at
/// `parent_field_name`, in the order of the fields. The first field that
/// fails fails them all.
#[verifier::loop_isolation(false)]
pub fn build_struct_array(rows: &Vec<Row>, parent_field_name: &str, struct_fields: &Vec<Field>) -> (r:
    Result<Vec<Column>, DecodeError>)
    ensures
        columns_result(r) == struct_columns(row_views(rows@), parent_field_name@, struct_fields@),
    decreases struct_fields, 0nat,
{
    let mut arrays: Vec<Column> = Vec::with_capacity(struct_fields.len());
    let mut i: usize = 0;
    while i < struct_fields.len()
        invariant
            i <= struct_fields.len(),
            struct_columns(row_views(rows@), parent_field_name@, struct_fields@.take(i as int)) == Ok::<
                Seq<ColumnView>,
                ErrorView,
            >(columns_view(arrays@)),
        decreases struct_fields.len() - i,
    {
        assert(struct_fields@.take(i + 1).drop_last() == struct_fields@.take(i as int));
        let field = &struct_fields[i];
        let field_path = if parent_field_name.is_empty() {
            field.name.clone()
        } else {
            join_dotted(parent_field_name, field.name.as_str())
        };
        assert(field_path@ == join_path(parent_field_name@, field.name@));
        match build_column(rows, &field_path, &field.data_type) {
            Ok(arr) => {
                let ghost before = arrays@;
                arrays.push(arr);
                assert(arrays@.drop_last() == before);
            },
            Err(e) => {
                proof {
                    lemma_struct_columns_prefix_err(
                        row_views(rows@),
                        parent_field_name@,
                        struct_fields@,
                        i + 1,
                    );
                }
                return Err(e);
            },
        }
        i = i + 1;
    }
    assert(struct_fields@.take(i as int) == struct_fields@);
    Ok(arrays)
}

/// A batch, or a failure, as their views.
pub open spec fn batch_result(r: Result<RecordBatch, DecodeError>) -> Result<BatchView, ErrorView> {
    match r {
        Ok(batch) => Ok(batch@),
        Err(e) => Err(e@),
    }
}

impl AvroDecoder {
    /// What a pass over the decoder gives: the batch of the buffered values
    /// under the target schema and the registered indexes, or the failure.
    pub open spec fn pass(&self) -> Result<BatchView, ErrorView> {
        batch_of(self.buffer@, index_views(self.lookup@), self.schema@)
    }

    /// A decoder for the given target schema, with nothing buffered and no
    /// writer schema registered.
    pub fn new(schema: Vec<Field>) -> (r: AvroDecoder)
        ensures
            r.buffer@.len() == 0,
            r.lookup@ == Map::<u32, SchemaIndex>::empty(),
            r.schema == schema,
    {
        AvroDecoder { buffer: Vec::new(), lookup: HashMap::new(), schema }
    }

    /// Registers the writer schema that values name by `schema_id`: builds
    /// its index and keeps it in place of any earlier one. A schema that is
    /// not a record is refused and changes nothing.
    pub fn register_schema(&mut self, schema_id: u32, schema: WriterSchema) -> (r: Result<
        (),
        DecodeError,
    >)
        ensures
            final(self).buffer == old(self).buffer,
            final(self).schema == old(self).schema,
            match r {
                Ok(_) => {
                    &&& schema_lookup_spec(schema) is Ok
                    &&& index_views(final(self).lookup@) == index_views(old(self).lookup@).insert(
                        schema_id,
                        schema_lookup_spec(schema)->Ok_0,
                    )
                },
                Err(e) => {
                    &&& schema_lookup_spec(schema) == Err::<Map<Seq<char>, usize>, ErrorView>(e@)
                    &&& final(self).lookup == old(self).lookup
                },
            },
    {
        match schema_lookup(schema) {
            Ok(index) => {
                self.lookup.insert(schema_id, index);
                assert(index_views(self.lookup@) =~= index_views(old(self).lookup@).insert(
                    schema_id,
                    schema_lookup_spec(schema)->Ok_0,
                ));
                Ok(())
            },
            Err(e) => Err(e),
        }
    }

    /// Adds one value, with the identifier of the writer schema that it was
    /// written with, to the values that await a pass.
    pub fn append_value(&mut self, value: (u32, Value))
        ensures
            final(self).buffer@ == old(self).buffer@.push(value),
            final(self).lookup == old(self).lookup,
            final(self).schema == old(self).schema,
    {
        self.buffer.push(value)
    }

    /// Flushes nothing: the decoder holds no partly built batch.
    pub fn flush(&mut self) -> (r: Result<Option<RecordBatch>, DecodeError>)
        ensures
            r == Ok::<Option<RecordBatch>, DecodeError>(None),
            *final(self) == *old(self),
    {
        Ok(None)
    }

    /// Decodes all buffered values into one batch and empties the buffer.
    ///
    /// Every buffered value must be a record, and the writer schema of each
    /// must have been registered; the first value that is no record fails
    /// the pass before any other failure. The batch has a column for each
    /// field of the target schema, in its order, and a row for each buffered
    /// value. A failure of one row or one column fails the pass.
    #[verifier::loop_isolation(false)]
    pub fn next_batch(&mut self, _batch_size: usize) -> (r: Option<Result<RecordBatch, DecodeError>>)
        ensures
            r is Some,
            batch_result(r->Some_0) == old(self).pass(),
            final(self).buffer@.len() == 0,
            final(self).lookup == old(self).lookup,
            final(self).schema == old(self).schema,
            r matches Some(Ok(batch)) ==> {
                &&& batch@.num_rows == old(self).buffer@.len()
                &&& batch@.columns.len() == old(self).schema@.len()
                &&& columns_well_formed(batch@.columns, old(self).buffer@.len())
            },
    {
        proof {
            if batch_of(self.buffer@, index_views(self.lookup@), self.schema@) is Ok {
                law_row_count(self.buffer@, index_views(self.lookup@), self.schema@);
            }
        }
        let mut buffer: Vec<(u32, Value)> = Vec::new();
        std::mem::swap(&mut buffer, &mut self.buffer);
        let ghost items = Seq::new(
            buffer@.len(),
            |i: int| top_row(buffer@[i], index_views(self.lookup@)),
        );
        let ghost shapes = Seq::new(buffer@.len(), |i: int| top_shape(buffer@[i]));
        let mut k: usize = 0;
        while k < buffer.len()
            invariant
                k <= buffer.len(),
                collect(shapes.take(k as int)) is Ok,
                forall|j: int| 0 <= j < k ==> (#[trigger] buffer@[j]).1 is Record,
            decreases buffer.len() - k,
        {
            assert(shapes.take(k + 1).drop_last() == shapes.take(k as int));
            match &buffer[k].1 {
                Value::Record(_) => {},
                other => {
                    proof {
                        lemma_collect_prefix_err(shapes, k + 1);
                    }
                    return Some(
                        Err(
                            DecodeError::ShapeMismatch {
                                expected: ValueKind::Record,
                                actual: other.kind(),
                                path: String::new(),
                            },
                        ),
                    );
                },
            }
            k = k + 1;
        }
        assert(shapes.take(k as int) == shapes);
        let mut rows: Vec<Row> = Vec::with_capacity(buffer.len());
        let mut i: usize = 0;
        assert(row_views(rows@) =~= Seq::empty());
        while i < buffer.len()
            invariant
                i <= buffer.len(),
                collect(items.take(i as int)) == Ok::<Seq<RowView>, ErrorView>(row_views(rows@)),
            decreases buffer.len() - i,
        {
            assert(items.take(i + 1).drop_last() == items.take(i as int));
            assert(buffer@[i as int].1 is Record);
            match &buffer[i].1 {
                Value::Record(fields) => match self.lookup.get(&buffer[i].0) {
                    Some(index) => {
                        let ghost before = row_views(rows@);
                        rows.push(Row { index, record: Some(fields) });
                        assert(row_views(rows@) =~= before.push(items[i as int]->Ok_0));
                    },
                    None => {
                        proof {
                            lemma_collect_prefix_err(items, i + 1);
                        }
                        return Some(
                            Err(DecodeError::SchemaResolutionFailed { schema_id: buffer[i].0 }),
                        );
                    },
                },
                _ => {},
            }
            i = i + 1;
        }
        assert(items.take(i as int) == items);
        let root = String::new();
        let arrays = build_struct_array(&rows, root.as_str(), &self.schema);
        Some(
            match arrays {
                Ok(columns) => Ok(RecordBatch { num_rows: buffer.len(), columns }),
                Err(e) => Err(e),
            },
        )
    }
}

} // verus!
