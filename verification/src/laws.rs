//! What holds of every pass of the decoder.

use vstd::prelude::*;
use crate::column::{BatchView, columns_well_formed, ColumnView, RecordBatch};
use crate::datatype::{DataType, Field};
use crate::decoder::{AvroDecoder, batch_result};
use crate::error::{DecodeError, ErrorView};
use crate::model::{
    batch_of, binary_column, cells, element_column, element_lists, field_column, field_lookup_spec,
    fixed_cell, flatten_spec, index_views, join_path, key_capacity, lemma_text_lists_items,
    lemma_text_lists_remove, lemma_text_lists_within, lenient_texts, list_column, lookups,
    record_of, records_of, RowView, slots, SlotView, struct_column, struct_columns,
    text_list_column, text_lists, top_row, top_rows, top_shape, utf8_column,
};
use crate::resolve::{resolve_bytes_spec, resolve_string_spec};
use crate::schema::{index_schema, resolves, WriterSchema};
use crate::seqs::{
    collect, concat, dictionary_keys, distinct, lemma_collect_first_err, lemma_collect_items,
    lemma_collect_remove, lemma_concat_remove_empty, lemma_distinct_contains,
    lemma_distinct_no_duplicates, lemma_distinct_remove_none, lemma_offsets_ends,
    lemma_offsets_step, offsets_of,
};
use crate::value::{unwrap_union, Value, ValueKind};

verus! {

/// The offsets of lists number one more than the lists, start at zero,
/// never fall, and end at the number of all items.
pub proof fn lemma_offsets_shape<T>(lists: Seq<Seq<T>>)
    ensures
        offsets_of(lists).len() == lists.len() + 1,
        offsets_of(lists)[0] == 0,
        forall|i: int|
            0 <= i < lists.len() ==> offsets_of(lists)[i] <= #[trigger] offsets_of(lists)[i + 1],
        offsets_of(lists)[lists.len() as int] == concat(lists).len(),
{
    lemma_offsets_ends(lists);
    assert forall|i: int| 0 <= i < lists.len() implies offsets_of(lists)[i] <= #[trigger] offsets_of(
        lists,
    )[i + 1] by {
        lemma_offsets_step(lists, i);
    }
}

/// A dictionary encoding has a key for each text, every key points at one of
/// the distinct texts, and no two of those are the same.
pub proof fn lemma_dictionary_shape(texts: Seq<Option<Seq<char>>>)
    ensures
        (ColumnView::Dictionary {
            keys: dictionary_keys(texts),
            values: distinct(texts),
        }).well_formed(),
{
    lemma_distinct_no_duplicates(texts);
    assert forall|i: int| 0 <= i < dictionary_keys(texts).len() implies ((
    #[trigger] dictionary_keys(texts)[i]) matches Some(k) ==> 0 <= k < distinct(texts).len()) by {
        if texts[i] is Some {
            lemma_distinct_contains(texts, i);
        }
    }
}

/// A list column of texts has a row for each value and is well formed.
pub proof fn lemma_text_list_shape(
    values: Seq<Option<Value>>,
    path: Seq<char>,
    capacity: Option<int>,
)
    requires
        text_list_column(values, path, capacity) is Ok,
    ensures
        text_list_column(values, path, capacity)->Ok_0.len() == values.len(),
        text_list_column(values, path, capacity)->Ok_0.well_formed(),
{
    let lists = text_lists(values, path, capacity)->Ok_0;
    lemma_text_lists_items(values, path, capacity);
    lemma_offsets_shape(lists);
    lemma_dictionary_shape(concat(lists));
    let child = text_list_column(values, path, capacity)->Ok_0->List_child;
    assert(child.well_formed());
    assert(child.len() == concat(lists).len());
}

/// The columns of the fields of a struct are as many as the fields, have a
/// row for each row of the struct, and are well formed.
pub proof fn lemma_struct_columns_shape(rows: Seq<RowView>, parent: Seq<char>, fields: Seq<Field>)
    requires
        struct_columns(rows, parent, fields) is Ok,
    ensures
        struct_columns(rows, parent, fields)->Ok_0.len() == fields.len(),
        columns_well_formed(struct_columns(rows, parent, fields)->Ok_0, rows.len()),
    decreases fields, 0nat,
{
    if fields.len() > 0 {
        lemma_struct_columns_shape(rows, parent, fields.drop_last());
        lemma_field_column_shape(
            rows,
            join_path(parent, fields.last().name@),
            fields.last().data_type,
        );
        let columns = struct_columns(rows, parent, fields)->Ok_0;
        assert(columns.drop_last() == struct_columns(rows, parent, fields.drop_last())->Ok_0);
    }
}

/// The column of a field has a row for each row of the pass and is well
/// formed.
pub proof fn lemma_field_column_shape(rows: Seq<RowView>, path: Seq<char>, data_type: DataType)
    requires
        field_column(rows, path, data_type) is Ok,
    ensures
        field_column(rows, path, data_type)->Ok_0.len() == rows.len(),
        field_column(rows, path, data_type)->Ok_0.well_formed(),
    decreases data_type, 0nat,
{
    let values = cells(rows, path);
    match data_type {
        DataType::Utf8 => {
            lemma_collect_items(Seq::new(values.len(), |i: int| resolve_string_spec(values[i])));
        },
        DataType::LargeUtf8 => {
            lemma_collect_items(Seq::new(values.len(), |i: int| resolve_string_spec(values[i])));
        },
        DataType::Binary => {
            lemma_collect_items(Seq::new(values.len(), |i: int| resolve_bytes_spec(values[i], path)));
        },
        DataType::LargeBinary => {
            lemma_collect_items(Seq::new(values.len(), |i: int| resolve_bytes_spec(values[i], path)));
        },
        DataType::FixedSizeBinary(size) => {
            let items = Seq::new(values.len(), |i: int| fixed_cell(values[i], size as int, path));
            lemma_collect_items(items);
            let built = collect(items)->Ok_0;
            assert forall|i: int| 0 <= i < built.len() implies ((#[trigger] built[i]) matches Some(
                b,
            ) ==> b.len() == size) by {
                assert(items[i] == Ok::<Option<Seq<u8>>, ErrorView>(built[i]));
            }
        },
        DataType::List(element) => match element.data_type {
            DataType::Dictionary(key_type, _) => {
                lemma_text_list_shape(
                    lookups(rows, path),
                    path,
                    Some(key_capacity(key_type.integer()->Some_0)),
                );
            },
            _ => {
                lemma_list_column_shape(slots(rows, path), path, *element);
            },
        },
        DataType::Dictionary(key_type, value_type) => {
            lemma_dictionary_shape(lenient_texts(values));
        },
        DataType::Struct(fields) => {
            lemma_struct_column_shape(slots(rows, path), path, fields@);
        },
        _ => {},
    }
}

/// A struct column has a row for each slot and is well formed.
pub proof fn lemma_struct_column_shape(slots: Seq<SlotView>, path: Seq<char>, fields: Seq<Field>)
    requires
        struct_column(slots, path, fields) is Ok,
    ensures
        struct_column(slots, path, fields)->Ok_0.len() == slots.len(),
        struct_column(slots, path, fields)->Ok_0.well_formed(),
    decreases fields, 1nat,
{
    let records = records_of(slots, path)->Ok_0;
    lemma_collect_items(Seq::new(slots.len(), |i: int| record_of(slots[i], path)));
    lemma_struct_columns_shape(Seq::new(records.len(), |i: int| records[i].1), path, fields);
}

/// A list column has a row for each slot and is well formed.
pub proof fn lemma_list_column_shape(slots: Seq<SlotView>, path: Seq<char>, element: Field)
    requires
        list_column(slots, path, element) is Ok,
    ensures
        list_column(slots, path, element)->Ok_0.len() == slots.len(),
        list_column(slots, path, element)->Ok_0.well_formed(),
    decreases element, 1nat,
{
    lemma_element_column_shape(flatten_spec(slots), path, element);
    lemma_offsets_shape(element_lists(slots));
}

/// The column of the elements of a list has a row for each element and is
/// well formed.
pub proof fn lemma_element_column_shape(slots: Seq<SlotView>, path: Seq<char>, element: Field)
    requires
        element_column(slots, path, element) is Ok,
    ensures
        element_column(slots, path, element)->Ok_0.len() == slots.len(),
        element_column(slots, path, element)->Ok_0.well_formed(),
    decreases element, 0nat,
{
    match element.data_type {
        DataType::List(inner) => {
            lemma_list_column_shape(slots, path, *inner);
        },
        DataType::LargeList(inner) => {
            lemma_list_column_shape(slots, path, *inner);
        },
        DataType::Struct(fields) => {
            lemma_struct_column_shape(slots, crate::schema::dotted(path, element.name@), fields@);
        },
        _ => {},
    }
}

/// Every column of a batch has exactly one row for each buffered value,
/// whatever the target schema and whatever the values hold; the columns are
/// as many as the fields of the target schema; and the parts of each column
/// fit each other at every depth.
pub proof fn law_row_count(
    buffer: Seq<(u32, Value)>,
    lookup: Map<u32, Map<Seq<char>, usize>>,
    schema: Seq<Field>,
)
    requires
        batch_of(buffer, lookup, schema) is Ok,
    ensures
        batch_of(buffer, lookup, schema)->Ok_0.num_rows == buffer.len(),
        batch_of(buffer, lookup, schema)->Ok_0.columns.len() == schema.len(),
        columns_well_formed(batch_of(buffer, lookup, schema)->Ok_0.columns, buffer.len()),
        forall|i: int|
            0 <= i < schema.len() ==> {
                &&& (#[trigger] batch_of(buffer, lookup, schema)->Ok_0.columns[i]).len()
                    == buffer.len()
                &&& batch_of(buffer, lookup, schema)->Ok_0.columns[i].well_formed()
            },
{
    let rows = top_rows(buffer, lookup)->Ok_0;
    lemma_collect_items(Seq::new(buffer.len(), |i: int| top_row(buffer[i], lookup)));
    lemma_collect_items(Seq::new(buffer.len(), |i: int| top_shape(buffer[i])));
    lemma_struct_columns_shape(rows, Seq::empty(), schema);
    let columns = batch_of(buffer, lookup, schema)->Ok_0.columns;
    assert forall|i: int| 0 <= i < schema.len() implies (#[trigger] columns[i]).len()
        == buffer.len() && columns[i].well_formed() by {
        lemma_columns_len(columns, buffer.len(), i);
    }
}

/// The columns of a struct follow its fields: column `i` is the column of
/// field `i`, built from the same rows under the path of that field,
/// wherever the fields stand in the source.
pub proof fn law_columns_follow_schema(
    rows: Seq<RowView>,
    parent: Seq<char>,
    fields: Seq<Field>,
    i: int,
)
    requires
        struct_columns(rows, parent, fields) is Ok,
        0 <= i < fields.len(),
    ensures
        struct_columns(rows, parent, fields)->Ok_0.len() == fields.len(),
        field_column(rows, join_path(parent, fields[i].name@), fields[i].data_type) == Ok::<
            ColumnView,
            ErrorView,
        >(struct_columns(rows, parent, fields)->Ok_0[i]),
    decreases fields.len(),
{
    if fields.len() > 0 {
        if struct_columns(rows, parent, fields.drop_last()) is Ok {
            lemma_struct_columns_len(rows, parent, fields.drop_last());
            if i < fields.len() - 1 {
                law_columns_follow_schema(rows, parent, fields.drop_last(), i);
            }
        }
    }
}

/// The columns of a struct are as many as its fields.
proof fn lemma_struct_columns_len(rows: Seq<RowView>, parent: Seq<char>, fields: Seq<Field>)
    requires
        struct_columns(rows, parent, fields) is Ok,
    ensures
        struct_columns(rows, parent, fields)->Ok_0.len() == fields.len(),
    decreases fields.len(),
{
    if fields.len() > 0 {
        lemma_struct_columns_len(rows, parent, fields.drop_last());
    }
}

/// Whether a column has the layout of a declared type: the variant that the
/// type asks for, integers within the range of the type, no more distinct
/// texts than the keys of a dictionary can number, and children that have
/// the layout of the types of the children.
pub open spec fn fits(column: ColumnView, data_type: DataType) -> bool
    decreases data_type,
{
    match data_type {
        DataType::Null => column is Null,
        DataType::Boolean => column is Boolean,
        DataType::Float32 => column is Float,
        DataType::Float64 => column is Float,
        DataType::Utf8 => column is Utf8,
        DataType::LargeUtf8 => column is Utf8,
        DataType::Binary => column is Binary,
        DataType::LargeBinary => column is Binary,
        DataType::FixedSizeBinary(size) => column matches ColumnView::FixedSizeBinary {
            size: built,
            values,
        } && built == size,
        DataType::List(element) => column matches ColumnView::List { offsets, validity, child }
            && fits(*child, element.data_type),
        DataType::LargeList(element) => column matches ColumnView::List {
            offsets,
            validity,
            child,
        } && fits(*child, element.data_type),
        DataType::Dictionary(key_type, value_type) => column matches ColumnView::Dictionary {
            keys,
            values,
        } && key_type.integer() matches Some(native) && values.len() <= key_capacity(native),
        DataType::Struct(fields) => column matches ColumnView::Struct { validity, children }
            && children.len() == fields@.len() && forall|i: int|
            0 <= i < fields@.len() ==> fits(#[trigger] children[i], fields@[i].data_type),
        _ => data_type.native() matches Some(native) && column matches ColumnView::Integer {
            values,
        } && forall|i: int|
            0 <= i < values.len() ==> ((#[trigger] values[i]) matches Some(n) ==> native.holds(n)),
    }
}

/// The columns of the fields of a struct have the layouts of the types of
/// the fields.
proof fn lemma_struct_columns_fit(rows: Seq<RowView>, parent: Seq<char>, fields: Seq<Field>)
    requires
        struct_columns(rows, parent, fields) is Ok,
    ensures
        struct_columns(rows, parent, fields)->Ok_0.len() == fields.len(),
        forall|i: int|
            0 <= i < fields.len() ==> fits(
                #[trigger] struct_columns(rows, parent, fields)->Ok_0[i],
                fields[i].data_type,
            ),
    decreases fields, 0nat,
{
    if fields.len() > 0 {
        lemma_struct_columns_fit(rows, parent, fields.drop_last());
        lemma_field_column_fits(
            rows,
            join_path(parent, fields.last().name@),
            fields.last().data_type,
        );
        let columns = struct_columns(rows, parent, fields)->Ok_0;
        let head = struct_columns(rows, parent, fields.drop_last())->Ok_0;
        assert forall|i: int| 0 <= i < fields.len() implies fits(
            #[trigger] columns[i],
            fields[i].data_type,
        ) by {
            if i < fields.len() - 1 {
                assert(columns[i] == head[i]);
                assert(fields.drop_last()[i] == fields[i]);
            }
        }
    }
}

/// A struct column has the layout of a struct of its fields.
proof fn lemma_struct_column_fits(slots: Seq<SlotView>, path: Seq<char>, fields: Vec<Field>)
    requires
        struct_column(slots, path, fields@) is Ok,
    ensures
        fits(struct_column(slots, path, fields@)->Ok_0, DataType::Struct(fields)),
    decreases fields@, 1nat,
{
    let records = records_of(slots, path)->Ok_0;
    lemma_struct_columns_fit(Seq::new(records.len(), |i: int| records[i].1), path, fields@);
}

/// The column of the elements of a list has the layout of the type of the
/// elements.
proof fn lemma_element_column_fits(slots: Seq<SlotView>, path: Seq<char>, element: Field)
    requires
        element_column(slots, path, element) is Ok,
    ensures
        fits(element_column(slots, path, element)->Ok_0, element.data_type),
    decreases element, 0nat,
{
    match element.data_type {
        DataType::List(inner) => {
            lemma_element_column_fits(flatten_spec(slots), path, *inner);
        },
        DataType::LargeList(inner) => {
            lemma_element_column_fits(flatten_spec(slots), path, *inner);
        },
        DataType::Struct(fields) => {
            lemma_struct_column_fits(slots, crate::schema::dotted(path, element.name@), fields);
        },
        _ => {},
    }
}

/// The column of a field has the layout of the declared type of the field.
proof fn lemma_field_column_fits(rows: Seq<RowView>, path: Seq<char>, data_type: DataType)
    requires
        field_column(rows, path, data_type) is Ok,
    ensures
        fits(field_column(rows, path, data_type)->Ok_0, data_type),
    decreases data_type, 0nat,
{
    let values = cells(rows, path);
    match data_type {
        DataType::List(element) => match element.data_type {
            DataType::Dictionary(key_type, _) => {
                lemma_text_lists_within(
                    lookups(rows, path),
                    path,
                    key_capacity(key_type.integer()->Some_0),
                );
                let child = field_column(rows, path, data_type)->Ok_0->List_child;
                assert(fits(*child, element.data_type));
            },
            _ => {
                lemma_element_column_fits(flatten_spec(slots(rows, path)), path, *element);
            },
        },
        DataType::Struct(fields) => {
            lemma_struct_column_fits(slots(rows, path), path, fields);
        },
        _ => {},
    }
}

/// The layout of a column is determined by the declared type of its field:
/// whatever the rows hold, a column that is built has the layout of the type.
pub proof fn law_column_fits_type(rows: Seq<RowView>, path: Seq<char>, data_type: DataType)
    requires
        field_column(rows, path, data_type) is Ok,
    ensures
        fits(field_column(rows, path, data_type)->Ok_0, data_type),
{
    lemma_field_column_fits(rows, path, data_type);
}

/// Each of columns that are well formed with `len` rows has `len` rows.
pub proof fn lemma_columns_len(columns: Seq<ColumnView>, len: nat, i: int)
    requires
        columns_well_formed(columns, len),
        0 <= i < columns.len(),
    ensures
        columns[i].len() == len,
        columns[i].well_formed(),
    decreases columns.len(),
{
    if i < columns.len() - 1 {
        lemma_columns_len(columns.drop_last(), len, i);
    }
}

/// Whether two results end alike: both with a value, or both with the same
/// failure.
pub open spec fn same_outcome<T>(a: Result<T, ErrorView>, b: Result<T, ErrorView>) -> bool {
    match a {
        Ok(_) => b is Ok,
        Err(e) => b == Err::<T, ErrorView>(e),
    }
}

/// Without a row that holds null under the path, the slots are the same
/// without the slot of that row, and so are the cells.
proof fn lemma_cells_remove(rows: Seq<RowView>, path: Seq<char>, i: int)
    requires
        0 <= i < rows.len(),
    ensures
        cells(rows.remove(i), path) == cells(rows, path).remove(i),
        slots(rows.remove(i), path) == slots(rows, path).remove(i),
        lookups(rows.remove(i), path) == lookups(rows, path).remove(i),
{
    assert(lookups(rows.remove(i), path) =~= lookups(rows, path).remove(i));
    assert(cells(rows.remove(i), path) =~= cells(rows, path).remove(i));
    assert(slots(rows.remove(i), path) =~= slots(rows, path).remove(i));
}

/// A list column ends alike with and without a row that is null.
proof fn lemma_list_column_without(slots: Seq<SlotView>, path: Seq<char>, element: Field, i: int)
    requires
        0 <= i < slots.len(),
        unwrap_union(slots[i].value) is Null,
    ensures
        same_outcome(
            list_column(slots, path, element),
            list_column(slots.remove(i), path, element),
        ),
        list_column(slots, path, element) matches Ok(column) ==> column.is_null(i),
{
    assert(element_lists(slots.remove(i)) =~= element_lists(slots).remove(i));
    lemma_concat_remove_empty(element_lists(slots), i);
}

/// A struct column ends alike with and without a row that is null.
proof fn lemma_struct_column_without(slots: Seq<SlotView>, path: Seq<char>, fields: Seq<Field>, i: int)
    requires
        0 <= i < slots.len(),
        unwrap_union(slots[i].value) is Null,
    ensures
        same_outcome(
            struct_column(slots, path, fields),
            struct_column(slots.remove(i), path, fields),
        ),
        struct_column(slots, path, fields) matches Ok(column) ==> column.is_null(i),
    decreases fields, 1nat,
{
    let items = Seq::new(slots.len(), |k: int| record_of(slots[k], path));
    let fewer = Seq::new(slots.remove(i).len(), |k: int| record_of(slots.remove(i)[k], path));
    assert(fewer =~= items.remove(i));
    lemma_collect_remove(items, i);
    if collect(items) is Ok {
        let records = collect(items)->Ok_0;
        lemma_collect_items(items);
        let rows = Seq::new(records.len(), |k: int| records[k].1);
        let fewer_rows = Seq::new(records.remove(i).len(), |k: int| records.remove(i)[k].1);
        assert(fewer_rows =~= rows.remove(i));
        lemma_struct_columns_without(rows, path, fields, i);
    }
}

/// The columns of the fields of a struct end alike with and without a row
/// that has no record.
proof fn lemma_struct_columns_without(rows: Seq<RowView>, parent: Seq<char>, fields: Seq<Field>, i: int)
    requires
        0 <= i < rows.len(),
        rows[i].record is None,
    ensures
        same_outcome(
            struct_columns(rows, parent, fields),
            struct_columns(rows.remove(i), parent, fields),
        ),
    decreases fields, 0nat,
{
    if fields.len() > 0 {
        lemma_struct_columns_without(rows, parent, fields.drop_last(), i);
        lemma_field_column_without(
            rows,
            join_path(parent, fields.last().name@),
            fields.last().data_type,
            i,
        );
    }
}

/// The column of a field ends alike with and without a row that does not
/// hold the field; and where it is built, the cell of that row is null.
proof fn lemma_field_column_without(rows: Seq<RowView>, path: Seq<char>, data_type: DataType, i: int)
    requires
        0 <= i < rows.len(),
        field_lookup_spec(rows[i], path) is None,
    ensures
        same_outcome(
            field_column(rows, path, data_type),
            field_column(rows.remove(i), path, data_type),
        ),
        field_column(rows, path, data_type) matches Ok(column) ==> column.is_null(i),
    decreases data_type, 0nat,
{
    let values = cells(rows, path);
    lemma_cells_remove(rows, path, i);
    assert(values[i] == Value::Null);
    match data_type {
        DataType::Utf8 => {
            lemma_texts_without(values, i);
        },
        DataType::LargeUtf8 => {
            lemma_texts_without(values, i);
        },
        DataType::Binary => {
            lemma_blobs_without(values, path, i);
        },
        DataType::LargeBinary => {
            lemma_blobs_without(values, path, i);
        },
        DataType::FixedSizeBinary(size) => {
            if size >= 0 {
                let items = Seq::new(values.len(), |k: int| fixed_cell(values[k], size as int, path));
                let fewer = Seq::new(
                    values.remove(i).len(),
                    |k: int| fixed_cell(values.remove(i)[k], size as int, path),
                );
                assert(fewer =~= items.remove(i));
                lemma_collect_remove(items, i);
                if collect(items) is Ok {
                    lemma_collect_items(items);
                }
            }
        },
        DataType::List(element) => match element.data_type {
            DataType::Dictionary(key_type, _) => {
                if key_type.integer() is Some {
                    let capacity = Some(key_capacity(key_type.integer()->Some_0));
                    lemma_text_lists_remove(lookups(rows, path), path, capacity, i);
                    if text_lists(lookups(rows, path), path, capacity) is Ok {
                        lemma_text_lists_items(lookups(rows, path), path, capacity);
                    }
                }
            },
            _ => {
                lemma_list_column_without(slots(rows, path), path, *element, i);
            },
        },
        DataType::Dictionary(key_type, value_type) => {
            let texts = lenient_texts(values);
            assert(lenient_texts(values.remove(i)) =~= texts.remove(i));
            lemma_distinct_remove_none(texts, i);
        },
        DataType::Struct(fields) => {
            lemma_struct_column_without(slots(rows, path), path, fields@, i);
        },
        _ => {},
    }
}

/// The byte sequences of values end alike with and without a value that is
/// null, and the byte sequence of that value is missing.
proof fn lemma_blobs_without(values: Seq<Value>, path: Seq<char>, i: int)
    requires
        0 <= i < values.len(),
        values[i] == Value::Null,
    ensures
        same_outcome(binary_column(values, path), binary_column(values.remove(i), path)),
        binary_column(values, path) matches Ok(column) ==> column.is_null(i),
{
    let items = Seq::new(values.len(), |k: int| resolve_bytes_spec(values[k], path));
    let fewer = Seq::new(
        values.remove(i).len(),
        |k: int| resolve_bytes_spec(values.remove(i)[k], path),
    );
    assert(fewer =~= items.remove(i));
    lemma_collect_remove(items, i);
    if collect(items) is Ok {
        lemma_collect_items(items);
    }
}

/// The texts of values end alike with and without a value that is null, and
/// the text of that value is missing.
proof fn lemma_texts_without(values: Seq<Value>, i: int)
    requires
        0 <= i < values.len(),
        values[i] == Value::Null,
    ensures
        same_outcome(utf8_column(values), utf8_column(values.remove(i))),
        utf8_column(values) matches Ok(column) ==> column.is_null(i),
{
    let items = Seq::new(values.len(), |k: int| resolve_string_spec(values[k]));
    let fewer = Seq::new(values.remove(i).len(), |k: int| resolve_string_spec(values.remove(i)[k]));
    assert(fewer =~= items.remove(i));
    lemma_collect_remove(items, i);
    if collect(items) is Ok {
        lemma_collect_items(items);
    }
}

/// A row that does not hold a field yields a null and never a failure.
///
/// The column of the field is built with the row exactly when it is built
/// without it, and where it fails, it fails in the same way either way. Where
/// the column is built, the cell of the row is null.
pub proof fn law_missing_field_is_null(rows: Seq<RowView>, path: Seq<char>, data_type: DataType, i: int)
    requires
        0 <= i < rows.len(),
        field_lookup_spec(rows[i], path) is None,
    ensures
        same_outcome(
            field_column(rows, path, data_type),
            field_column(rows.remove(i), path, data_type),
        ),
        field_column(rows, path, data_type) matches Ok(column) ==> column.is_null(i),
{
    lemma_field_column_without(rows, path, data_type, i);
}

/// A buffered value that is no record fails the whole pass, whatever else
/// the buffer holds and whichever writer schemas are registered: the failure
/// of the pass is that of the first such value.
pub proof fn law_non_record_row_fails(
    buffer: Seq<(u32, Value)>,
    lookup: Map<u32, Map<Seq<char>, usize>>,
    schema: Seq<Field>,
    k: int,
)
    requires
        0 <= k < buffer.len(),
        !(buffer[k].1 is Record),
        forall|j: int| 0 <= j < k ==> (#[trigger] buffer[j]).1 is Record,
    ensures
        batch_of(buffer, lookup, schema) == Err::<BatchView, ErrorView>(
            ErrorView::ShapeMismatch {
                expected: ValueKind::Record,
                actual: buffer[k].1.kind(),
                path: Seq::empty(),
            },
        ),
{
    let shapes = Seq::new(buffer.len(), |i: int| top_shape(buffer[i]));
    assert forall|j: int| 0 <= j < k implies (#[trigger] shapes[j]) is Ok by {
        assert(buffer[j].1 is Record);
    }
    lemma_collect_first_err(shapes, k);
}

/// The first field that fails fails the struct with its own failure.
proof fn lemma_struct_columns_first_err(
    rows: Seq<RowView>,
    parent: Seq<char>,
    fields: Seq<Field>,
    k: int,
)
    requires
        0 <= k < fields.len(),
        field_column(rows, join_path(parent, fields[k].name@), fields[k].data_type) is Err,
        forall|j: int|
            0 <= j < k ==> (#[trigger] field_column(
                rows,
                join_path(parent, fields[j].name@),
                fields[j].data_type,
            )) is Ok,
    ensures
        struct_columns(rows, parent, fields) == Err::<Seq<ColumnView>, ErrorView>(
            field_column(rows, join_path(parent, fields[k].name@), fields[k].data_type)->Err_0,
        ),
    decreases fields.len(),
{
    let shorter = fields.drop_last();
    if k < fields.len() - 1 {
        assert(shorter[k] == fields[k]);
        assert forall|j: int| 0 <= j < k implies (#[trigger] field_column(
            rows,
            join_path(parent, shorter[j].name@),
            shorter[j].data_type,
        )) is Ok by {
            assert(shorter[j] == fields[j]);
            assert(field_column(rows, join_path(parent, fields[j].name@), fields[j].data_type) is Ok);
        }
        lemma_struct_columns_first_err(rows, parent, shorter, k);
    } else {
        lemma_struct_columns_all_ok(rows, parent, shorter);
    }
}

/// Where no field fails, the struct does not fail.
proof fn lemma_struct_columns_all_ok(rows: Seq<RowView>, parent: Seq<char>, fields: Seq<Field>)
    requires
        forall|j: int|
            0 <= j < fields.len() ==> (#[trigger] field_column(
                rows,
                join_path(parent, fields[j].name@),
                fields[j].data_type,
            )) is Ok,
    ensures
        struct_columns(rows, parent, fields) is Ok,
    decreases fields.len(),
{
    if fields.len() > 0 {
        let shorter = fields.drop_last();
        assert forall|j: int| 0 <= j < shorter.len() implies (#[trigger] field_column(
            rows,
            join_path(parent, shorter[j].name@),
            shorter[j].data_type,
        )) is Ok by {
            assert(shorter[j] == fields[j]);
            assert(field_column(rows, join_path(parent, fields[j].name@), fields[j].data_type) is Ok);
        }
        lemma_struct_columns_all_ok(rows, parent, shorter);
        assert(field_column(
            rows,
            join_path(parent, fields.last().name@),
            fields.last().data_type,
        ) is Ok);
    }
}

/// A failure of one column fails the batch: where every buffered value gives
/// a row, the failure of the first field of the target schema that fails is
/// the failure of the pass.
pub proof fn law_first_failing_field_fails(
    buffer: Seq<(u32, Value)>,
    lookup: Map<u32, Map<Seq<char>, usize>>,
    schema: Seq<Field>,
    k: int,
)
    requires
        top_rows(buffer, lookup) is Ok,
        0 <= k < schema.len(),
        field_column(top_rows(buffer, lookup)->Ok_0, schema[k].name@, schema[k].data_type) is Err,
        forall|j: int|
            0 <= j < k ==> (#[trigger] field_column(
                top_rows(buffer, lookup)->Ok_0,
                schema[j].name@,
                schema[j].data_type,
            )) is Ok,
    ensures
        batch_of(buffer, lookup, schema) == Err::<BatchView, ErrorView>(
            field_column(
                top_rows(buffer, lookup)->Ok_0,
                schema[k].name@,
                schema[k].data_type,
            )->Err_0,
        ),
{
    let rows = top_rows(buffer, lookup)->Ok_0;
    let root = Seq::<char>::empty();
    assert forall|j: int| 0 <= j < k implies (#[trigger] field_column(
        rows,
        join_path(root, schema[j].name@),
        schema[j].data_type,
    )) is Ok by {
        assert(field_column(rows, schema[j].name@, schema[j].data_type) is Ok);
    }
    lemma_struct_columns_first_err(rows, root, schema, k);
}

/// Decoding is idempotent. Two decoders that hold the same buffered values
/// and the same target schema, and whose registered indexes map the same
/// paths to the same positions, give the same batch, or the same failure; so
/// does one decoder that is handed the same values again.
pub proof fn law_idempotent(
    first: AvroDecoder,
    second: AvroDecoder,
    first_result: Result<RecordBatch, DecodeError>,
    second_result: Result<RecordBatch, DecodeError>,
)
    requires
        first.buffer@ == second.buffer@,
        first.schema@ == second.schema@,
        index_views(first.lookup@) == index_views(second.lookup@),
        batch_result(first_result) == first.pass(),
        batch_result(second_result) == second.pass(),
    ensures
        batch_result(first_result) == batch_result(second_result),
{
}

/// A union that does not resolve adds nothing to the index: no path at or
/// below it resolves through it.
pub proof fn law_other_unions_unresolved(
    acc: Map<Seq<char>, usize>,
    parent: Seq<char>,
    branches: Vec<WriterSchema>,
)
    requires
        !resolves(branches@),
    ensures
        index_schema(acc, parent, WriterSchema::Union(branches)) == acc,
{
}

} // verus!
