//! Lists of texts, and the flattening of the rows of a list column.

use vstd::prelude::*;
use vstd::string::*;
use crate::bitmap::Bitmap;
use crate::column::{Column, ColumnView, integers_view, offsets_view, texts_view};
use crate::datatype::DataType;
use crate::decoder::{column_result, field_lookup, texts_result};
use crate::dictionary::StringDictionaryBuilder;
use crate::error::{DecodeError, ErrorView};
use crate::model::{
    boolean_column, element_lists, elements, flatten_spec, flatten_strings_spec, float_column,
    integer_column, key_capacity, lemma_text_lists_prefix_err, lenient_text, lenient_texts, lookups,
    present, Row, row_texts, row_views, Slot, slot_views, SlotView, string_list_column,
    text_list_column, text_lists, values_of, wrapped_list_column,
};
use crate::number::{as_int, Native, Number};
use crate::resolve::{
    resolve_boolean, resolve_boolean_spec, resolve_item, resolve_item_spec, resolve_number,
    resolve_string, resolve_string_spec, source_number,
};
use crate::seqs::{
    collect, concat, dictionary_keys, distinct, lemma_collect_prefix_err, lemma_distinct_prefix,
    offsets_of,
};
use crate::value::{maybe_resolve_union, Value, ValueKind};

verus! {

/// The texts of one row of a list of texts.
#[verifier::loop_isolation(false)]
pub fn row_strings(value: &Value, path: &String) -> (r: Result<Vec<Option<String>>, DecodeError>)
    ensures
        texts_result(r) == row_texts(*value, path@),
{
    let inner = maybe_resolve_union(value);
    match inner {
        Value::Array(items) => {
            let ghost results = Seq::new(items@.len(), |i: int| resolve_string_spec(items@[i]));
            let mut texts: Vec<Option<String>> = Vec::with_capacity(items.len());
            let mut i: usize = 0;
            assert(texts_view(texts@) =~= Seq::empty());
            while i < items.len()
                invariant
                    i <= items.len(),
                    collect(results.take(i as int)) == Ok::<Seq<Option<Seq<char>>>, ErrorView>(
                        texts_view(texts@),
                    ),
                decreases items.len() - i,
            {
                assert(results.take(i + 1).drop_last() == results.take(i as int));
                match resolve_string(&items[i]) {
                    Ok(text) => {
                        let ghost before = texts_view(texts@);
                        texts.push(text);
                        assert(texts_view(texts@) =~= before.push(results[i as int]->Ok_0));
                    },
                    Err(e) => {
                        proof {
                            lemma_collect_prefix_err(results, i + 1);
                        }
                        return Err(e);
                    },
                }
                i = i + 1;
            }
            assert(results.take(i as int) == results);
            Ok(texts)
        },
        Value::Record(_) => Err(
            DecodeError::ShapeMismatch {
                expected: ValueKind::String,
                actual: ValueKind::Record,
                path: path.clone(),
            },
        ),
        other => match resolve_string(other) {
            Ok(text) => {
                let mut texts: Vec<Option<String>> = Vec::new();
                texts.push(text);
                assert(texts_view(texts@) =~= seq![resolve_string_spec(*other)->Ok_0]);
                Ok(texts)
            },
            Err(e) => Err(e),
        },
    }
}

/// The capacity that keys of an optional integer type give.
pub open spec fn capacity_of(key: Option<Native>) -> Option<int> {
    match key {
        Some(native) => Some(key_capacity(native)),
        None => None,
    }
}

/// Builds a list column of texts, a row being present where it holds the
/// field: with keys of the given type where one is given, plain otherwise.
#[verifier::loop_isolation(false)]
pub fn build_text_list(rows: &Vec<Row>, col_name: &String, key: Option<Native>) -> (r: Result<
    Column,
    DecodeError,
>)
    ensures
        column_result(r) == text_list_column(
            lookups(row_views(rows@), col_name@),
            col_name@,
            capacity_of(key),
        ),
{
    let ghost values = lookups(row_views(rows@), col_name@);
    let ghost capacity = capacity_of(key);
    let mut plain: Vec<Option<String>> = Vec::new();
    let mut builder = StringDictionaryBuilder::new(
        match key {
            Some(native) => native,
            None => Native::I8,
        },
    );
    let mut offsets: Vec<usize> = Vec::with_capacity(rows.len());
    offsets.push(0);
    let mut validity = Bitmap::zeroed(rows.len());
    let ghost mut lists: Seq<Seq<Option<Seq<char>>>> = Seq::empty();
    let mut i: usize = 0;
    proof {
        assert(texts_view(plain@) =~= concat(lists));
        assert(builder.texts() =~= concat(lists));
        assert(lists.take(0) =~= lists);
    }
    while i < rows.len()
        invariant
            i <= rows.len(),
            lists.len() == i,
            text_lists(values.take(i as int), col_name@, capacity) == Ok::<
                Seq<Seq<Option<Seq<char>>>>,
                ErrorView,
            >(lists),
            builder.well_formed(),
            key matches Some(native) ==> builder.capacity() == key_capacity(native)
                && builder.texts() == concat(lists),
            key is None ==> texts_view(plain@) == concat(lists),
            offsets@.len() == i + 1,
            forall|k: int| 0 <= k <= i ==> (#[trigger] offsets@[k]) == concat(lists.take(k)).len(),
            validity@ == Seq::new(rows@.len(), |j: int| j < i && values[j] is Some),
        decreases rows.len() - i,
    {
        assert(values.take(i + 1).drop_last() == values.take(i as int));
        let found = field_lookup(col_name, &rows[i]);
        let texts = match found {
            Some(value) => match row_strings(value, col_name) {
                Ok(texts) => texts,
                Err(e) => {
                    proof {
                        lemma_text_lists_prefix_err(values, col_name@, capacity, i + 1);
                    }
                    return Err(e);
                },
            },
            None => {
                let none: Vec<Option<String>> = Vec::new();
                assert(texts_view(none@) =~= Seq::empty());
                none
            },
        };
        let ghost row = texts_view(texts@);
        let ghost longer = lists.push(row);
        proof {
            assert(longer.drop_last() == lists);
            assert(concat(longer) == concat(lists) + row);
        }
        let mut j: usize = 0;
        proof {
            assert(concat(lists) + row.take(0) =~= concat(lists));
        }
        while j < texts.len()
            invariant
                j <= texts.len(),
                row == texts_view(texts@),
                builder.well_formed(),
                key matches Some(native) ==> builder.capacity() == key_capacity(native)
                    && builder.texts() == concat(lists) + row.take(j as int),
                key is None ==> texts_view(plain@) == concat(lists) + row.take(j as int),
            decreases texts.len() - j,
        {
            proof {
                assert(row.take(j + 1) =~= row.take(j as int).push(row[j as int]));
                assert(concat(lists) + row.take(j + 1) =~= (concat(lists) + row.take(
                    j as int,
                )).push(row[j as int]));
            }
            match key {
                Some(native) => {
                    match &texts[j] {
                        Some(text) => {
                            match builder.append(text.clone()) {
                                Ok(_) => {},
                                Err(_) => {
                                    proof {
                                        let all = concat(longer);
                                        let n = concat(lists).len() + j + 1;
                                        assert(all.take(n) =~= concat(lists) + row.take(j + 1));
                                        lemma_distinct_prefix(all, n);
                                        lemma_text_lists_prefix_err(
                                            values,
                                            col_name@,
                                            capacity,
                                            i + 1,
                                        );
                                    }
                                    return Err(
                                        DecodeError::DictionaryKeyOverflow {
                                            path: col_name.clone(),
                                            capacity: native.key_capacity(),
                                        },
                                    );
                                },
                            }
                        },
                        None => {
                            builder.append_null();
                        },
                    }
                },
                None => {
                    let ghost before = texts_view(plain@);
                    let text: Option<String> = match &texts[j] {
                        Some(text) => Some(text.clone()),
                        None => None,
                    };
                    plain.push(text);
                    assert(texts_view(plain@) =~= before.push(row[j as int]));
                },
            }
            j = j + 1;
        }
        proof {
            assert(row.take(j as int) == row);
            if key is Some {
                builder.lemma_within_capacity();
            }
            assert forall|k: int| 0 <= k <= i implies longer.take(k) == lists.take(k) by {
                assert(longer.take(k) =~= lists.take(k));
            }
            assert(longer.take(i + 1) == longer);
        }
        let total: usize = match key {
            Some(_) => builder.len(),
            None => plain.len(),
        };
        assert(texts_view(plain@).len() == plain@.len());
        offsets.push(total);
        if found.is_some() {
            validity.set(i);
        }
        proof {
            lists = longer;
            assert(validity@ =~= Seq::new(rows@.len(), |j: int| j < i + 1 && values[j] is Some));
        }
        i = i + 1;
    }
    proof {
        assert(values.take(i as int) == values);
        assert(offsets_view(offsets@) =~= offsets_of(lists));
        assert(validity@ =~= Seq::new(lists.len(), |i: int| values[i] is Some));
    }
    let child = match key {
        Some(_) => builder.finish(),
        None => Column::Utf8 { values: plain },
    };
    assert(child@ == match capacity {
        Some(_) => ColumnView::Dictionary {
            keys: dictionary_keys(concat(lists)),
            values: distinct(concat(lists)),
        },
        None => ColumnView::Utf8 { values: concat(lists) },
    });
    let column = Column::List { offsets, validity, child: Box::new(child) };
    assert(column@ == ColumnView::List {
        offsets: offsets_of(lists),
        validity: Seq::new(lists.len(), |i: int| values[i] is Some),
        child: Box::new(child@),
    });
    Ok(column)
}

/// Builds a list column of texts for an element type that is text or a
/// dictionary of texts with integer keys.
pub fn list_array_string_array_builder(data_type: &DataType, col_name: &String, rows: &Vec<Row>) -> (r:
    Result<Column, DecodeError>)
    ensures
        column_result(r) == string_list_column(
            lookups(row_views(rows@), col_name@),
            col_name@,
            *data_type,
        ),
{
    match data_type {
        DataType::Utf8 => build_text_list(rows, col_name, None),
        DataType::Dictionary(key_type, _) => match key_type.integer() {
            Some(native) => build_text_list(rows, col_name, Some(native)),
            None => Err(DecodeError::UnsupportedType { kind: key_type.kind() }),
        },
        e => Err(DecodeError::NestedTypeUnsupported { kind: e.kind(), path: col_name.clone() }),
    }
}

/// Builds a list column of dictionary-encoded texts with keys of the given
/// type.
pub fn build_wrapped_list_array(rows: &Vec<Row>, col_name: &String, key_type: &DataType) -> (r: Result<
    Column,
    DecodeError,
>)
    ensures
        column_result(r) == wrapped_list_column(
            lookups(row_views(rows@), col_name@),
            col_name@,
            *key_type,
        ),
{
    match key_type.integer() {
        Some(native) => build_text_list(rows, col_name, Some(native)),
        None => Err(DecodeError::UnsupportedType { kind: key_type.kind() }),
    }
}

/// The elements of all rows of a list column, one row after the other, and
/// the offset of each row among them.
#[verifier::loop_isolation(false)]
pub fn flatten_rows<'a>(values: &Vec<Slot<'a>>) -> (r: (Vec<Slot<'a>>, Vec<usize>))
    ensures
        slot_views(r.0@) == flatten_spec(slot_views(values@)),
        offsets_view(r.1@) == offsets_of(element_lists(slot_views(values@))),
{
    let ghost lists = element_lists(slot_views(values@));
    let mut flat: Vec<Slot<'a>> = Vec::new();
    let mut offsets: Vec<usize> = Vec::with_capacity(values.len());
    offsets.push(0);
    let mut i: usize = 0;
    proof {
        assert(lists.take(0) =~= Seq::<Seq<SlotView>>::empty());
        assert(slot_views(flat@) =~= Seq::<SlotView>::empty());
    }
    while i < values.len()
        invariant
            i <= values.len(),
            slot_views(flat@) == concat(lists.take(i as int)),
            offsets@.len() == i + 1,
            forall|k: int| 0 <= k <= i ==> (#[trigger] offsets@[k]) == concat(lists.take(k)).len(),
        decreases values.len() - i,
    {
        assert(lists.take(i + 1).drop_last() == lists.take(i as int));
        let ghost head = slot_views(flat@);
        let ghost row = elements(values@[i as int]@);
        assert(row == lists[i as int]);
        let slot = values[i];
        let inner = maybe_resolve_union(slot.value);
        match inner {
            Value::Array(items) => {
                let mut j: usize = 0;
                assert(head + row.take(0) =~= head);
                while j < items.len()
                    invariant
                        j <= items.len(),
                        slot_views(flat@) == head + row.take(j as int),
                    decreases items.len() - j,
                {
                    assert(head + row.take(j + 1) =~= (head + row.take(j as int)).push(
                        row[j as int],
                    ));
                    let ghost before = slot_views(flat@);
                    flat.push(Slot { index: slot.index, value: &items[j] });
                    assert(slot_views(flat@) =~= before.push(row[j as int]));
                    j = j + 1;
                }
                assert(row.take(j as int) == row);
            },
            Value::Null => {
                assert(head + row =~= head);
            },
            other => {
                flat.push(Slot { index: slot.index, value: other });
                assert(slot_views(flat@) =~= head + row);
            },
        }
        offsets.push(flat.len());
        i = i + 1;
    }
    proof {
        assert(lists.take(i as int) == lists);
        assert(offsets_view(offsets@) =~= offsets_of(lists));
    }
    (flat, offsets)
}

/// The elements of all rows of a list column, one row after the other: the
/// elements of an array, nothing for null, and any other value as one
/// element.
pub fn flatten_values<'a>(values: &Vec<Slot<'a>>) -> (r: Vec<Slot<'a>>)
    ensures
        slot_views(r@) == flatten_spec(slot_views(values@)),
{
    flatten_rows(values).0
}

/// The texts of values, a value without a text counting as null.
pub fn string_values(values: &Vec<Slot>) -> (r: Vec<Option<String>>)
    ensures
        texts_view(r@) == lenient_texts(values_of(slot_views(values@))),
{
    let mut texts: Vec<Option<String>> = Vec::with_capacity(values.len());
    let mut i: usize = 0;
    while i < values.len()
        invariant
            i <= values.len(),
            texts@.len() == i,
            forall|j: int|
                0 <= j < i ==> (match #[trigger] texts@[j] {
                    Some(s) => Some(s@),
                    None => None,
                }) == lenient_text(values@[j]@.value),
        decreases values.len() - i,
    {
        let text = match resolve_string(values[i].value) {
            Ok(text) => text,
            Err(_) => None,
        };
        texts.push(text);
        i = i + 1;
    }
    assert(texts_view(texts@) =~= lenient_texts(values_of(slot_views(values@))));
    texts
}

/// The texts of the elements of all rows of a list column, an element
/// without a text counting as null.
pub fn flatten_string_values(values: &Vec<Slot>) -> (r: Vec<Option<String>>)
    ensures
        texts_view(r@) == flatten_strings_spec(slot_views(values@)),
{
    let flat = flatten_values(values);
    string_values(&flat)
}

/// The validity bits of the rows of a list column: set unless the row is
/// null.
pub fn list_validity(values: &Vec<Slot>) -> (r: Bitmap)
    ensures
        r@ == Seq::new(slot_views(values@).len(), |i: int| present(slot_views(values@)[i])),
{
    let mut validity = Bitmap::zeroed(values.len());
    let mut i: usize = 0;
    while i < values.len()
        invariant
            i <= values.len(),
            validity@ == Seq::new(values@.len(), |j: int| j < i && present(values@[j]@)),
        decreases values.len() - i,
    {
        let is_null = matches!(maybe_resolve_union(values[i].value), Value::Null);
        if !is_null {
            validity.set(i);
        }
        assert(validity@ =~= Seq::new(values@.len(), |j: int| j < i + 1 && present(values@[j]@)));
        i = i + 1;
    }
    assert(validity@ =~= Seq::new(
        slot_views(values@).len(),
        |i: int| present(slot_views(values@)[i]),
    ));
    validity
}

/// Reads the elements of a list as booleans.
pub fn read_boolean_list_values(values: &Vec<Slot>) -> (r: Column)
    ensures
        r@ == boolean_column(values_of(slot_views(values@))),
{
    let mut out: Vec<Option<bool>> = Vec::with_capacity(values.len());
    let mut i: usize = 0;
    while i < values.len()
        invariant
            i <= values.len(),
            out@.len() == i,
            forall|j: int|
                0 <= j < i ==> (#[trigger] out@[j]) == resolve_boolean_spec(values@[j]@.value),
        decreases values.len() - i,
    {
        out.push(resolve_boolean(values[i].value));
        i = i + 1;
    }
    assert(out@ =~= boolean_column(values_of(slot_views(values@)))->Boolean_values);
    Column::Boolean { values: out }
}

/// Reads the rows of a list column as the integers of their elements: the
/// rows are flattened, and each element is read by the numeric resolver for
/// the given type.
pub fn read_primitive_list_values(rows: &Vec<Slot>, native: Native) -> (r: Column)
    ensures
        r@ == integer_column(values_of(flatten_spec(slot_views(rows@))), native),
{
    let flat = flatten_values(rows);
    read_integer_list_values(&flat, native)
}

/// Reads the elements of a list as integers of the given type.
pub fn read_integer_list_values(values: &Vec<Slot>, native: Native) -> (r: Column)
    ensures
        r@ == integer_column(values_of(slot_views(values@)), native),
{
    let mut out: Vec<Option<i128>> = Vec::with_capacity(values.len());
    let mut i: usize = 0;
    while i < values.len()
        invariant
            i <= values.len(),
            out@.len() == i,
            forall|j: int|
                0 <= j < i ==> as_int(#[trigger] out@[j]) == resolve_item_spec(
                    values@[j]@.value,
                    native,
                ),
        decreases values.len() - i,
    {
        out.push(resolve_item(values[i].value, native));
        i = i + 1;
    }
    assert(integers_view(out@) =~= integer_column(values_of(slot_views(values@)), native)->Integer_values);
    Column::Integer { values: out }
}

/// Reads the elements of a list as the numbers they hold.
pub fn read_float_list_values(values: &Vec<Slot>) -> (r: Column)
    ensures
        r@ == float_column(values_of(slot_views(values@))),
{
    let mut out: Vec<Option<Number>> = Vec::with_capacity(values.len());
    let mut i: usize = 0;
    while i < values.len()
        invariant
            i <= values.len(),
            out@.len() == i,
            forall|j: int| 0 <= j < i ==> (#[trigger] out@[j]) == source_number(values@[j]@.value),
        decreases values.len() - i,
    {
        out.push(resolve_number(values[i].value));
        i = i + 1;
    }
    assert(out@ =~= float_column(values_of(slot_views(values@)))->Float_values);
    Column::Float { values: out }
}

} // verus!
