use avro_columnar::bitmap::Bitmap;
use avro_columnar::column::Column;
use avro_columnar::datatype::{DataType, Field, TimeUnit, TypeKind};
use avro_columnar::decoder::{
    build_binary_array, build_boolean_array, build_column, build_dictionary_array,
    build_fixed_size_binary_array, build_float_array, build_primitive_array, build_string_array,
    build_string_dictionary_array, build_string_dictionary_builder, build_struct_array,
    build_struct_column, extract_rows, field_lookup, struct_rows,
};
use avro_columnar::error::{DecodeError, StringCause};
use avro_columnar::model::{Row, Slot};
use avro_columnar::number::{Native, Number};
use avro_columnar::schema::SchemaIndex;
use avro_columnar::value::{Value, ValueKind};

type Record = Vec<(String, Value)>;

fn index(paths: &[(&str, usize)]) -> SchemaIndex {
    let mut index = SchemaIndex::new();
    for (path, position) in paths {
        index.insert(path.to_string(), *position);
    }
    index
}

fn records(values: Vec<Value>) -> Vec<Record> {
    values.into_iter().map(|v| vec![("v".to_string(), v)]).collect()
}

fn rows<'a>(index: &'a SchemaIndex, records: &'a [Record]) -> Vec<Row<'a>> {
    records.iter().map(|record| Row { index, record: Some(record) }).collect()
}

fn text(s: &str) -> Value {
    Value::String(s.to_string())
}

fn name() -> String {
    "v".to_string()
}

fn bits(values: &[bool]) -> Bitmap {
    let mut bitmap = Bitmap::zeroed(values.len());
    for (i, set) in values.iter().enumerate() {
        if *set {
            bitmap.set(i);
        }
    }
    bitmap
}

fn field(name: &str, data_type: DataType) -> Field {
    Field { name: name.to_string(), data_type, nullable: true }
}

#[test]
fn lookup_goes_by_position() {
    let index = index(&[("a", 1), ("b", 0), ("far", 7)]);
    let record: Record = vec![("x".to_string(), Value::Int(1)), ("y".to_string(), Value::Int(2))];
    let row = Row { index: &index, record: Some(&record) };
    assert_eq!(field_lookup(&"a".to_string(), &row), Some(&Value::Int(2)));
    assert_eq!(field_lookup(&"b".to_string(), &row), Some(&Value::Int(1)));
    assert_eq!(field_lookup(&"x".to_string(), &row), None);
    assert_eq!(field_lookup(&"far".to_string(), &row), None);
    let empty = Row { index: &index, record: None };
    assert_eq!(field_lookup(&"a".to_string(), &empty), None);
}

#[test]
fn extracted_rows_hold_null_for_a_miss() {
    let index = index(&[("v", 0)]);
    let records = vec![vec![("v".to_string(), Value::Int(1))], vec![]];
    let null = Value::Null;
    let slots = extract_rows(&rows(&index, &records), &name(), &null);
    assert_eq!(slots.len(), 2);
    assert_eq!(slots[0].value, &Value::Int(1));
    assert_eq!(slots[1].value, &Value::Null);
}

#[test]
fn boolean_column_holds_booleans_and_nulls() {
    let index = index(&[("v", 0)]);
    let records = records(vec![Value::Boolean(true), Value::Null, Value::Int(1), Value::Boolean(false)]);
    assert_eq!(
        build_boolean_array(&rows(&index, &records), &name()),
        Column::Boolean { values: vec![Some(true), None, None, Some(false)] }
    );
    assert_eq!(
        build_boolean_array(&rows(&index, &records), &"other".to_string()),
        Column::Boolean { values: vec![None, None, None, None] }
    );
}

#[test]
fn integer_column_holds_what_fits_the_type() {
    let index = index(&[("v", 0)]);
    let records = records(vec![Value::Int(5), Value::Long(300), Value::Null, Value::Double(1.9f64.to_bits()), text("7")]);
    assert_eq!(
        build_primitive_array(&rows(&index, &records), &name(), Native::U8),
        Column::Integer { values: vec![Some(5), None, None, Some(1), None] }
    );
    assert_eq!(
        build_primitive_array(&rows(&index, &records), &name(), Native::I64),
        Column::Integer { values: vec![Some(5), Some(300), None, Some(1), None] }
    );
}

#[test]
fn float_column_holds_the_source_numbers() {
    let index = index(&[("v", 0)]);
    let records = records(vec![Value::Int(5), Value::Float(0.5f32.to_bits()), Value::Null, Value::Double(0.1f64.to_bits())]);
    assert_eq!(
        build_float_array(&rows(&index, &records), &name()),
        Column::Float {
            values: vec![
                Some(Number::Int(5)),
                Some(Number::Float(0.5f32.to_bits())),
                None,
                Some(Number::Double(0.1f64.to_bits())),
            ],
        }
    );
}

#[test]
fn string_column_holds_texts_and_nulls() {
    let index = index(&[("v", 0)]);
    let records = records(vec![text("a"), Value::Null, Value::Enum(0, "E".to_string()), Value::Bytes(vec![0x68, 0x69])]);
    assert_eq!(
        build_string_array(&rows(&index, &records), &name()),
        Ok(Column::Utf8 { values: vec![Some("a".to_string()), None, Some("E".to_string()), Some("hi".to_string())] })
    );
}

#[test]
fn string_column_fails_on_the_first_value_without_text() {
    let index = index(&[("v", 0)]);
    let records = records(vec![text("a"), Value::Int(1), Value::Bytes(vec![0xff])]);
    assert_eq!(
        build_string_array(&rows(&index, &records), &name()),
        Err(DecodeError::StringConversion { cause: StringCause::NotAString(ValueKind::Int) })
    );
    let records = records_swapped();
    assert_eq!(
        build_string_array(&rows(&index, &records), &name()),
        Err(DecodeError::StringConversion { cause: StringCause::InvalidUtf8 })
    );
}

fn records_swapped() -> Vec<Record> {
    records(vec![text("a"), Value::Bytes(vec![0xff]), Value::Int(1)])
}

#[test]
fn binary_column_holds_nothing_for_other_kinds() {
    let index = index(&[("v", 0)]);
    let records = records(vec![
        Value::Bytes(vec![1, 2]),
        text("a"),
        Value::Array(vec![Value::Int(7), Value::Long(8)]),
        Value::Int(1),
        Value::Null,
    ]);
    assert_eq!(
        build_binary_array(&rows(&index, &records), &name()),
        Ok(Column::Binary { values: vec![Some(vec![1, 2]), Some(vec![0x61]), Some(vec![7, 8]), None, None] })
    );
}

#[test]
fn binary_column_fails_on_an_array_item_that_is_no_byte() {
    let index = index(&[("v", 0)]);
    let records = records(vec![Value::Bytes(vec![1]), Value::Array(vec![Value::Int(300)]), Value::Array(vec![text("x")])]);
    assert_eq!(
        build_binary_array(&rows(&index, &records), &name()),
        Err(DecodeError::ShapeMismatch { expected: ValueKind::Bytes, actual: ValueKind::Int, path: name() })
    );
}

#[test]
fn fixed_size_column_drops_other_sizes() {
    let index = index(&[("v", 0)]);
    let records = records(vec![
        Value::Fixed(2, vec![1, 2]),
        Value::Fixed(3, vec![1, 2, 3]),
        Value::Null,
        Value::Bytes(vec![1, 2]),
    ]);
    assert_eq!(
        build_fixed_size_binary_array(&rows(&index, &records), &name(), 2),
        Ok(Column::FixedSizeBinary { size: 2, values: vec![Some(vec![1, 2]), None, None, None] })
    );
}

#[test]
fn fixed_size_column_fails_on_bytes_of_another_length_than_declared() {
    let index = index(&[("v", 0)]);
    let records = records(vec![Value::Fixed(2, vec![1, 2]), Value::Fixed(2, vec![1, 2, 3])]);
    assert_eq!(
        build_fixed_size_binary_array(&rows(&index, &records), &name(), 2),
        Err(DecodeError::ShapeMismatch { expected: ValueKind::Fixed, actual: ValueKind::Fixed, path: name() })
    );
    assert_eq!(
        build_fixed_size_binary_array(&rows(&index, &records), &name(), -1),
        Err(DecodeError::UnsupportedType { kind: TypeKind::FixedSizeBinary(-1) })
    );
}

#[test]
fn dictionary_column_numbers_texts_as_they_first_come() {
    let index = index(&[("v", 0)]);
    let records = records(vec![text("b"), text("a"), Value::Null, text("b"), Value::Int(1), text("c"), text("a")]);
    assert_eq!(
        build_dictionary_array(&rows(&index, &records), &name(), Native::I8),
        Ok(Column::Dictionary {
            keys: vec![Some(0), Some(1), None, Some(0), None, Some(2), Some(1)],
            values: vec!["b".to_string(), "a".to_string(), "c".to_string()],
        })
    );
}

#[test]
fn dictionary_builder_appends_and_finishes() {
    let mut builder = build_string_dictionary_builder(Native::U8);
    assert_eq!(builder.len(), 0);
    assert_eq!(builder.append("x".to_string()), Ok(0));
    assert_eq!(builder.append("y".to_string()), Ok(1));
    builder.append_null();
    assert_eq!(builder.append("x".to_string()), Ok(0));
    assert_eq!(builder.len(), 4);
    assert_eq!(
        builder.finish(),
        Column::Dictionary { keys: vec![Some(0), Some(1), None, Some(0)], values: vec!["x".to_string(), "y".to_string()] }
    );
}

fn distinct_rows(n: usize) -> Vec<Record> {
    records((0..n).map(|i| text(&format!("v{i}"))).collect())
}

#[test]
fn dictionary_holds_as_many_texts_as_keys_can_number() {
    let index = index(&[("v", 0)]);
    let full = distinct_rows(128);
    let built = build_dictionary_array(&rows(&index, &full), &name(), Native::I8).unwrap();
    match built {
        Column::Dictionary { keys, values } => {
            assert_eq!(values.len(), 128);
            assert_eq!(keys[127], Some(127));
        }
        other => panic!("{other:?}"),
    }
    let mut over = distinct_rows(128);
    over.extend(records(vec![text("v5"), text("one more")]));
    assert_eq!(
        build_dictionary_array(&rows(&index, &over), &name(), Native::I8),
        Err(DecodeError::DictionaryKeyOverflow { path: name(), capacity: 128 })
    );
    let wide = distinct_rows(257);
    assert_eq!(
        build_dictionary_array(&rows(&index, &wide[..256]), &name(), Native::U8).map(|c| c.len()),
        Ok(256)
    );
    assert_eq!(
        build_dictionary_array(&rows(&index, &wide), &name(), Native::U8),
        Err(DecodeError::DictionaryKeyOverflow { path: name(), capacity: 256 })
    );
    assert_eq!(build_dictionary_array(&rows(&index, &wide), &name(), Native::I16).map(|c| c.len()), Ok(257));
}

#[test]
fn key_capacities_are_one_more_than_the_greatest_key() {
    assert_eq!(Native::I8.key_capacity(), 128);
    assert_eq!(Native::I16.key_capacity(), 32768);
    assert_eq!(Native::I32.key_capacity(), 2147483648);
    assert_eq!(Native::I64.key_capacity(), 9223372036854775808);
    assert_eq!(Native::U8.key_capacity(), 256);
    assert_eq!(Native::U16.key_capacity(), 65536);
    assert_eq!(Native::U32.key_capacity(), 4294967296);
    assert_eq!(Native::U64.key_capacity(), 18446744073709551616);
}

#[test]
fn dictionary_wants_text_values_and_integer_keys() {
    let index = index(&[("v", 0)]);
    let records = records(vec![text("a")]);
    assert_eq!(
        build_string_dictionary_array(&rows(&index, &records), &name(), &DataType::Int16, &DataType::Utf8),
        Ok(Column::Dictionary { keys: vec![Some(0)], values: vec!["a".to_string()] })
    );
    assert_eq!(
        build_string_dictionary_array(&rows(&index, &records), &name(), &DataType::Int16, &DataType::Int32),
        Err(DecodeError::UnsupportedType { kind: TypeKind::Dictionary })
    );
    assert_eq!(
        build_string_dictionary_array(&rows(&index, &records), &name(), &DataType::Utf8, &DataType::Utf8),
        Err(DecodeError::UnsupportedType { kind: TypeKind::Utf8 })
    );
}

#[test]
fn column_builder_goes_by_the_declared_type() {
    let index = index(&[("v", 0)]);
    let records = records(vec![Value::Long(1_700_000_000_000), Value::Null, Value::Int(12)]);
    let rows = rows(&index, &records);
    let wide = Ok(Column::Integer { values: vec![Some(1_700_000_000_000), None, Some(12)] });
    let narrow = Ok(Column::Integer { values: vec![None, None, Some(12)] });
    for unit in [TimeUnit::Second, TimeUnit::Millisecond, TimeUnit::Microsecond, TimeUnit::Nanosecond] {
        assert_eq!(build_column(&rows, &name(), &DataType::Timestamp(unit)), wide);
    }
    assert_eq!(build_column(&rows, &name(), &DataType::Date64), wide);
    assert_eq!(build_column(&rows, &name(), &DataType::Date32), narrow);
    assert_eq!(build_column(&rows, &name(), &DataType::Int64), wide);
    assert_eq!(build_column(&rows, &name(), &DataType::Int32), narrow);
    assert_eq!(build_column(&rows, &name(), &DataType::Time64(TimeUnit::Microsecond)), wide);
    assert_eq!(build_column(&rows, &name(), &DataType::Time64(TimeUnit::Nanosecond)), wide);
    assert_eq!(build_column(&rows, &name(), &DataType::Time32(TimeUnit::Second)), narrow);
    assert_eq!(build_column(&rows, &name(), &DataType::Time32(TimeUnit::Millisecond)), narrow);
    assert_eq!(build_column(&rows, &name(), &DataType::Null), Ok(Column::Null { len: 3 }));
    assert_eq!(build_column(&rows, &name(), &DataType::Boolean), Ok(Column::Boolean { values: vec![None, None, None] }));
    assert_eq!(
        build_column(&rows, &name(), &DataType::Float32),
        Ok(Column::Float { values: vec![Some(Number::Int(1_700_000_000_000)), None, Some(Number::Int(12))] })
    );
    assert_eq!(build_column(&rows, &name(), &DataType::UInt8), Ok(Column::Integer { values: vec![None, None, Some(12)] }));
}

#[test]
fn column_builder_refuses_types_it_has_no_case_for() {
    let index = index(&[("v", 0)]);
    let records = records(vec![Value::Int(1)]);
    let rows = rows(&index, &records);
    let refused = |data_type: DataType, kind: TypeKind| {
        assert_eq!(build_column(&rows, &name(), &data_type), Err(DecodeError::UnsupportedType { kind }));
    };
    refused(DataType::Time64(TimeUnit::Second), TypeKind::Time64(TimeUnit::Second));
    refused(DataType::Time64(TimeUnit::Millisecond), TypeKind::Time64(TimeUnit::Millisecond));
    refused(DataType::Time32(TimeUnit::Microsecond), TypeKind::Time32(TimeUnit::Microsecond));
    refused(DataType::Time32(TimeUnit::Nanosecond), TypeKind::Time32(TimeUnit::Nanosecond));
    refused(DataType::Float16, TypeKind::Float16);
    refused(DataType::Duration(TimeUnit::Second), TypeKind::Duration(TimeUnit::Second));
    refused(DataType::Interval, TypeKind::Interval);
    refused(DataType::Decimal, TypeKind::Decimal);
    refused(DataType::Other, TypeKind::Other);
    refused(DataType::LargeList(Box::new(field("element", DataType::Int32))), TypeKind::LargeList);
    refused(DataType::FixedSizeList(Box::new(field("element", DataType::Int32)), 2), TypeKind::FixedSizeList);
}

#[test]
fn large_text_and_binary_build_like_the_plain_ones() {
    let index = index(&[("v", 0)]);
    let records = records(vec![text("a")]);
    let rows = rows(&index, &records);
    assert_eq!(build_column(&rows, &name(), &DataType::LargeUtf8), build_column(&rows, &name(), &DataType::Utf8));
    assert_eq!(build_column(&rows, &name(), &DataType::LargeBinary), build_column(&rows, &name(), &DataType::Binary));
    assert_eq!(build_column(&rows, &name(), &DataType::Binary), Ok(Column::Binary { values: vec![Some(vec![0x61])] }));
}

#[test]
fn struct_rows_give_validity_and_records() {
    let index = index(&[]);
    let inner: Record = vec![("x".to_string(), Value::Int(1))];
    let values = vec![
        Value::Record(vec![("x".to_string(), Value::Int(1))]),
        Value::Null,
        Value::Union(0, Box::new(Value::Null)),
    ];
    let slots: Vec<Slot> = values.iter().map(|value| Slot { index: &index, value }).collect();
    let (validity, rows) = struct_rows(&slots, &"s".to_string()).unwrap();
    assert_eq!(validity, bits(&[true, false, false]));
    assert_eq!(rows.len(), 3);
    assert_eq!(rows[0].record, Some(&inner));
    assert_eq!(rows[1].record, None);
    assert_eq!(rows[2].record, None);
    let bad = vec![Value::Null, Value::Int(3)];
    let slots: Vec<Slot> = bad.iter().map(|value| Slot { index: &index, value }).collect();
    assert_eq!(
        struct_rows(&slots, &"s".to_string()).err(),
        Some(DecodeError::ShapeMismatch { expected: ValueKind::Record, actual: ValueKind::Int, path: "s".to_string() })
    );
}

#[test]
fn struct_column_feeds_children_one_row_for_each_row() {
    let index = index(&[("s", 0), ("s.x", 0), ("s.y", 1)]);
    let records: Vec<Record> = vec![
        vec![("s".to_string(), Value::Record(vec![("x".to_string(), Value::Int(1)), ("y".to_string(), text("a"))]))],
        vec![("s".to_string(), Value::Null)],
        vec![],
        vec![("s".to_string(), Value::Union(1, Box::new(Value::Record(vec![("x".to_string(), Value::Int(4))]))))],
    ];
    let fields = vec![field("y", DataType::Utf8), field("x", DataType::Int32)];
    let expected = Column::Struct {
        validity: bits(&[true, false, false, true]),
        children: vec![
            Column::Utf8 { values: vec![Some("a".to_string()), None, None, None] },
            Column::Integer { values: vec![Some(1), None, None, Some(4)] },
        ],
    };
    assert_eq!(build_column(&rows(&index, &records), &"s".to_string(), &DataType::Struct(fields)), Ok(expected));
}

#[test]
fn struct_column_fails_on_a_value_that_is_no_record() {
    let index = index(&[("s", 0), ("s.x", 0)]);
    let records: Vec<Record> = vec![vec![("s".to_string(), Value::Null)], vec![("s".to_string(), text("oops"))]];
    let null = Value::Null;
    let rows = rows(&index, &records);
    let slots = extract_rows(&rows, &"s".to_string(), &null);
    assert_eq!(
        build_struct_column(&slots, &"s".to_string(), &vec![field("x", DataType::Int32)]),
        Err(DecodeError::ShapeMismatch { expected: ValueKind::Record, actual: ValueKind::String, path: "s".to_string() })
    );
}

#[test]
fn struct_array_builds_fields_in_schema_order_and_fails_on_the_first_failure() {
    let index = index(&[("a", 0), ("b", 1)]);
    let records: Vec<Record> = vec![vec![("a".to_string(), Value::Int(1)), ("b".to_string(), text("x"))]];
    let rows = rows(&index, &records);
    assert_eq!(
        build_struct_array(&rows, "", &vec![field("b", DataType::Utf8), field("a", DataType::Int8)]),
        Ok(vec![Column::Utf8 { values: vec![Some("x".to_string())] }, Column::Integer { values: vec![Some(1)] }])
    );
    assert_eq!(build_struct_array(&rows, "", &vec![]), Ok(vec![]));
    assert_eq!(
        build_struct_array(&rows, "", &vec![field("a", DataType::Utf8), field("b", DataType::Float16)]),
        Err(DecodeError::StringConversion { cause: StringCause::NotAString(ValueKind::Int) })
    );
    assert_eq!(
        build_struct_array(&rows, "", &vec![field("b", DataType::Float16), field("a", DataType::Utf8)]),
        Err(DecodeError::UnsupportedType { kind: TypeKind::Float16 })
    );
    assert_eq!(
        build_struct_array(&rows, "p", &vec![field("a", DataType::Int8)]),
        Ok(vec![Column::Integer { values: vec![None] }])
    );
}
