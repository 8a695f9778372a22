use avro_columnar::bitmap::Bitmap;
use avro_columnar::column::{Column, RecordBatch};
use avro_columnar::datatype::{DataType, Field, TypeKind};
use avro_columnar::decoder::AvroDecoder;
use avro_columnar::error::{DecodeError, StringCause};
use avro_columnar::number::Number;
use avro_columnar::schema::{RecordField, RecordSchema, WriterSchema};
use avro_columnar::value::{Value, ValueKind};

fn field(name: &str, data_type: DataType) -> Field {
    Field { name: name.to_string(), data_type, nullable: true }
}

fn record_schema(fields: Vec<(&str, WriterSchema)>) -> WriterSchema {
    let lookup = fields.iter().enumerate().map(|(i, (name, _))| (name.to_string(), i)).collect();
    let fields =
        fields.into_iter().map(|(name, schema)| RecordField { name: name.to_string(), schema }).collect();
    WriterSchema::Record(RecordSchema { fields, lookup })
}

fn record(fields: Vec<(&str, Value)>) -> Value {
    Value::Record(fields.into_iter().map(|(name, value)| (name.to_string(), value)).collect())
}

fn text(s: &str) -> Value {
    Value::String(s.to_string())
}

fn some(s: &str) -> Option<String> {
    Some(s.to_string())
}

fn bits(values: &[bool]) -> Bitmap {
    let mut bitmap = Bitmap::zeroed(values.len());
    for (i, set) in values.iter().enumerate() {
        if *set {
            bitmap.set(i);
        }
    }
    bitmap
}

fn target() -> Vec<Field> {
    vec![
        field("id", DataType::Int64),
        field("name", DataType::Utf8),
        field("score", DataType::Float64),
        field("tags", DataType::List(Box::new(field("element", DataType::Utf8)))),
        field("home", DataType::Struct(vec![field("city", DataType::Utf8), field("zip", DataType::Int32)])),
        field("kind", DataType::Dictionary(Box::new(DataType::Int8), Box::new(DataType::Utf8))),
        field("nothing", DataType::Null),
    ]
}

fn writer() -> WriterSchema {
    record_schema(vec![
        ("name", WriterSchema::String),
        ("id", WriterSchema::Long),
        ("home", WriterSchema::Union(vec![
            WriterSchema::Null,
            record_schema(vec![("zip", WriterSchema::Int), ("city", WriterSchema::String)]),
        ])),
        ("tags", WriterSchema::Array(Box::new(WriterSchema::String))),
        ("score", WriterSchema::Double),
        ("kind", WriterSchema::Enum),
        ("extra", WriterSchema::Boolean),
    ])
}

fn sample_rows() -> Vec<Value> {
    vec![
        record(vec![
            ("name", text("ann")),
            ("id", Value::Long(1)),
            ("home", Value::Union(1, Box::new(record(vec![("zip", Value::Int(10115)), ("city", text("Berlin"))])))),
            ("tags", Value::Array(vec![text("x"), text("y")])),
            ("score", Value::Double(0.5f64.to_bits())),
            ("kind", Value::Enum(0, "A".to_string())),
            ("extra", Value::Boolean(true)),
        ]),
        record(vec![("name", Value::Null), ("id", Value::Long(2)), ("home", Value::Union(0, Box::new(Value::Null)))]),
        record(vec![]),
        record(vec![
            ("name", text("dan")),
            ("id", text("not a number")),
            ("home", record(vec![("zip", Value::Long(1 << 40))])),
            ("tags", text("solo")),
            ("score", Value::Int(3)),
            ("kind", Value::Enum(0, "A".to_string())),
        ]),
    ]
}

fn sample_decoder() -> AvroDecoder {
    let mut decoder = AvroDecoder::new(target());
    decoder.register_schema(1, writer()).unwrap();
    for row in sample_rows() {
        decoder.append_value((1, row));
    }
    decoder
}

fn expected_columns() -> Vec<Column> {
    vec![
        Column::Integer { values: vec![Some(1), Some(2), None, None] },
        Column::Utf8 { values: vec![some("ann"), None, None, some("dan")] },
        Column::Float { values: vec![Some(Number::Double(0.5f64.to_bits())), None, None, Some(Number::Int(3))] },
        Column::List {
            offsets: vec![0, 2, 2, 2, 3],
            validity: bits(&[true, false, false, true]),
            child: Box::new(Column::Utf8 { values: vec![some("x"), some("y"), some("solo")] }),
        },
        Column::Struct {
            validity: bits(&[true, false, false, true]),
            children: vec![
                Column::Utf8 { values: vec![some("Berlin"), None, None, None] },
                Column::Integer { values: vec![Some(10115), None, None, None] },
            ],
        },
        Column::Dictionary { keys: vec![Some(0), None, None, Some(0)], values: vec!["A".to_string()] },
        Column::Null { len: 4 },
    ]
}

fn row_count(column: &Column) -> usize {
    column.len()
}

#[test]
fn batch_follows_the_target_schema_not_the_source_order() {
    let mut decoder = sample_decoder();
    let batch = decoder.next_batch(16).unwrap().unwrap();
    assert_eq!(batch, RecordBatch { num_rows: 4, columns: expected_columns() });
}

#[test]
fn every_column_has_one_row_for_each_buffered_value() {
    for n in [0usize, 1, 2, 4, 9, 33] {
        let mut decoder = AvroDecoder::new(target());
        decoder.register_schema(1, writer()).unwrap();
        let rows = sample_rows();
        for i in 0..n {
            let row = match &rows[i % rows.len()] {
                Value::Record(fields) if fields.is_empty() => record(vec![]),
                _ => record(vec![("name", text("n")), ("id", Value::Long(i as i64))]),
            };
            decoder.append_value((1, row));
        }
        let batch = decoder.next_batch(0).unwrap().unwrap();
        assert_eq!(batch.num_rows, n);
        assert_eq!(batch.columns.len(), 7);
        for column in &batch.columns {
            assert_eq!(row_count(column), n);
        }
        match &batch.columns[4] {
            Column::Struct { validity, children } => {
                assert_eq!(validity.len(), n);
                assert!(children.iter().all(|child| child.len() == n));
            }
            other => panic!("{other:?}"),
        }
        match &batch.columns[3] {
            Column::List { offsets, validity, child } => {
                assert_eq!(offsets.len(), n + 1);
                assert_eq!(validity.len(), n);
                assert_eq!(child.len(), *offsets.last().unwrap());
            }
            other => panic!("{other:?}"),
        }
    }
}

#[test]
fn missing_field_is_a_null_and_no_failure() {
    let types = vec![
        DataType::Null,
        DataType::Boolean,
        DataType::Int8,
        DataType::UInt64,
        DataType::Float32,
        DataType::Date32,
        DataType::Utf8,
        DataType::LargeUtf8,
        DataType::Binary,
        DataType::FixedSizeBinary(4),
        DataType::Dictionary(Box::new(DataType::Int8), Box::new(DataType::Utf8)),
        DataType::List(Box::new(field("element", DataType::Int32))),
        DataType::List(Box::new(field(
            "element",
            DataType::Dictionary(Box::new(DataType::Int8), Box::new(DataType::Utf8)),
        ))),
        DataType::Struct(vec![field("x", DataType::Utf8)]),
    ];
    for data_type in types {
        let mut decoder = AvroDecoder::new(vec![field("absent", data_type)]);
        decoder.register_schema(1, record_schema(vec![("present", WriterSchema::Int)])).unwrap();
        decoder.append_value((1, record(vec![("present", Value::Int(1))])));
        decoder.append_value((1, record(vec![])));
        let batch = decoder.next_batch(2).unwrap().unwrap();
        assert_eq!(batch.num_rows, 2);
        let null = match &batch.columns[0] {
            Column::Null { len } => *len == 2,
            Column::Boolean { values } => values == &vec![None, None],
            Column::Integer { values } => values == &vec![None, None],
            Column::Float { values } => values == &vec![None, None],
            Column::Utf8 { values } => values == &vec![None, None],
            Column::Binary { values } => values == &vec![None, None],
            Column::FixedSizeBinary { values, .. } => values == &vec![None, None],
            Column::Dictionary { keys, values } => keys == &vec![None, None] && values.is_empty(),
            Column::List { offsets, validity, child } => {
                offsets == &vec![0, 0, 0] && validity == &bits(&[false, false]) && child.len() == 0
            }
            Column::Struct { validity, children } => {
                validity == &bits(&[false, false])
                    && children == &vec![Column::Utf8 { values: vec![None, None] }]
            }
        };
        assert!(null, "{:?}", batch.columns[0]);
    }
}

#[test]
fn missing_list_of_dictionary_texts_is_null_and_a_null_value_is_a_list_of_one_null() {
    let element = field("element", DataType::Dictionary(Box::new(DataType::Int8), Box::new(DataType::Utf8)));
    let mut decoder = AvroDecoder::new(vec![field("tags", DataType::List(Box::new(element)))]);
    decoder.register_schema(1, record_schema(vec![("tags", WriterSchema::String)])).unwrap();
    decoder.append_value((1, record(vec![])));
    decoder.append_value((1, record(vec![("tags", Value::Null)])));
    let batch = decoder.next_batch(2).unwrap().unwrap();
    assert_eq!(
        batch.columns,
        vec![Column::List {
            offsets: vec![0, 0, 1],
            validity: bits(&[false, true]),
            child: Box::new(Column::Dictionary { keys: vec![None], values: vec![] }),
        }]
    );
}

#[test]
fn decoding_the_same_rows_twice_gives_the_same_batch() {
    let first = sample_decoder().next_batch(16);
    let second = sample_decoder().next_batch(16);
    assert_eq!(first, second);
    let mut decoder = sample_decoder();
    let once = decoder.next_batch(16).unwrap().unwrap();
    for row in sample_rows() {
        decoder.append_value((1, row));
    }
    let again = decoder.next_batch(16).unwrap().unwrap();
    assert_eq!(once, again);
    assert_eq!(once.columns[3], again.columns[3]);
}

#[test]
fn pass_empties_the_buffer() {
    let mut decoder = sample_decoder();
    assert_eq!(decoder.buffer.len(), 4);
    decoder.next_batch(16).unwrap().unwrap();
    assert!(decoder.buffer.is_empty());
    let empty = decoder.next_batch(16).unwrap().unwrap();
    assert_eq!(empty.num_rows, 0);
    assert_eq!(empty.columns.len(), 7);
    assert!(empty.columns.iter().all(|column| column.len() == 0));
    assert_eq!(empty.columns[3], Column::List {
        offsets: vec![0],
        validity: bits(&[]),
        child: Box::new(Column::Utf8 { values: vec![] }),
    });
}

#[test]
fn new_decoder_gives_an_empty_batch_with_every_column() {
    let mut decoder = AvroDecoder::new(vec![field("a", DataType::Int32), field("b", DataType::Utf8)]);
    assert!(decoder.buffer.is_empty());
    assert!(decoder.lookup.is_empty());
    assert_eq!(
        decoder.next_batch(1),
        Some(Ok(RecordBatch {
            num_rows: 0,
            columns: vec![Column::Integer { values: vec![] }, Column::Utf8 { values: vec![] }],
        }))
    );
}

#[test]
fn flush_gives_nothing_and_changes_nothing() {
    let mut decoder = sample_decoder();
    assert_eq!(decoder.flush(), Ok(None));
    assert_eq!(decoder.buffer.len(), 4);
    assert_eq!(decoder.next_batch(16).unwrap().unwrap().num_rows, 4);
}

#[test]
fn append_keeps_the_order_of_the_values() {
    let mut decoder = AvroDecoder::new(vec![field("a", DataType::Int32)]);
    decoder.register_schema(3, record_schema(vec![("a", WriterSchema::Int)])).unwrap();
    for i in 0..5 {
        decoder.append_value((3, record(vec![("a", Value::Int(i))])));
    }
    assert_eq!(decoder.buffer[2], (3, record(vec![("a", Value::Int(2))])));
    assert_eq!(
        decoder.next_batch(5).unwrap().unwrap().columns,
        vec![Column::Integer { values: vec![Some(0), Some(1), Some(2), Some(3), Some(4)] }]
    );
}

#[test]
fn rows_of_different_writer_schemas_go_by_their_own_index() {
    let mut decoder = AvroDecoder::new(vec![field("a", DataType::Int32), field("b", DataType::Utf8)]);
    decoder.register_schema(1, record_schema(vec![("a", WriterSchema::Int), ("b", WriterSchema::String)])).unwrap();
    decoder.register_schema(2, record_schema(vec![("b", WriterSchema::String), ("c", WriterSchema::Int), ("a", WriterSchema::Int)])).unwrap();
    decoder.append_value((1, record(vec![("a", Value::Int(1)), ("b", text("one"))])));
    decoder.append_value((2, record(vec![("b", text("two")), ("c", Value::Int(9)), ("a", Value::Int(2))])));
    assert_eq!(
        decoder.next_batch(2).unwrap().unwrap().columns,
        vec![Column::Integer { values: vec![Some(1), Some(2)] }, Column::Utf8 { values: vec![some("one"), some("two")] }]
    );
}

#[test]
fn later_registration_replaces_the_index() {
    let mut decoder = AvroDecoder::new(vec![field("a", DataType::Int32)]);
    decoder.register_schema(1, record_schema(vec![("a", WriterSchema::Int)])).unwrap();
    decoder.register_schema(1, record_schema(vec![("z", WriterSchema::Int), ("a", WriterSchema::Int)])).unwrap();
    decoder.append_value((1, record(vec![("z", Value::Int(1)), ("a", Value::Int(2))])));
    assert_eq!(decoder.next_batch(1).unwrap().unwrap().columns, vec![Column::Integer { values: vec![Some(2)] }]);
    assert_eq!(decoder.lookup.len(), 1);
}

#[test]
fn schema_that_is_no_record_is_not_registered() {
    let mut decoder = AvroDecoder::new(vec![]);
    assert_eq!(decoder.register_schema(1, WriterSchema::String), Err(DecodeError::NotARecord));
    assert!(decoder.lookup.is_empty());
}

#[test]
fn row_of_an_unregistered_schema_fails_the_pass() {
    let mut decoder = sample_decoder();
    decoder.append_value((99, record(vec![])));
    assert_eq!(decoder.next_batch(16), Some(Err(DecodeError::SchemaResolutionFailed { schema_id: 99 })));
    assert!(decoder.buffer.is_empty());
}

#[test]
fn row_that_is_no_record_fails_the_pass() {
    let mut decoder = sample_decoder();
    decoder.append_value((1, Value::Array(vec![])));
    decoder.append_value((99, record(vec![])));
    assert_eq!(
        decoder.next_batch(16),
        Some(Err(DecodeError::ShapeMismatch { expected: ValueKind::Record, actual: ValueKind::Array, path: String::new() }))
    );
    let mut decoder = sample_decoder();
    decoder.append_value((1, Value::Union(1, Box::new(record(vec![])))));
    assert_eq!(
        decoder.next_batch(16),
        Some(Err(DecodeError::ShapeMismatch { expected: ValueKind::Record, actual: ValueKind::Union, path: String::new() }))
    );
}

#[test]
fn failure_of_one_column_fails_the_batch() {
    let mut decoder = AvroDecoder::new(vec![
        field("a", DataType::Int32),
        field("b", DataType::Utf8),
        field("c", DataType::Float16),
    ]);
    decoder.register_schema(1, record_schema(vec![("a", WriterSchema::Int), ("b", WriterSchema::Int)])).unwrap();
    decoder.append_value((1, record(vec![("a", Value::Int(1)), ("b", text("fine"))])));
    assert_eq!(decoder.next_batch(1), Some(Err(DecodeError::UnsupportedType { kind: TypeKind::Float16 })));
    decoder.append_value((1, record(vec![("a", Value::Int(1)), ("b", Value::Int(2))])));
    assert_eq!(
        decoder.next_batch(1),
        Some(Err(DecodeError::StringConversion { cause: StringCause::NotAString(ValueKind::Int) }))
    );
}

#[test]
fn lookups_at_an_unresolved_union_are_null() {
    let b = || {
        WriterSchema::Union(vec![
            record_schema(vec![("c", WriterSchema::Int)]),
            WriterSchema::String,
            WriterSchema::Boolean,
        ])
    };
    let writer = || record_schema(vec![("a", record_schema(vec![("b", b())]))]);
    let row = || record(vec![("a", record(vec![("b", Value::Union(0, Box::new(record(vec![("c", Value::Int(5))]))))]))]);
    let nested = vec![field(
        "a",
        DataType::Struct(vec![field("b", DataType::Struct(vec![field("c", DataType::Int32)]))]),
    )];
    let mut decoder = AvroDecoder::new(nested);
    decoder.register_schema(1, writer()).unwrap();
    decoder.append_value((1, row()));
    assert_eq!(
        decoder.next_batch(1).unwrap().unwrap().columns,
        vec![Column::Struct {
            validity: bits(&[true]),
            children: vec![Column::Struct {
                validity: bits(&[false]),
                children: vec![Column::Integer { values: vec![None] }],
            }],
        }]
    );
    for data_type in [DataType::Utf8, DataType::Int64, DataType::Boolean, DataType::Binary] {
        let mut decoder = AvroDecoder::new(vec![field("a", DataType::Struct(vec![field("b", data_type)]))]);
        decoder.register_schema(1, writer()).unwrap();
        decoder.append_value((1, row()));
        let batch = decoder.next_batch(1).unwrap().unwrap();
        match &batch.columns[0] {
            Column::Struct { children, .. } => match &children[0] {
                Column::Utf8 { values } => assert_eq!(values, &vec![None]),
                Column::Integer { values } => assert_eq!(values, &vec![None]),
                Column::Boolean { values } => assert_eq!(values, &vec![None]),
                Column::Binary { values } => assert_eq!(values, &vec![None]),
                other => panic!("{other:?}"),
            },
            other => panic!("{other:?}"),
        }
    }
}

#[test]
fn row_that_is_no_record_fails_before_an_unregistered_schema() {
    let mut decoder = sample_decoder();
    decoder.append_value((99, record(vec![])));
    decoder.append_value((1, Value::Long(3)));
    assert_eq!(
        decoder.next_batch(16),
        Some(Err(DecodeError::ShapeMismatch { expected: ValueKind::Record, actual: ValueKind::Long, path: String::new() }))
    );
}

#[test]
fn byte_array_with_an_item_that_is_no_byte_fails_the_batch() {
    let mut decoder = AvroDecoder::new(vec![field("raw", DataType::Binary)]);
    decoder.register_schema(1, record_schema(vec![("raw", WriterSchema::Bytes)])).unwrap();
    decoder.append_value((1, record(vec![("raw", Value::Array(vec![Value::Int(1), Value::Int(2)]))])));
    assert_eq!(decoder.next_batch(1).unwrap().unwrap().columns, vec![Column::Binary { values: vec![Some(vec![1, 2])] }]);
    decoder.append_value((1, record(vec![("raw", Value::Array(vec![Value::Int(1), Value::Int(256)]))])));
    assert_eq!(
        decoder.next_batch(1),
        Some(Err(DecodeError::ShapeMismatch { expected: ValueKind::Bytes, actual: ValueKind::Int, path: "raw".to_string() }))
    );
}
