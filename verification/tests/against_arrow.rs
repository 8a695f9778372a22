use arrow::array::{Array, StringArray, StringDictionaryBuilder};
use arrow::datatypes::{Int8Type, UInt8Type};
use avro_columnar::column::Column;
use avro_columnar::decoder::build_dictionary_array;
use avro_columnar::model::Row;
use avro_columnar::number::Native;
use avro_columnar::schema::SchemaIndex;
use avro_columnar::value::Value;

type Record = Vec<(String, Value)>;

fn index() -> SchemaIndex {
    let mut index = SchemaIndex::new();
    index.insert("v".to_string(), 0);
    index
}

fn records(texts: &[Option<String>]) -> Vec<Record> {
    texts
        .iter()
        .map(|text| {
            let value = match text {
                Some(s) => Value::String(s.clone()),
                None => Value::Null,
            };
            vec![("v".to_string(), value)]
        })
        .collect()
}

fn library(texts: &[Option<String>], native: Native) -> Option<(Vec<Option<u64>>, Vec<String>)> {
    let index = index();
    let records = records(texts);
    let rows: Vec<Row> = records.iter().map(|record| Row { index: &index, record: Some(record) }).collect();
    match build_dictionary_array(&rows, &"v".to_string(), native) {
        Ok(Column::Dictionary { keys, values }) => Some((keys, values)),
        Ok(other) => panic!("{other:?}"),
        Err(_) => None,
    }
}

fn values_of(array: &dyn Array) -> Vec<String> {
    let values = array.as_any().downcast_ref::<StringArray>().unwrap();
    (0..values.len()).map(|i| values.value(i).to_string()).collect()
}

fn arrow_signed(texts: &[Option<String>]) -> Option<(Vec<Option<u64>>, Vec<String>)> {
    let mut builder = StringDictionaryBuilder::<Int8Type>::new();
    for text in texts {
        match text {
            Some(s) => {
                if builder.append(s).is_err() {
                    return None;
                }
            }
            None => builder.append_null(),
        }
    }
    let array = builder.finish();
    let keys = array.keys().iter().map(|key| key.map(|k| k as u64)).collect();
    Some((keys, values_of(array.values().as_ref())))
}

fn arrow_unsigned(texts: &[Option<String>]) -> Option<(Vec<Option<u64>>, Vec<String>)> {
    let mut builder = StringDictionaryBuilder::<UInt8Type>::new();
    for text in texts {
        match text {
            Some(s) => {
                if builder.append(s).is_err() {
                    return None;
                }
            }
            None => builder.append_null(),
        }
    }
    let array = builder.finish();
    let keys = array.keys().iter().map(|key| key.map(u64::from)).collect();
    Some((keys, values_of(array.values().as_ref())))
}

fn texts(len: usize, distinct: u64, seed: u64) -> Vec<Option<String>> {
    let mut state = seed | 1;
    (0..len)
        .map(|_| {
            state ^= state << 13;
            state ^= state >> 7;
            state ^= state << 17;
            if state % 7 == 0 {
                None
            } else {
                Some(format!("t{}", (state >> 8) % distinct))
            }
        })
        .collect()
}

#[test]
fn dictionary_encoding_agrees_with_the_arrow_builder() {
    for seed in 1..40u64 {
        let sample = texts(200, 1 + seed * 3, seed);
        assert_eq!(library(&sample, Native::I8), arrow_signed(&sample), "seed {seed}");
        assert_eq!(library(&sample, Native::U8), arrow_unsigned(&sample), "seed {seed}");
    }
}

#[test]
fn dictionary_overflows_where_the_arrow_builder_does() {
    for distinct in 120..140usize {
        let sample: Vec<Option<String>> = (0..distinct).map(|i| Some(format!("d{i}"))).collect();
        assert_eq!(library(&sample, Native::I8).is_some(), arrow_signed(&sample).is_some(), "{distinct}");
        assert_eq!(library(&sample, Native::I8).is_some(), distinct <= 128);
    }
    for distinct in 250..262usize {
        let sample: Vec<Option<String>> = (0..distinct).map(|i| Some(format!("d{i}"))).collect();
        assert_eq!(library(&sample, Native::U8).is_some(), arrow_unsigned(&sample).is_some(), "{distinct}");
        assert_eq!(library(&sample, Native::U8).is_some(), distinct <= 256);
    }
}
