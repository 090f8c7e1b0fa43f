use std::collections::HashMap;

use avro_ffi::boundary::{avro_err_get_last_code, AvroErrorCode, AvroStr, ErrorSlot};
use avro_ffi::codec::AvroCodec;
use avro_ffi::reader::{avro_reader_new, ReadNext};
use avro_ffi::schema::{AvroSchema, RecordField};
use avro_ffi::types::{avro_record_new, avro_record_put, avro_record_to_value, avro_value_record_get, avro_value_string_get, avro_value_string_new};
use avro_ffi::value::{AvroValue, PickleValue};
use avro_ffi::writer::avro_writer_new;
use avro_rs::types::Value;
use serde_pickle::value::{HashableValue, Value as Pickled};

const TEST_SCHEMA: &str = r#"
{"namespace": "test", "type": "record", "name": "Test", "fields": [{"type": {"type": "string"}, "name": "field"}]}
"#;

fn test_schema() -> AvroSchema {
    AvroSchema::Record {
        fields: vec![RecordField { name: "field".to_string(), schema: AvroSchema::String, default: None }],
    }
}

fn to_container(v: AvroValue) -> Value {
    match v {
        AvroValue::Null => Value::Null,
        AvroValue::Boolean(b) => Value::Boolean(b),
        AvroValue::Int(n) => Value::Int(n),
        AvroValue::Long(n) => Value::Long(n),
        AvroValue::Float(bits) => Value::Float(f64::from_bits(bits) as f32),
        AvroValue::Double(bits) => Value::Double(f64::from_bits(bits)),
        AvroValue::Bytes(b) => Value::Bytes(b),
        AvroValue::String(s) => Value::String(s),
        AvroValue::Fixed(n, b) => Value::Fixed(n, b),
        AvroValue::Enum(k, s) => Value::Enum(k, s),
        AvroValue::Union(None) => Value::Union(Box::new(Value::Null)),
        AvroValue::Union(Some(v)) => Value::Union(Box::new(to_container(*v))),
        AvroValue::Array(items) => Value::Array(items.into_iter().map(to_container).collect()),
        AvroValue::StringMap(es) => Value::Map(es.into_iter().map(|(k, v)| (k, to_container(v))).collect()),
        AvroValue::Record(es) => Value::Record(es.into_iter().map(|(k, v)| (k, to_container(v))).collect()),
    }
}

fn from_container(v: Value) -> AvroValue {
    match v {
        Value::Null => AvroValue::Null,
        Value::Boolean(b) => AvroValue::Boolean(b),
        Value::Int(n) => AvroValue::Int(n),
        Value::Long(n) => AvroValue::Long(n),
        Value::Float(x) => AvroValue::Float(f64::from(x).to_bits()),
        Value::Double(x) => AvroValue::Double(x.to_bits()),
        Value::Bytes(b) => AvroValue::Bytes(b),
        Value::String(s) => AvroValue::String(s),
        Value::Fixed(n, b) => AvroValue::Fixed(n, b),
        Value::Enum(k, s) => AvroValue::Enum(k, s),
        Value::Union(v) => match *v {
            Value::Null => AvroValue::Union(None),
            other => AvroValue::Union(Some(Box::new(from_container(other)))),
        },
        Value::Array(items) => AvroValue::Array(items.into_iter().map(from_container).collect()),
        Value::Map(es) => AvroValue::StringMap(es.into_iter().map(|(k, v)| (k, from_container(v))).collect()),
        Value::Record(es) => AvroValue::Record(es.into_iter().map(|(k, v)| (k, from_container(v))).collect()),
        other => panic!("unexpected value {:?}", other),
    }
}

fn from_pickled(v: Pickled) -> PickleValue {
    match v {
        Pickled::None => PickleValue::Nil,
        Pickled::Bool(b) => PickleValue::Bool(b),
        Pickled::I64(n) => PickleValue::Integer(n),
        Pickled::F64(x) => PickleValue::Float(x.to_bits()),
        Pickled::Bytes(b) => PickleValue::Bytes(b),
        Pickled::String(s) => PickleValue::Text(s),
        Pickled::List(items) => PickleValue::List(items.into_iter().map(from_pickled).collect()),
        Pickled::Tuple(items) => PickleValue::Tuple(items.into_iter().map(from_pickled).collect()),
        Pickled::Set(items) => PickleValue::MutableSet(items.into_iter().map(|h| from_pickled(h.into_value())).collect()),
        Pickled::FrozenSet(items) => PickleValue::FrozenSet(items.into_iter().map(|h| from_pickled(h.into_value())).collect()),
        Pickled::Dict(es) => PickleValue::Dict(es.into_iter().map(|(k, v)| (from_pickled(k.into_value()), from_pickled(v))).collect()),
        other => panic!("unexpected value {:?}", other),
    }
}

fn hashable(v: PickleValue) -> HashableValue {
    match v {
        PickleValue::Text(s) => HashableValue::String(s),
        PickleValue::Bytes(b) => HashableValue::Bytes(b),
        PickleValue::Integer(n) => HashableValue::I64(n),
        other => panic!("unexpected key {:?}", other),
    }
}

fn to_pickled(v: PickleValue) -> Pickled {
    match v {
        PickleValue::Nil => Pickled::None,
        PickleValue::Bool(b) => Pickled::Bool(b),
        PickleValue::Integer(n) => Pickled::I64(n),
        PickleValue::Float(bits) => Pickled::F64(f64::from_bits(bits)),
        PickleValue::Bytes(b) => Pickled::Bytes(b),
        PickleValue::Text(s) => Pickled::String(s),
        PickleValue::List(items) => Pickled::List(items.into_iter().map(to_pickled).collect()),
        PickleValue::Tuple(items) => Pickled::Tuple(items.into_iter().map(to_pickled).collect()),
        PickleValue::MutableSet(items) => Pickled::Set(items.into_iter().map(hashable).collect()),
        PickleValue::FrozenSet(items) => Pickled::FrozenSet(items.into_iter().map(hashable).collect()),
        PickleValue::Dict(es) => Pickled::Dict(es.into_iter().map(|(k, v)| (hashable(k), to_pickled(v))).collect()),
    }
}

fn record_of(text: &str) -> PickleValue {
    PickleValue::Dict(vec![(PickleValue::Text("field".to_string()), PickleValue::Text(text.to_string()))])
}

fn write_dynamic(schema: &AvroSchema, values: Vec<PickleValue>) -> Vec<u8> {
    let container_schema = avro_rs::Schema::parse_str(TEST_SCHEMA).unwrap();
    let writer = avro_writer_new(schema, AvroCodec::Null);
    let mut out = avro_rs::Writer::with_codec(&container_schema, Vec::new(), writer.codec().to_codec());
    let mut slot = ErrorSlot::new();
    for value in values {
        let typed = writer.prepare_append(&mut slot, &value).unwrap();
        out.append(to_container(typed)).unwrap();
    }
    out.flush().unwrap();
    out.into_inner().unwrap()
}

fn read_dynamic(data: &[u8]) -> Vec<PickleValue> {
    let mut decoder = avro_rs::Reader::new(data).unwrap();
    let mut reader = avro_reader_new(None);
    let mut slot = ErrorSlot::new();
    let mut read = Vec::new();
    loop {
        let decoded = decoder.next().map(|r| r.map(from_container).map_err(|e| panic!("{}", e)));
        match reader.step_dynamic(&mut slot, decoded) {
            ReadNext::Value(v) => read.push(v),
            ReadNext::End => break,
            ReadNext::Failed => panic!("read failed"),
        }
    }
    assert_eq!(reader.step_dynamic(&mut slot, decoder.next().map(|r| r.map(from_container).map_err(|e| panic!("{}", e)))), ReadNext::End);
    assert_eq!(reader.count(), read.len());
    read
}

fn round_trip(n: usize) {
    let schema = test_schema();
    let data = write_dynamic(&schema, (0..n).map(|i| record_of(&format!("v{}", i))).collect());
    let read = read_dynamic(&data);
    assert_eq!(read.len(), n);
    for (i, v) in read.into_iter().enumerate() {
        assert_eq!(v, record_of(&format!("v{}", i)));
    }
}

#[test]
fn write_then_read_none() {
    // The container library writes its header with the first value, so an
    // empty sequence leaves no bytes, and its reader refuses an empty buffer.
    let schema = test_schema();
    let data = write_dynamic(&schema, vec![]);
    assert!(data.is_empty());
    assert!(avro_rs::Reader::new(&data[..]).is_err());
    let mut reader = avro_reader_new(None);
    let mut slot = ErrorSlot::new();
    assert_eq!(reader.step_dynamic(&mut slot, None), ReadNext::End);
    assert_eq!(reader.count(), 0);
}

#[test]
fn write_then_read_one() {
    round_trip(1);
}

#[test]
fn write_then_read_thousand() {
    round_trip(1000);
}

#[test]
fn write_then_read_example_record() {
    let schema = test_schema();
    let data = write_dynamic(&schema, vec![record_of("foo")]);
    let read = read_dynamic(&data);
    assert_eq!(read, vec![record_of("foo")]);
}

#[test]
fn append_of_a_mismatched_value_is_recorded() {
    let schema = test_schema();
    let writer = avro_writer_new(&schema, AvroCodec::Deflate);
    let mut slot = ErrorSlot::new();
    let value = PickleValue::Dict(vec![]);
    assert!(writer.prepare_append(&mut slot, &value).is_none());
    assert_eq!(avro_err_get_last_code(&slot), AvroErrorCode::Unknown);
    assert_eq!(slot.last.unwrap().message, "missing field field in record");
}

#[test]
fn full_test() {
    let schema = test_schema();
    let pickle = b"(dp1\nS'field'\np2\nS'foo'\np3\ns.";
    let value = from_pickled(serde_pickle::value_from_slice(pickle, serde_pickle::DeOptions::new()).unwrap());
    let data = write_dynamic(&schema, vec![value]);
    for value in read_dynamic(&data) {
        let bytes = serde_pickle::value_to_vec(&to_pickled(value), serde_pickle::SerOptions::new()).unwrap();
        let pickle_map: HashMap<String, Pickled> = serde_pickle::from_slice(&bytes, serde_pickle::DeOptions::new()).unwrap();
        let pickle_value = pickle_map.get("field").unwrap();
        if let Pickled::String(s) = pickle_value {
            assert_eq!("foo", s);
        } else {
            assert!(false, "the value is not a string");
        }
    }
}

#[test]
fn full_test2() {
    let schema = test_schema();
    let container_schema = avro_rs::Schema::parse_str(TEST_SCHEMA).unwrap();
    let writer = avro_writer_new(&schema, AvroCodec::Null);
    let field = AvroStr::new("field");
    let foo_value = avro_value_string_new(AvroStr::from_string("foo".to_string()));
    let mut record = avro_record_new(&schema).unwrap();
    avro_record_put(&mut record, &field, foo_value);
    let value = avro_record_to_value(record);

    let mut out = avro_rs::Writer::with_codec(&container_schema, Vec::new(), writer.codec().to_codec());
    out.append(to_container(value)).unwrap();
    out.flush().unwrap();
    let data = out.into_inner().unwrap();

    let mut decoder = avro_rs::Reader::new(&data[..]).unwrap();
    let mut reader = avro_reader_new(None);
    let mut slot = ErrorSlot::new();
    let read_value = match reader.step(&mut slot, decoder.next().map(|r| r.map(from_container).map_err(|e| panic!("{}", e)))) {
        ReadNext::Value(v) => v,
        _ => panic!("no value"),
    };
    assert!(reader.step(&mut slot, decoder.next().map(|r| r.map(from_container).map_err(|e| panic!("{}", e)))) == ReadNext::End);

    let string_value = avro_value_record_get(&read_value, &field).unwrap();
    let internal_string = avro_value_string_get(string_value).unwrap();
    assert_eq!("foo", internal_string.as_str());
}
