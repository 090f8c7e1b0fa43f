use avro_ffi::convert::{avro_value_from_pickle, pickle_value_from_avro, ConvertError};
use avro_ffi::schema::{AvroSchema, RecordField};
use avro_ffi::value::{AvroValue, PickleValue};

fn text(s: &str) -> PickleValue {
    PickleValue::Text(s.to_string())
}

fn field(name: &str, schema: AvroSchema, default: Option<AvroValue>) -> RecordField {
    RecordField { name: name.to_string(), schema, default }
}

fn test_schema() -> AvroSchema {
    AvroSchema::Record { fields: vec![field("field", AvroSchema::String, None)] }
}

#[test]
fn pickle_int() {
    let avro_value = avro_value_from_pickle(&AvroSchema::Int, &PickleValue::Integer(42));
    assert!(avro_value.is_ok());
    assert_eq!(avro_value.unwrap(), AvroValue::Int(42));
}

#[test]
fn pickle_record() {
    let schema = test_schema();
    let record = vec![(PickleValue::Bytes("field".as_bytes().to_owned()), text("foo"))];
    let avro_value = avro_value_from_pickle(&schema, &PickleValue::Dict(record));
    if let Ok(AvroValue::Record(fields)) = avro_value {
        assert_eq!(fields.len(), 1);
        assert_eq!(fields[0].1, AvroValue::String("foo".to_owned()));
    } else {
        assert!(false);
    }
}

#[test]
fn scalars_accept_their_own_variant() {
    assert_eq!(avro_value_from_pickle(&AvroSchema::Null, &PickleValue::Nil), Ok(AvroValue::Null));
    assert_eq!(avro_value_from_pickle(&AvroSchema::Boolean, &PickleValue::Bool(true)), Ok(AvroValue::Boolean(true)));
    assert_eq!(avro_value_from_pickle(&AvroSchema::Long, &PickleValue::Integer(-7)), Ok(AvroValue::Long(-7)));
    let bits = 1.5f64.to_bits();
    assert_eq!(avro_value_from_pickle(&AvroSchema::Double, &PickleValue::Float(bits)), Ok(AvroValue::Double(bits)));
    assert_eq!(avro_value_from_pickle(&AvroSchema::Float, &PickleValue::Float(bits)), Ok(AvroValue::Float(bits)));
}

#[test]
fn out_of_set_variants_are_type_mismatches() {
    let cases: Vec<(AvroSchema, PickleValue)> = vec![
        (AvroSchema::Null, PickleValue::Bool(false)),
        (AvroSchema::Boolean, PickleValue::Integer(1)),
        (AvroSchema::Int, text("1")),
        (AvroSchema::Long, PickleValue::Float(0)),
        (AvroSchema::Float, PickleValue::Integer(1)),
        (AvroSchema::Double, PickleValue::Nil),
        (AvroSchema::Bytes, PickleValue::Integer(1)),
        (AvroSchema::String, PickleValue::List(vec![])),
        (AvroSchema::Fixed { size: 1 }, text("a")),
        (AvroSchema::Array(Box::new(AvroSchema::Int)), PickleValue::Dict(vec![])),
        (AvroSchema::StringMap(Box::new(AvroSchema::Int)), PickleValue::List(vec![])),
        (AvroSchema::Union(Box::new(AvroSchema::Int)), text("x")),
        (test_schema(), PickleValue::Tuple(vec![])),
        (AvroSchema::Enum { symbols: vec!["A".to_string()] }, PickleValue::Bytes(b"A".to_vec())),
    ];
    for (schema, value) in cases {
        assert_eq!(avro_value_from_pickle(&schema, &value), Err(ConvertError::TypeMismatch));
    }
}

#[test]
fn int_truncates_to_32_bits() {
    let r = avro_value_from_pickle(&AvroSchema::Int, &PickleValue::Integer((1i64 << 32) + 5));
    assert_eq!(r, Ok(AvroValue::Int(5)));
}

#[test]
fn bytes_from_text_take_its_utf8_encoding() {
    let r = avro_value_from_pickle(&AvroSchema::Bytes, &text("hé"));
    assert_eq!(r, Ok(AvroValue::Bytes(vec![0x68, 0xc3, 0xa9])));
}

#[test]
fn string_from_bytes_decodes_utf8() {
    let r = avro_value_from_pickle(&AvroSchema::String, &PickleValue::Bytes(vec![0x68, 0xc3, 0xa9]));
    assert_eq!(r, Ok(AvroValue::String("hé".to_string())));
}

#[test]
fn string_from_invalid_bytes_is_invalid_encoding() {
    let r = avro_value_from_pickle(&AvroSchema::String, &PickleValue::Bytes(vec![0xff, 0xfe]));
    assert_eq!(r, Err(ConvertError::InvalidEncoding));
}

#[test]
fn fixed_size_mismatch() {
    let schema = AvroSchema::Fixed { size: 4 };
    let r = avro_value_from_pickle(&schema, &PickleValue::Bytes(vec![1, 2, 3]));
    assert_eq!(r, Err(ConvertError::SizeMismatch));
    let r = avro_value_from_pickle(&schema, &PickleValue::Bytes(vec![1, 2, 3, 4]));
    assert_eq!(r, Ok(AvroValue::Fixed(4, vec![1, 2, 3, 4])));
}

#[test]
fn arrays_keep_order_for_every_sequence_kind() {
    let schema = AvroSchema::Array(Box::new(AvroSchema::Long));
    let items = || vec![PickleValue::Integer(3), PickleValue::Integer(1), PickleValue::Integer(2)];
    let expected = AvroValue::Array(vec![AvroValue::Long(3), AvroValue::Long(1), AvroValue::Long(2)]);
    assert_eq!(avro_value_from_pickle(&schema, &PickleValue::List(items())), Ok(expected));
    let expected = AvroValue::Array(vec![AvroValue::Long(3), AvroValue::Long(1), AvroValue::Long(2)]);
    assert_eq!(avro_value_from_pickle(&schema, &PickleValue::Tuple(items())), Ok(expected));
    let expected = AvroValue::Array(vec![AvroValue::Long(3), AvroValue::Long(1), AvroValue::Long(2)]);
    assert_eq!(avro_value_from_pickle(&schema, &PickleValue::MutableSet(items())), Ok(expected));
    let expected = AvroValue::Array(vec![AvroValue::Long(3), AvroValue::Long(1), AvroValue::Long(2)]);
    assert_eq!(avro_value_from_pickle(&schema, &PickleValue::FrozenSet(items())), Ok(expected));
}

#[test]
fn array_item_failure_fails_the_array() {
    let schema = AvroSchema::Array(Box::new(AvroSchema::Long));
    let value = PickleValue::List(vec![PickleValue::Integer(3), text("x"), PickleValue::Integer(2)]);
    assert_eq!(avro_value_from_pickle(&schema, &value), Err(ConvertError::TypeMismatch));
}

#[test]
fn map_with_text_keys() {
    let schema = AvroSchema::StringMap(Box::new(AvroSchema::Int));
    let value = PickleValue::Dict(vec![(text("a"), PickleValue::Integer(1)), (text("b"), PickleValue::Integer(2))]);
    let expected = AvroValue::StringMap(vec![
        ("a".to_string(), AvroValue::Int(1)),
        ("b".to_string(), AvroValue::Int(2)),
    ]);
    assert_eq!(avro_value_from_pickle(&schema, &value), Ok(expected));
}

#[test]
fn map_with_a_non_text_key_is_invalid_key() {
    let schema = AvroSchema::StringMap(Box::new(AvroSchema::Int));
    let value = PickleValue::Dict(vec![(text("a"), PickleValue::Integer(1)), (PickleValue::Integer(2), PickleValue::Integer(2))]);
    assert_eq!(avro_value_from_pickle(&schema, &value), Err(ConvertError::InvalidKey));
    let value = PickleValue::Dict(vec![(PickleValue::Bytes(b"a".to_vec()), PickleValue::Integer(1))]);
    assert_eq!(avro_value_from_pickle(&schema, &value), Err(ConvertError::InvalidKey));
}

#[test]
fn union_of_none_is_absent() {
    let schema = AvroSchema::Union(Box::new(AvroSchema::Long));
    assert_eq!(avro_value_from_pickle(&schema, &PickleValue::Nil), Ok(AvroValue::Union(None)));
    assert_eq!(
        avro_value_from_pickle(&schema, &PickleValue::Integer(9)),
        Ok(AvroValue::Union(Some(Box::new(AvroValue::Long(9)))))
    );
}

#[test]
fn enum_lookup() {
    let schema = AvroSchema::Enum { symbols: vec!["A".to_string(), "B".to_string(), "C".to_string()] };
    assert_eq!(avro_value_from_pickle(&schema, &text("C")), Ok(AvroValue::Enum(2, "C".to_string())));
    assert_eq!(avro_value_from_pickle(&schema, &text("A")), Ok(AvroValue::Enum(0, "A".to_string())));
    assert_eq!(avro_value_from_pickle(&schema, &text("D")), Err(ConvertError::UnsupportedValue));
    let empty = AvroSchema::Enum { symbols: vec![] };
    assert_eq!(avro_value_from_pickle(&empty, &text("A")), Err(ConvertError::UnsupportedValue));
}

#[test]
fn missing_field_without_default() {
    let schema = AvroSchema::Record {
        fields: vec![field("a", AvroSchema::Long, None), field("b", AvroSchema::Long, None)],
    };
    let value = PickleValue::Dict(vec![(text("a"), PickleValue::Integer(1))]);
    assert_eq!(avro_value_from_pickle(&schema, &value), Err(ConvertError::MissingField("b".to_string())));
}

#[test]
fn missing_field_with_default() {
    let schema = AvroSchema::Record {
        fields: vec![
            field("a", AvroSchema::Long, None),
            field("b", AvroSchema::String, Some(AvroValue::String("dflt".to_string()))),
        ],
    };
    let value = PickleValue::Dict(vec![(text("a"), PickleValue::Integer(1)), (text("extra"), PickleValue::Nil)]);
    let expected = AvroValue::Record(vec![
        ("a".to_string(), AvroValue::Long(1)),
        ("b".to_string(), AvroValue::String("dflt".to_string())),
    ]);
    assert_eq!(avro_value_from_pickle(&schema, &value), Ok(expected));
}

#[test]
fn record_fields_follow_declaration_order() {
    let schema = AvroSchema::Record {
        fields: vec![field("x", AvroSchema::Long, None), field("y", AvroSchema::Boolean, None)],
    };
    let value = PickleValue::Dict(vec![
        (text("y"), PickleValue::Bool(true)),
        (PickleValue::Bytes(b"x".to_vec()), PickleValue::Integer(4)),
    ]);
    let expected = AvroValue::Record(vec![
        ("x".to_string(), AvroValue::Long(4)),
        ("y".to_string(), AvroValue::Boolean(true)),
    ]);
    assert_eq!(avro_value_from_pickle(&schema, &value), Ok(expected));
}

#[test]
fn convert_back_collapses_kinds() {
    assert_eq!(pickle_value_from_avro(&AvroValue::Int(-3)), PickleValue::Integer(-3));
    assert_eq!(pickle_value_from_avro(&AvroValue::Fixed(2, vec![1, 2])), PickleValue::Bytes(vec![1, 2]));
    assert_eq!(pickle_value_from_avro(&AvroValue::Enum(1, "B".to_string())), text("B"));
    assert_eq!(pickle_value_from_avro(&AvroValue::Union(None)), PickleValue::Nil);
    assert_eq!(
        pickle_value_from_avro(&AvroValue::Union(Some(Box::new(AvroValue::Boolean(false))))),
        PickleValue::Bool(false)
    );
    assert_eq!(
        pickle_value_from_avro(&AvroValue::Record(vec![("f".to_string(), AvroValue::Long(1))])),
        PickleValue::Dict(vec![(text("f"), PickleValue::Integer(1))])
    );
    assert_eq!(
        pickle_value_from_avro(&AvroValue::Array(vec![AvroValue::Null, AvroValue::Bytes(vec![7])])),
        PickleValue::List(vec![PickleValue::Nil, PickleValue::Bytes(vec![7])])
    );
}

#[test]
fn convert_back_is_a_fixed_point_for_records() {
    let schema = AvroSchema::Record {
        fields: vec![
            field("n", AvroSchema::Int, None),
            field("s", AvroSchema::String, None),
            field("tags", AvroSchema::Array(Box::new(AvroSchema::Bytes)), None),
            field("opt", AvroSchema::Union(Box::new(AvroSchema::Long)), None),
            field("e", AvroSchema::Enum { symbols: vec!["P".to_string(), "Q".to_string()] }, None),
            field("d", AvroSchema::Long, Some(AvroValue::Long(11))),
        ],
    };
    let value = PickleValue::Dict(vec![
        (PickleValue::Bytes(b"s".to_vec()), PickleValue::Bytes(b"abc".to_vec())),
        (text("n"), PickleValue::Integer(1 << 40)),
        (text("tags"), PickleValue::Tuple(vec![text("t1"), PickleValue::Bytes(vec![9])])),
        (text("opt"), PickleValue::Nil),
        (text("e"), text("Q")),
    ]);
    let once = pickle_value_from_avro(&avro_value_from_pickle(&schema, &value).unwrap());
    let twice = pickle_value_from_avro(&avro_value_from_pickle(&schema, &once).unwrap());
    assert_eq!(once, twice);
}
