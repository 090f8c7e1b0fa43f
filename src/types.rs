use vstd::prelude::*;

use crate::boundary::{AvroByteArray, AvroStr};
use crate::convert::ConvertError;
use crate::schema::AvroSchema;
use crate::value::{avro_entries, avro_items, lemma_avro_model, AvroModel, AvroValue};

verus! {

/// A null value.
pub fn avro_value_null_new() -> (r: AvroValue)
    ensures
        r@ == AvroModel::Null,
{
    AvroValue::Null
}

/// Checks that a value is null.
pub fn avro_value_null_get(value: &AvroValue) -> (r: Result<(), ConvertError>)
    ensures
        r is Ok <==> value@ is Null,
        r matches Err(e) ==> e is TypeMismatch,
{
    match value {
        AvroValue::Null => Ok(()),
        _ => Err(ConvertError::TypeMismatch),
    }
}

/// A boolean value: true exactly for 1.
pub fn avro_value_boolean_new(b: i32) -> (r: AvroValue)
    ensures
        r@ == AvroModel::Boolean(b == 1),
{
    AvroValue::Boolean(b == 1)
}

/// The boolean a value holds.
pub fn avro_value_boolean_get(value: &AvroValue) -> (r: Result<bool, ConvertError>)
    ensures
        match value@ {
            AvroModel::Boolean(b) => r == Ok::<bool, ConvertError>(b),
            _ => r matches Err(e) && e is TypeMismatch,
        },
{
    match value {
        AvroValue::Boolean(b) => Ok(*b),
        _ => Err(ConvertError::TypeMismatch),
    }
}

/// A 32-bit integer value.
pub fn avro_value_int_new(n: i32) -> (r: AvroValue)
    ensures
        r@ == AvroModel::Int(n),
{
    AvroValue::Int(n)
}

/// The 32-bit integer a value holds.
pub fn avro_value_int_get(value: &AvroValue) -> (r: Result<i32, ConvertError>)
    ensures
        match value@ {
            AvroModel::Int(n) => r == Ok::<i32, ConvertError>(n),
            _ => r matches Err(e) && e is TypeMismatch,
        },
{
    match value {
        AvroValue::Int(n) => Ok(*n),
        _ => Err(ConvertError::TypeMismatch),
    }
}

/// A 64-bit integer value.
pub fn avro_value_long_new(n: i64) -> (r: AvroValue)
    ensures
        r@ == AvroModel::Long(n),
{
    AvroValue::Long(n)
}

/// The 64-bit integer a value holds.
pub fn avro_value_long_get(value: &AvroValue) -> (r: Result<i64, ConvertError>)
    ensures
        match value@ {
            AvroModel::Long(n) => r == Ok::<i64, ConvertError>(n),
            _ => r matches Err(e) && e is TypeMismatch,
        },
{
    match value {
        AvroValue::Long(n) => Ok(*n),
        _ => Err(ConvertError::TypeMismatch),
    }
}

/// A single-precision value, given as the bit pattern of its double-precision
/// widening.
pub fn avro_value_float_new(bits: u64) -> (r: AvroValue)
    ensures
        r@ == AvroModel::Float(bits),
{
    AvroValue::Float(bits)
}

/// The bit pattern a single-precision value holds.
pub fn avro_value_float_get(value: &AvroValue) -> (r: Result<u64, ConvertError>)
    ensures
        match value@ {
            AvroModel::Float(f) => r == Ok::<u64, ConvertError>(f),
            _ => r matches Err(e) && e is TypeMismatch,
        },
{
    match value {
        AvroValue::Float(f) => Ok(*f),
        _ => Err(ConvertError::TypeMismatch),
    }
}

/// A double-precision value, given as its bit pattern.
pub fn avro_value_double_new(bits: u64) -> (r: AvroValue)
    ensures
        r@ == AvroModel::Double(bits),
{
    AvroValue::Double(bits)
}

/// The bit pattern a double-precision value holds.
pub fn avro_value_double_get(value: &AvroValue) -> (r: Result<u64, ConvertError>)
    ensures
        match value@ {
            AvroModel::Double(f) => r == Ok::<u64, ConvertError>(f),
            _ => r matches Err(e) && e is TypeMismatch,
        },
{
    match value {
        AvroValue::Double(f) => Ok(*f),
        _ => Err(ConvertError::TypeMismatch),
    }
}

/// A bytes value that takes the bytes of the handle.
pub fn avro_value_bytes_new(b: AvroByteArray) -> (r: AvroValue)
    ensures
        r@ == AvroModel::Bytes(b.view().data),
{
    AvroValue::Bytes(b.into_vec_u8())
}

/// A borrowed handle on the bytes a value holds.
pub fn avro_value_bytes_get<'a>(value: &'a AvroValue) -> (r: Result<AvroByteArray<'a>, ConvertError>)
    ensures
        match value@ {
            AvroModel::Bytes(b) => r matches Ok(h) && h.view().data == b && !h.view().owned,
            _ => r matches Err(e) && e is TypeMismatch,
        },
{
    match value {
        AvroValue::Bytes(b) => Ok(AvroByteArray::new(b.as_slice())),
        _ => Err(ConvertError::TypeMismatch),
    }
}

/// A string value that takes the text of the handle.
pub fn avro_value_string_new(s: AvroStr) -> (r: AvroValue)
    ensures
        r@ == AvroModel::String(s.view().data),
{
    AvroValue::String(s.into_string())
}

/// A borrowed handle on the text a string value holds.
pub fn avro_value_string_get<'a>(value: &'a AvroValue) -> (r: Result<AvroStr<'a>, ConvertError>)
    ensures
        match value@ {
            AvroModel::String(t) => r matches Ok(h) && h.view().data == t && !h.view().owned,
            _ => r matches Err(e) && e is TypeMismatch,
        },
{
    match value {
        AvroValue::String(t) => Ok(AvroStr::new(t.as_str())),
        _ => Err(ConvertError::TypeMismatch),
    }
}

/// An enum value with the given index and symbol.
pub fn avro_value_enum_new(index: i32, symbol: AvroStr) -> (r: AvroValue)
    ensures
        r@ == AvroModel::Enum(index, symbol.view().data),
{
    AvroValue::Enum(index, symbol.into_string())
}

/// A borrowed handle on the symbol an enum value holds.
pub fn avro_value_enum_get<'a>(value: &'a AvroValue) -> (r: Result<AvroStr<'a>, ConvertError>)
    ensures
        match value@ {
            AvroModel::Enum(_, t) => r matches Ok(h) && h.view().data == t && !h.view().owned,
            _ => r matches Err(e) && e is TypeMismatch,
        },
{
    match value {
        AvroValue::Enum(_, t) => Ok(AvroStr::new(t.as_str())),
        _ => Err(ConvertError::TypeMismatch),
    }
}

/// A fixed value of the given size that takes the bytes of the handle.
pub fn avro_value_fixed_new(len: usize, b: AvroByteArray) -> (r: AvroValue)
    ensures
        r@ == AvroModel::Fixed(len, b.view().data),
{
    AvroValue::Fixed(len, b.into_vec_u8())
}

/// A borrowed handle on the bytes a fixed value holds.
pub fn avro_value_fixed_get<'a>(value: &'a AvroValue) -> (r: Result<AvroByteArray<'a>, ConvertError>)
    ensures
        match value@ {
            AvroModel::Fixed(_, b) => r matches Ok(h) && h.view().data == b && !h.view().owned,
            _ => r matches Err(e) && e is TypeMismatch,
        },
{
    match value {
        AvroValue::Fixed(_, b) => Ok(AvroByteArray::new(b.as_slice())),
        _ => Err(ConvertError::TypeMismatch),
    }
}

/// A union value holding the given value, or nothing.
pub fn avro_value_union_new(value: Option<AvroValue>) -> (r: AvroValue)
    ensures
        r@ == match value {
            Some(v) => AvroModel::Union(Some(Box::new(v@))),
            None => AvroModel::Union(None),
        },
{
    match value {
        Some(v) => AvroValue::Union(Some(Box::new(v))),
        None => AvroValue::Union(None),
    }
}

/// An empty array value, with room for `capacity` items.
pub fn avro_value_array_new(capacity: usize) -> (r: AvroValue)
    ensures
        r@ == AvroModel::Array(Seq::empty()),
{
    let r = AvroValue::Array(Vec::with_capacity(capacity));
    proof {
        lemma_avro_model(r);
        assert(avro_items(Seq::<AvroValue>::empty()) =~= Seq::<AvroModel>::empty());
    }
    r
}

/// Appends a value to an array value, consuming it.
pub fn avro_array_append(array: &mut AvroValue, value: AvroValue) -> (r: Result<(), ConvertError>)
    ensures
        match old(array)@ {
            AvroModel::Array(items) => r is Ok && final(array)@ == AvroModel::Array(items.push(value@)),
            _ => r matches Err(e) && e is TypeMismatch && *final(array) == *old(array),
        },
{
    proof {
        lemma_avro_model(*array);
    }
    match array {
        AvroValue::Array(items) => {
            let ghost before = items@;
            items.push(value);
            proof {
                lemma_avro_model(*array);
                assert(avro_items(before.push(value)) =~= avro_items(before).push(value@));
            }
            Ok(())
        },
        _ => Err(ConvertError::TypeMismatch),
    }
}

/// An empty map value, with room for `capacity` entries.
pub fn avro_value_map_new(capacity: usize) -> (r: AvroValue)
    ensures
        r@ == AvroModel::StringMap(Seq::empty()),
{
    let r = AvroValue::StringMap(Vec::with_capacity(capacity));
    proof {
        lemma_avro_model(r);
        assert(avro_entries(Seq::<(String, AvroValue)>::empty()) =~= Seq::<(Seq<char>, AvroModel)>::empty());
    }
    r
}

/// The index of the first entry under `key`, at or after `j`.
pub open spec fn key_index(es: Seq<(Seq<char>, AvroModel)>, key: Seq<char>, j: int) -> Option<int>
    decreases es.len() - j,
{
    if j < 0 || j >= es.len() {
        None
    } else if es[j].0 == key {
        Some(j)
    } else {
        key_index(es, key, j + 1)
    }
}

/// The entries of a map after putting `value` under `key`: the entry under
/// `key` takes the new value where there is one, else a new entry is added at
/// the end.
pub open spec fn map_put(es: Seq<(Seq<char>, AvroModel)>, key: Seq<char>, value: AvroModel) -> Seq<
    (Seq<char>, AvroModel),
> {
    match key_index(es, key, 0) {
        Some(j) => es.update(j, (key, value)),
        None => es.push((key, value)),
    }
}

proof fn lemma_key_index(es: Seq<(Seq<char>, AvroModel)>, key: Seq<char>, j: int)
    ensures
        key_index(es, key, j) matches Some(m) ==> j <= m < es.len() && es[m].0 == key,
    decreases es.len() - j,
{
    if 0 <= j < es.len() {
        lemma_key_index(es, key, j + 1);
    }
}

/// The position of the first entry under `key`.
fn find_key(es: &Vec<(String, AvroValue)>, key: &String) -> (r: Option<usize>)
    ensures
        match r {
            Some(j) => key_index(avro_entries(es@), key@, 0) == Some(j as int),
            None => key_index(avro_entries(es@), key@, 0) is None,
        },
{
    let ghost m = avro_entries(es@);
    let mut j: usize = 0;
    while j < es.len()
        invariant
            0 <= j <= es@.len(),
            m == avro_entries(es@),
            key_index(m, key@, 0) == key_index(m, key@, j as int),
        decreases es@.len() - j,
    {
        if es[j].0.eq(key) {
            return Some(j);
        }
        j += 1;
    }
    None
}

/// Puts a value under a key of a map value, consuming both.
pub fn avro_map_put(map: &mut AvroValue, key: AvroStr, value: AvroValue) -> (r: Result<(), ConvertError>)
    ensures
        match old(map)@ {
            AvroModel::StringMap(es) => r is Ok && final(map)@ == AvroModel::StringMap(
                map_put(es, key.view().data, value@),
            ),
            _ => r matches Err(e) && e is TypeMismatch && *final(map) == *old(map),
        },
{
    proof {
        lemma_avro_model(*map);
    }
    match map {
        AvroValue::StringMap(es) => {
            let ghost before = es@;
            let k = key.into_string();
            let found = find_key(es, &k);
            match found {
                Some(j) => {
                    proof {
                        lemma_key_index(avro_entries(before), k@, 0);
                    }
                    es.set(j, (k, value));
                    proof {
                        assert(avro_entries(es@) =~= avro_entries(before).update(j as int, (k@, value@)));
                    }
                },
                None => {
                    es.push((k, value));
                    proof {
                        assert(avro_entries(es@) =~= avro_entries(before).push((k@, value@)));
                    }
                },
            }
            proof {
                lemma_avro_model(*map);
            }
            Ok(())
        },
        _ => Err(ConvertError::TypeMismatch),
    }
}


/// A record under construction: one entry per field of its schema, in
/// declaration order, each null until a value is put under it.
pub struct AvroRecord {
    fields: Vec<(String, AvroValue)>,
}

impl AvroRecord {
    pub closed spec fn view(&self) -> Seq<(Seq<char>, AvroModel)> {
        avro_entries(self.fields@)
    }
}

/// Starts a record of a record schema; any other schema kind is refused.
pub fn avro_record_new(schema: &AvroSchema) -> (r: Result<AvroRecord, ConvertError>)
    ensures
        match schema {
            AvroSchema::Record { fields } => r matches Ok(rec) && rec.view() == Seq::new(
                fields@.len(),
                |i: int| (fields@[i].name@, AvroModel::Null),
            ),
            _ => r matches Err(e) && e is UnsupportedSchemaKind,
        },
{
    match schema {
        AvroSchema::Record { fields } => {
            let mut out: Vec<(String, AvroValue)> = Vec::new();
            let mut i: usize = 0;
            while i < fields.len()
                invariant
                    0 <= i <= fields@.len(),
                    out@.len() == i,
                    forall|k: int| 0 <= k < i ==> (#[trigger] out@[k]).0@ == fields@[k].name@ && out@[k].1 is Null,
                decreases fields@.len() - i,
            {
                out.push((fields[i].name.clone(), AvroValue::Null));
                i += 1;
            }
            let rec = AvroRecord { fields: out };
            proof {
                assert(rec.view() =~= Seq::new(fields@.len(), |i: int| (fields@[i].name@, AvroModel::Null)));
            }
            Ok(rec)
        },
        _ => Err(ConvertError::UnsupportedSchemaKind),
    }
}

/// Puts a value under a field of a record, consuming it. The value is not
/// checked against the field's schema; a name that is not a field of the
/// record leaves it as it was.
pub fn avro_record_put(record: &mut AvroRecord, field: &AvroStr, value: AvroValue)
    ensures
        final(record).view() == match key_index(old(record).view(), field.view().data, 0) {
            Some(j) => old(record).view().update(j, (field.view().data, value@)),
            None => old(record).view(),
        },
{
    let name = field.as_str().to_owned();
    let ghost before = record.fields@;
    match find_key(&record.fields, &name) {
        Some(j) => {
            proof {
                lemma_key_index(avro_entries(before), name@, 0);
            }
            record.fields.set(j, (name, value));
            proof {
                assert(avro_entries(record.fields@) =~= avro_entries(before).update(
                    j as int,
                    (field.view().data, value@),
                ));
            }
        },
        None => {},
    }
}

/// The record value that a record under construction has become.
pub fn avro_record_to_value(record: AvroRecord) -> (r: AvroValue)
    ensures
        r@ == AvroModel::Record(record.view()),
{
    let r = AvroValue::Record(record.fields);
    proof {
        lemma_avro_model(r);
    }
    r
}

/// The value of a field of a record value.
pub fn avro_value_record_get<'a>(record: &'a AvroValue, field: &AvroStr) -> (r: Result<
    &'a AvroValue,
    ConvertError,
>)
    ensures
        match record@ {
            AvroModel::Record(es) => match key_index(es, field.view().data, 0) {
                Some(j) => r matches Ok(v) && v@ == es[j].1,
                None => r matches Err(e) && e@ == crate::convert::ConvertFailure::MissingField(
                    field.view().data,
                ),
            },
            _ => r matches Err(e) && e is TypeMismatch,
        },
{
    proof {
        lemma_avro_model(*record);
    }
    match record {
        AvroValue::Record(es) => {
            let name = field.as_str().to_owned();
            match find_key(es, &name) {
                Some(j) => {
                    proof {
                        lemma_key_index(avro_entries(es@), name@, 0);
                    }
                    Ok(&es[j].1)
                },
                None => Err(ConvertError::MissingField(name)),
            }
        },
        _ => Err(ConvertError::TypeMismatch),
    }
}

/// Releases a typed value.
pub fn avro_value_free(value: AvroValue) {
}

/// Releases a record under construction.
pub fn avro_record_free(record: AvroRecord) {
}

} // verus!
