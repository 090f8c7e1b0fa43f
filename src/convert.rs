use vstd::prelude::*;
use vstd::slice::slice_to_vec;
use vstd::utf8::{decode_utf8, encode_utf8, valid_utf8};

use crate::boundary::{ErrorKind, LastError};
use crate::schema::{AvroSchema, RecordField};
use crate::value::{
    avro_entries, avro_items, lemma_avro_model, lemma_pickle_model, pickle_entries, pickle_items,
    AvroModel, AvroValue, PickleModel, PickleValue,
};

verus! {

/// Why a dynamic value could not be converted against a schema.
#[derive(Debug, Clone, PartialEq)]
pub enum ConvertError {
    TypeMismatch,
    SizeMismatch,
    InvalidEncoding,
    InvalidKey,
    MissingField(String),
    UnsupportedValue,
    UnsupportedSchemaKind,
}

/// The mathematical model of a [`ConvertError`].
pub enum ConvertFailure {
    TypeMismatch,
    SizeMismatch,
    InvalidEncoding,
    InvalidKey,
    MissingField(Seq<char>),
    UnsupportedValue,
    UnsupportedSchemaKind,
}

impl View for ConvertError {
    type V = ConvertFailure;

    open spec fn view(&self) -> ConvertFailure {
        match self {
            ConvertError::TypeMismatch => ConvertFailure::TypeMismatch,
            ConvertError::SizeMismatch => ConvertFailure::SizeMismatch,
            ConvertError::InvalidEncoding => ConvertFailure::InvalidEncoding,
            ConvertError::InvalidKey => ConvertFailure::InvalidKey,
            ConvertError::MissingField(name) => ConvertFailure::MissingField(name@),
            ConvertError::UnsupportedValue => ConvertFailure::UnsupportedValue,
            ConvertError::UnsupportedSchemaKind => ConvertFailure::UnsupportedSchemaKind,
        }
    }
}

/// The text of the message that reports a conversion failure.
pub open spec fn failure_text(e: ConvertFailure) -> Seq<char> {
    match e {
        ConvertFailure::TypeMismatch => "the value is not of the schema's type"@,
        ConvertFailure::SizeMismatch => "fixed size does not match"@,
        ConvertFailure::InvalidEncoding => "not a valid utf-8 string"@,
        ConvertFailure::InvalidKey => "map key should be string"@,
        ConvertFailure::MissingField(name) => "missing field "@ + name + " in record"@,
        ConvertFailure::UnsupportedValue => "unsupported enum value"@,
        ConvertFailure::UnsupportedSchemaKind => "unsupported schema kind"@,
    }
}

impl ConvertError {
    /// The failure as the boundary records it.
    pub fn to_last_error(&self) -> (r: LastError)
        ensures
            r.kind is Conversion,
            r.message@ == failure_text(self@),
            r.trace@ == Seq::<char>::empty(),
    {
        let message = match self {
            ConvertError::TypeMismatch => String::from_str("the value is not of the schema's type"),
            ConvertError::SizeMismatch => String::from_str("fixed size does not match"),
            ConvertError::InvalidEncoding => String::from_str("not a valid utf-8 string"),
            ConvertError::InvalidKey => String::from_str("map key should be string"),
            ConvertError::MissingField(name) => String::from_str("missing field ").concat(name.as_str()).concat(
                " in record",
            ),
            ConvertError::UnsupportedValue => String::from_str("unsupported enum value"),
            ConvertError::UnsupportedSchemaKind => String::from_str("unsupported schema kind"),
        };
        LastError { kind: ErrorKind::Conversion, message, trace: String::new() }
    }
}

pub type Converted = Result<AvroModel, ConvertFailure>;

pub type ConvertedItems = Result<Seq<AvroModel>, ConvertFailure>;

pub type ConvertedEntries = Result<Seq<(Seq<char>, AvroModel)>, ConvertFailure>;

/// The model of the result of a conversion.
pub open spec fn outcome(r: Result<AvroValue, ConvertError>) -> Converted {
    match r {
        Ok(v) => Ok(v@),
        Err(e) => Err(e@),
    }
}

/// The items of a list-like dynamic value: list, tuple, set or frozen set.
pub open spec fn sequence_items(x: PickleModel) -> Option<Seq<PickleModel>> {
    match x {
        PickleModel::List(xs) => Some(xs),
        PickleModel::Tuple(xs) => Some(xs),
        PickleModel::MutableSet(xs) => Some(xs),
        PickleModel::FrozenSet(xs) => Some(xs),
        _ => None,
    }
}

/// The index of the first entry not yet consumed whose key is `key`, at or
/// after `j`.
pub open spec fn find_entry(
    es: Seq<(PickleModel, PickleModel)>,
    used: Seq<bool>,
    key: PickleModel,
    j: int,
) -> Option<int>
    decreases es.len() - j,
{
    if j < 0 || j >= es.len() {
        None
    } else if !used[j] && es[j].0 == key {
        Some(j)
    } else {
        find_entry(es, used, key, j + 1)
    }
}

/// What the first entry found is.
pub proof fn lemma_find_entry(es: Seq<(PickleModel, PickleModel)>, used: Seq<bool>, key: PickleModel, j: int)
    ensures
        find_entry(es, used, key, j) matches Some(m) ==> j <= m < es.len() && !used[m] && es[m].0 == key,
    decreases es.len() - j,
{
    if 0 <= j < es.len() {
        lemma_find_entry(es, used, key, j + 1);
    }
}

/// The index of the first symbol equal to `t`, at or after `k`.
pub open spec fn symbol_index(symbols: Seq<String>, t: Seq<char>, k: int) -> Option<int>
    decreases symbols.len() - k,
{
    if k < 0 || k >= symbols.len() {
        None
    } else if symbols[k]@ == t {
        Some(k)
    } else {
        symbol_index(symbols, t, k + 1)
    }
}

/// Puts converted record entries in front of the conversion of the rest.
pub open spec fn prepend(p: Seq<(Seq<char>, AvroModel)>, r: ConvertedEntries) -> ConvertedEntries {
    match r {
        Ok(rest) => Ok(p + rest),
        Err(e) => Err(e),
    }
}

/// Conversion of a dynamic value against a schema.
pub open spec fn convert(s: AvroSchema, x: PickleModel) -> Converted
    decreases s, 0int,
{
    match s {
        AvroSchema::Null => match x {
            PickleModel::Nil => Ok(AvroModel::Null),
            _ => Err(ConvertFailure::TypeMismatch),
        },
        AvroSchema::Boolean => match x {
            PickleModel::Bool(b) => Ok(AvroModel::Boolean(b)),
            _ => Err(ConvertFailure::TypeMismatch),
        },
        AvroSchema::Int => match x {
            PickleModel::Integer(n) => Ok(AvroModel::Int(n as i32)),
            _ => Err(ConvertFailure::TypeMismatch),
        },
        AvroSchema::Long => match x {
            PickleModel::Integer(n) => Ok(AvroModel::Long(n)),
            _ => Err(ConvertFailure::TypeMismatch),
        },
        AvroSchema::Float => match x {
            PickleModel::Float(f) => Ok(AvroModel::Float(f)),
            _ => Err(ConvertFailure::TypeMismatch),
        },
        AvroSchema::Double => match x {
            PickleModel::Float(f) => Ok(AvroModel::Double(f)),
            _ => Err(ConvertFailure::TypeMismatch),
        },
        AvroSchema::Bytes => match x {
            PickleModel::Bytes(b) => Ok(AvroModel::Bytes(b)),
            PickleModel::Text(t) => Ok(AvroModel::Bytes(encode_utf8(t))),
            _ => Err(ConvertFailure::TypeMismatch),
        },
        AvroSchema::String => match x {
            PickleModel::Text(t) => Ok(AvroModel::String(t)),
            PickleModel::Bytes(b) => if valid_utf8(b) {
                Ok(AvroModel::String(decode_utf8(b)))
            } else {
                Err(ConvertFailure::InvalidEncoding)
            },
            _ => Err(ConvertFailure::TypeMismatch),
        },
        AvroSchema::Fixed { size } => match x {
            PickleModel::Bytes(b) => if b.len() == size {
                Ok(AvroModel::Fixed(size, b))
            } else {
                Err(ConvertFailure::SizeMismatch)
            },
            _ => Err(ConvertFailure::TypeMismatch),
        },
        AvroSchema::Array(item) => match sequence_items(x) {
            Some(xs) => match convert_items(*item, xs) {
                Ok(ys) => Ok(AvroModel::Array(ys)),
                Err(e) => Err(e),
            },
            None => Err(ConvertFailure::TypeMismatch),
        },
        AvroSchema::StringMap(vs) => match x {
            PickleModel::Dict(es) => match convert_entries(*vs, es) {
                Ok(ys) => Ok(AvroModel::StringMap(ys)),
                Err(e) => Err(e),
            },
            _ => Err(ConvertFailure::TypeMismatch),
        },
        AvroSchema::Union(inner) => match x {
            PickleModel::Nil => Ok(AvroModel::Union(None)),
            _ => match convert(*inner, x) {
                Ok(y) => Ok(AvroModel::Union(Some(Box::new(y)))),
                Err(e) => Err(e),
            },
        },
        AvroSchema::Record { fields } => match x {
            PickleModel::Dict(es) => match convert_fields(
                fields@,
                es,
                Seq::new(es.len(), |i: int| false),
            ) {
                Ok(ys) => Ok(AvroModel::Record(ys)),
                Err(e) => Err(e),
            },
            _ => Err(ConvertFailure::TypeMismatch),
        },
        AvroSchema::Enum { symbols } => match x {
            PickleModel::Text(t) => match symbol_index(symbols@, t, 0) {
                Some(k) => Ok(AvroModel::Enum((k as usize) as i32, t)),
                None => Err(ConvertFailure::UnsupportedValue),
            },
            _ => Err(ConvertFailure::TypeMismatch),
        },
    }
}

/// Conversion of each item of a sequence, in order; the first failure wins.
pub open spec fn convert_items(item: AvroSchema, xs: Seq<PickleModel>) -> ConvertedItems
    decreases item, xs.len(),
{
    if xs.len() == 0 {
        Ok(Seq::empty())
    } else {
        match convert_items(item, xs.drop_last()) {
            Ok(ys) => match convert(item, xs.last()) {
                Ok(y) => Ok(ys.push(y)),
                Err(e) => Err(e),
            },
            Err(e) => Err(e),
        }
    }
}

/// Conversion of the entries of a mapping into a string-keyed map, in order;
/// the first failure wins.
pub open spec fn convert_entries(vs: AvroSchema, es: Seq<(PickleModel, PickleModel)>) -> ConvertedEntries
    decreases vs, es.len(),
{
    if es.len() == 0 {
        Ok(Seq::empty())
    } else {
        match convert_entries(vs, es.drop_last()) {
            Ok(ys) => match es.last().0 {
                PickleModel::Text(k) => match convert(vs, es.last().1) {
                    Ok(y) => Ok(ys.push((k, y))),
                    Err(e) => Err(e),
                },
                _ => Err(ConvertFailure::InvalidKey),
            },
            Err(e) => Err(e),
        }
    }
}

/// Where the value of a field is found among the entries not yet consumed:
/// under its name as text, else under the UTF-8 bytes of its name.
pub open spec fn field_entry(
    f: RecordField,
    es: Seq<(PickleModel, PickleModel)>,
    used: Seq<bool>,
) -> Option<int> {
    match find_entry(es, used, PickleModel::Text(f.name@), 0) {
        Some(j) => Some(j),
        None => find_entry(es, used, PickleModel::Bytes(encode_utf8(f.name@)), 0),
    }
}

/// Conversion of the fields of a record, in declaration order, from the
/// entries of a mapping. An entry found for a field is consumed; entries that
/// no field consumes are dropped.
pub open spec fn convert_fields(
    fields: Seq<RecordField>,
    es: Seq<(PickleModel, PickleModel)>,
    used: Seq<bool>,
) -> ConvertedEntries
    decreases fields, 0int,
{
    if fields.len() == 0 {
        Ok(Seq::empty())
    } else {
        let f = fields[0];
        let rest = fields.subrange(1, fields.len() as int);
        match field_entry(f, es, used) {
            Some(j) => match convert(f.schema, es[j].1) {
                Ok(y) => prepend(seq![(f.name@, y)], convert_fields(rest, es, used.update(j, true))),
                Err(e) => Err(e),
            },
            None => match f.default {
                Some(d) => prepend(seq![(f.name@, d@)], convert_fields(rest, es, used)),
                None => Err(ConvertFailure::MissingField(f.name@)),
            },
        }
    }
}


/// Conversion of a typed value back to a dynamic value. It never fails.
pub open spec fn convert_back(v: AvroModel) -> PickleModel
    decreases v,
{
    match v {
        AvroModel::Null => PickleModel::Nil,
        AvroModel::Boolean(b) => PickleModel::Bool(b),
        AvroModel::Int(n) => PickleModel::Integer(n as i64),
        AvroModel::Long(n) => PickleModel::Integer(n),
        AvroModel::Float(f) => PickleModel::Float(f),
        AvroModel::Double(f) => PickleModel::Float(f),
        AvroModel::Bytes(b) => PickleModel::Bytes(b),
        AvroModel::Fixed(_, b) => PickleModel::Bytes(b),
        AvroModel::String(t) => PickleModel::Text(t),
        AvroModel::Array(ys) => PickleModel::List(
            Seq::new(ys.len(), |i: int| if 0 <= i < ys.len() { convert_back(ys[i]) } else { PickleModel::Nil }),
        ),
        AvroModel::StringMap(es) => PickleModel::Dict(
            Seq::new(
                es.len(),
                |i: int|
                    if 0 <= i < es.len() {
                        (PickleModel::Text(es[i].0), convert_back(es[i].1))
                    } else {
                        (PickleModel::Nil, PickleModel::Nil)
                    },
            ),
        ),
        AvroModel::Union(None) => PickleModel::Nil,
        AvroModel::Union(Some(b)) => convert_back(*b),
        AvroModel::Record(es) => PickleModel::Dict(
            Seq::new(
                es.len(),
                |i: int|
                    if 0 <= i < es.len() {
                        (PickleModel::Text(es[i].0), convert_back(es[i].1))
                    } else {
                        (PickleModel::Nil, PickleModel::Nil)
                    },
            ),
        ),
        AvroModel::Enum(_, t) => PickleModel::Text(t),
    }
}

/// Relies on `std::str::from_utf8`: it accepts exactly the valid UTF-8
/// sequences, and then hands back the text that they encode.
#[verifier::external_body]
fn utf8_text(b: &[u8]) -> (r: Option<String>)
    ensures
        match r {
            Some(t) => valid_utf8(b@) && t@ == decode_utf8(b@),
            None => !valid_utf8(b@),
        },
{
    match std::str::from_utf8(b) {
        Ok(t) => Some(t.to_owned()),
        Err(_) => None,
    }
}

/// Whether two byte strings are equal.
fn bytes_equal(a: &[u8], b: &[u8]) -> (r: bool)
    ensures
        r == (a@ == b@),
{
    if a.len() != b.len() {
        return false;
    }
    let mut i: usize = 0;
    while i < a.len()
        invariant
            a@.len() == b@.len(),
            0 <= i <= a@.len(),
            forall|k: int| 0 <= k < i ==> a@[k] == b@[k],
        decreases a@.len() - i,
    {
        if a[i] != b[i] {
            return false;
        }
        i += 1;
    }
    assert(a@ =~= b@);
    true
}

impl AvroValue {
    /// A copy of this value, equal to it in every part.
    pub fn duplicate(&self) -> (r: AvroValue)
        ensures
            r@ == self@,
        decreases self, 0int,
    {
        proof {
            lemma_avro_model(*self);
        }
        let r = match self {
            AvroValue::Null => AvroValue::Null,
            AvroValue::Boolean(b) => AvroValue::Boolean(*b),
            AvroValue::Int(n) => AvroValue::Int(*n),
            AvroValue::Long(n) => AvroValue::Long(*n),
            AvroValue::Float(f) => AvroValue::Float(*f),
            AvroValue::Double(f) => AvroValue::Double(*f),
            AvroValue::Bytes(b) => AvroValue::Bytes(slice_to_vec(b.as_slice())),
            AvroValue::String(t) => AvroValue::String(t.clone()),
            AvroValue::Fixed(n, b) => AvroValue::Fixed(*n, slice_to_vec(b.as_slice())),
            AvroValue::Enum(k, t) => AvroValue::Enum(*k, t.clone()),
            AvroValue::Union(inner) => match inner {
                Some(b) => AvroValue::Union(Some(Box::new((**b).duplicate()))),
                None => AvroValue::Union(None),
            },
            AvroValue::Array(items) => AvroValue::Array(AvroValue::duplicate_items(items)),
            AvroValue::StringMap(es) => AvroValue::StringMap(AvroValue::duplicate_entries(es)),
            AvroValue::Record(es) => AvroValue::Record(AvroValue::duplicate_entries(es)),
        };
        proof {
            lemma_avro_model(r);
        }
        r
    }

    fn duplicate_items(items: &Vec<AvroValue>) -> (r: Vec<AvroValue>)
        ensures
            avro_items(r@) == avro_items(items@),
        decreases items, 1int,
    {
        let mut out: Vec<AvroValue> = Vec::new();
        let mut i: usize = 0;
        while i < items.len()
            invariant
                0 <= i <= items@.len(),
                out@.len() == i,
                avro_items(out@) =~= avro_items(items@).take(i as int),
            decreases items@.len() - i,
        {
            let v = items[i].duplicate();
            out.push(v);
            i += 1;
            assert(avro_items(out@) =~= avro_items(items@).take(i as int));
        }
        assert(avro_items(items@).take(i as int) =~= avro_items(items@));
        out
    }

    fn duplicate_entries(es: &Vec<(String, AvroValue)>) -> (r: Vec<(String, AvroValue)>)
        ensures
            avro_entries(r@) == avro_entries(es@),
        decreases es, 1int,
    {
        let mut out: Vec<(String, AvroValue)> = Vec::new();
        let mut i: usize = 0;
        while i < es.len()
            invariant
                0 <= i <= es@.len(),
                out@.len() == i,
                avro_entries(out@) =~= avro_entries(es@).take(i as int),
            decreases es@.len() - i,
        {
            let k = es[i].0.clone();
            let v = es[i].1.duplicate();
            out.push((k, v));
            i += 1;
            assert(avro_entries(out@) =~= avro_entries(es@).take(i as int));
        }
        assert(avro_entries(es@).take(i as int) =~= avro_entries(es@));
        out
    }
}


/// A failure in a prefix of a sequence is the failure of the whole sequence.
proof fn lemma_items_failure(item: AvroSchema, xs: Seq<PickleModel>, n: int)
    requires
        0 <= n <= xs.len(),
        convert_items(item, xs.take(n)) is Err,
    ensures
        convert_items(item, xs) == convert_items(item, xs.take(n)),
    decreases xs.len(),
{
    if xs.len() > n {
        assert(xs.drop_last().take(n) =~= xs.take(n));
        lemma_items_failure(item, xs.drop_last(), n);
    } else {
        assert(xs.take(n) =~= xs);
    }
}

/// A failure in a prefix of the entries is the failure of the whole mapping.
proof fn lemma_entries_failure(vs: AvroSchema, es: Seq<(PickleModel, PickleModel)>, n: int)
    requires
        0 <= n <= es.len(),
        convert_entries(vs, es.take(n)) is Err,
    ensures
        convert_entries(vs, es) == convert_entries(vs, es.take(n)),
    decreases es.len(),
{
    if es.len() > n {
        assert(es.drop_last().take(n) =~= es.take(n));
        lemma_entries_failure(vs, es.drop_last(), n);
    } else {
        assert(es.take(n) =~= es);
    }
}

proof fn lemma_prepend_twice(a: Seq<(Seq<char>, AvroModel)>, b: Seq<(Seq<char>, AvroModel)>, r: ConvertedEntries)
    ensures
        prepend(a, prepend(b, r)) == prepend(a + b, r),
{
    if let Ok(rest) = r {
        assert((a + b) + rest =~= a + (b + rest));
    }
}

fn from_null(value: &PickleValue) -> (r: Result<AvroValue, ConvertError>)
    ensures
        outcome(r) == convert(AvroSchema::Null, value@),
{
    match value {
        PickleValue::Nil => Ok(AvroValue::Null),
        _ => Err(ConvertError::TypeMismatch),
    }
}

fn from_boolean(value: &PickleValue) -> (r: Result<AvroValue, ConvertError>)
    ensures
        outcome(r) == convert(AvroSchema::Boolean, value@),
{
    match value {
        PickleValue::Bool(b) => Ok(AvroValue::Boolean(*b)),
        _ => Err(ConvertError::TypeMismatch),
    }
}

fn from_int(value: &PickleValue) -> (r: Result<AvroValue, ConvertError>)
    ensures
        outcome(r) == convert(AvroSchema::Int, value@),
{
    match value {
        PickleValue::Integer(n) => Ok(AvroValue::Int(*n as i32)),
        _ => Err(ConvertError::TypeMismatch),
    }
}

fn from_long(value: &PickleValue) -> (r: Result<AvroValue, ConvertError>)
    ensures
        outcome(r) == convert(AvroSchema::Long, value@),
{
    match value {
        PickleValue::Integer(n) => Ok(AvroValue::Long(*n)),
        _ => Err(ConvertError::TypeMismatch),
    }
}

fn from_float(value: &PickleValue) -> (r: Result<AvroValue, ConvertError>)
    ensures
        outcome(r) == convert(AvroSchema::Float, value@),
{
    match value {
        PickleValue::Float(f) => Ok(AvroValue::Float(*f)),
        _ => Err(ConvertError::TypeMismatch),
    }
}

fn from_double(value: &PickleValue) -> (r: Result<AvroValue, ConvertError>)
    ensures
        outcome(r) == convert(AvroSchema::Double, value@),
{
    match value {
        PickleValue::Float(f) => Ok(AvroValue::Double(*f)),
        _ => Err(ConvertError::TypeMismatch),
    }
}

fn from_bytes(value: &PickleValue) -> (r: Result<AvroValue, ConvertError>)
    ensures
        outcome(r) == convert(AvroSchema::Bytes, value@),
{
    match value {
        PickleValue::Bytes(b) => Ok(AvroValue::Bytes(slice_to_vec(b.as_slice()))),
        PickleValue::Text(t) => Ok(AvroValue::Bytes(slice_to_vec(t.as_str().as_bytes()))),
        _ => Err(ConvertError::TypeMismatch),
    }
}

fn from_string(value: &PickleValue) -> (r: Result<AvroValue, ConvertError>)
    ensures
        outcome(r) == convert(AvroSchema::String, value@),
{
    match value {
        PickleValue::Text(t) => Ok(AvroValue::String(t.clone())),
        PickleValue::Bytes(b) => match utf8_text(b.as_slice()) {
            Some(t) => Ok(AvroValue::String(t)),
            None => Err(ConvertError::InvalidEncoding),
        },
        _ => Err(ConvertError::TypeMismatch),
    }
}

fn from_fixed(size: usize, value: &PickleValue) -> (r: Result<AvroValue, ConvertError>)
    ensures
        outcome(r) == convert((AvroSchema::Fixed { size }), value@),
{
    match value {
        PickleValue::Bytes(b) => {
            if size == b.len() {
                Ok(AvroValue::Fixed(size, slice_to_vec(b.as_slice())))
            } else {
                Err(ConvertError::SizeMismatch)
            }
        },
        _ => Err(ConvertError::TypeMismatch),
    }
}


/// Converts a dynamic value against a schema.
pub fn avro_value_from_pickle(schema: &AvroSchema, value: &PickleValue) -> (r: Result<
    AvroValue,
    ConvertError,
>)
    ensures
        outcome(r) == convert(*schema, value@),
    decreases schema, 0int,
{
    match schema {
        AvroSchema::Null => from_null(value),
        AvroSchema::Boolean => from_boolean(value),
        AvroSchema::Int => from_int(value),
        AvroSchema::Long => from_long(value),
        AvroSchema::Float => from_float(value),
        AvroSchema::Double => from_double(value),
        AvroSchema::Bytes => from_bytes(value),
        AvroSchema::String => from_string(value),
        AvroSchema::Fixed { size } => from_fixed(*size, value),
        AvroSchema::Array(item) => from_array(item, value),
        AvroSchema::StringMap(vs) => from_map(vs, value),
        AvroSchema::Union(inner) => from_union(inner, value),
        AvroSchema::Record { fields } => from_record(fields, value),
        AvroSchema::Enum { symbols } => from_enum(symbols, value),
    }
}

fn from_items(item: &AvroSchema, values: &Vec<PickleValue>) -> (r: Result<Vec<AvroValue>, ConvertError>)
    ensures
        match r {
            Ok(out) => convert_items(*item, pickle_items(values@)) == Ok::<Seq<AvroModel>, ConvertFailure>(avro_items(out@)),
            Err(e) => convert_items(*item, pickle_items(values@)) == Err::<Seq<AvroModel>, ConvertFailure>(e@),
        },
    decreases item, 1int,
{
    let ghost xs = pickle_items(values@);
    let mut out: Vec<AvroValue> = Vec::new();
    let mut i: usize = 0;
    assert(xs.take(0) =~= Seq::<PickleModel>::empty());
    assert(avro_items(out@) =~= Seq::<AvroModel>::empty());
    while i < values.len()
        invariant
            0 <= i <= values@.len(),
            xs == pickle_items(values@),
            out@.len() == i,
            convert_items(*item, xs.take(i as int)) == Ok::<Seq<AvroModel>, ConvertFailure>(avro_items(out@)),
        decreases values@.len() - i,
    {
        assert(xs.take(i + 1).drop_last() =~= xs.take(i as int));
        assert(xs.take(i + 1).last() == values@[i as int]@);
        match avro_value_from_pickle(item, &values[i]) {
            Ok(v) => {
                let ghost prev = out@;
                out.push(v);
                assert(avro_items(out@) =~= avro_items(prev).push(v@));
            },
            Err(e) => {
                proof {
                    lemma_items_failure(*item, xs, i + 1);
                    assert(xs.take(xs.len() as int) =~= xs);
                }
                return Err(e);
            },
        }
        i += 1;
    }
    assert(xs.take(i as int) =~= xs);
    Ok(out)
}

fn from_array(item: &AvroSchema, value: &PickleValue) -> (r: Result<AvroValue, ConvertError>)
    ensures
        outcome(r) == convert(AvroSchema::Array(Box::new(*item)), value@),
    decreases item, 2int,
{
    proof {
        lemma_pickle_model(*value);
    }
    let items = match value {
        PickleValue::List(values) => from_items(item, values),
        PickleValue::Tuple(values) => from_items(item, values),
        PickleValue::MutableSet(values) => from_items(item, values),
        PickleValue::FrozenSet(values) => from_items(item, values),
        _ => {
            return Err(ConvertError::TypeMismatch);
        },
    };
    match items {
        Ok(out) => {
            let r = AvroValue::Array(out);
            proof {
                lemma_avro_model(r);
            }
            Ok(r)
        },
        Err(e) => Err(e),
    }
}

fn from_map(vs: &AvroSchema, value: &PickleValue) -> (r: Result<AvroValue, ConvertError>)
    ensures
        outcome(r) == convert(AvroSchema::StringMap(Box::new(*vs)), value@),
    decreases vs, 1int,
{
    proof {
        lemma_pickle_model(*value);
    }
    let es = match value {
        PickleValue::Dict(es) => es,
        _ => {
            return Err(ConvertError::TypeMismatch);
        },
    };
    let ghost xs = pickle_entries(es@);
    let mut out: Vec<(String, AvroValue)> = Vec::new();
    let mut i: usize = 0;
    assert(xs.take(0) =~= Seq::<(PickleModel, PickleModel)>::empty());
    assert(avro_entries(out@) =~= Seq::<(Seq<char>, AvroModel)>::empty());
    while i < es.len()
        invariant
            0 <= i <= es@.len(),
            xs == pickle_entries(es@),
            value@ == PickleModel::Dict(xs),
            out@.len() == i,
            convert_entries(*vs, xs.take(i as int)) == Ok::<Seq<(Seq<char>, AvroModel)>, ConvertFailure>(avro_entries(out@)),
        decreases es@.len() - i,
    {
        assert(xs.take(i + 1).drop_last() =~= xs.take(i as int));
        assert(xs.take(i + 1).last() == (es@[i as int].0@, es@[i as int].1@));
        proof {
            lemma_pickle_model(es@[i as int].0);
        }
        let key = match &es[i].0 {
            PickleValue::Text(k) => k.clone(),
            _ => {
                proof {
                    lemma_entries_failure(*vs, xs, i + 1);
                    assert(xs.take(xs.len() as int) =~= xs);
                }
                return Err(ConvertError::InvalidKey);
            },
        };
        match avro_value_from_pickle(vs, &es[i].1) {
            Ok(v) => {
                let ghost prev = out@;
                out.push((key, v));
                assert(avro_entries(out@) =~= avro_entries(prev).push((key@, v@)));
            },
            Err(e) => {
                proof {
                    lemma_entries_failure(*vs, xs, i + 1);
                    assert(xs.take(xs.len() as int) =~= xs);
                }
                return Err(e);
            },
        }
        i += 1;
    }
    assert(xs.take(i as int) =~= xs);
    let r = AvroValue::StringMap(out);
    proof {
        lemma_avro_model(r);
    }
    Ok(r)
}

fn from_union(inner: &AvroSchema, value: &PickleValue) -> (r: Result<AvroValue, ConvertError>)
    ensures
        outcome(r) == convert(AvroSchema::Union(Box::new(*inner)), value@),
    decreases inner, 1int,
{
    match value {
        PickleValue::Nil => Ok(AvroValue::Union(None)),
        _ => match avro_value_from_pickle(inner, value) {
            Ok(v) => Ok(AvroValue::Union(Some(Box::new(v)))),
            Err(e) => Err(e),
        },
    }
}

fn from_enum(symbols: &Vec<String>, value: &PickleValue) -> (r: Result<AvroValue, ConvertError>)
    ensures
        outcome(r) == convert((AvroSchema::Enum { symbols: *symbols }), value@),
{
    match value {
        PickleValue::Text(t) => {
            let mut k: usize = 0;
            while k < symbols.len()
                invariant
                    0 <= k <= symbols@.len(),
                    value@ == PickleModel::Text(t@),
                    symbol_index(symbols@, t@, 0) == symbol_index(symbols@, t@, k as int),
                decreases symbols@.len() - k,
            {
                if symbols[k].eq(t) {
                    return Ok(AvroValue::Enum(#[verifier::truncate] (k as i32), t.clone()));
                }
                k += 1;
            }
            Err(ConvertError::UnsupportedValue)
        },
        _ => Err(ConvertError::TypeMismatch),
    }
}

/// The first entry not yet consumed whose key is the text `name`.
fn find_text(es: &Vec<(PickleValue, PickleValue)>, used: &Vec<bool>, name: &String) -> (r: Option<usize>)
    requires
        used@.len() == es@.len(),
    ensures
        match r {
            Some(j) => find_entry(pickle_entries(es@), used@, PickleModel::Text(name@), 0) == Some(j as int),
            None => find_entry(pickle_entries(es@), used@, PickleModel::Text(name@), 0) is None,
        },
{
    let ghost xs = pickle_entries(es@);
    let mut j: usize = 0;
    while j < es.len()
        invariant
            0 <= j <= es@.len(),
            used@.len() == es@.len(),
            xs == pickle_entries(es@),
            find_entry(xs, used@, PickleModel::Text(name@), 0) == find_entry(xs, used@, PickleModel::Text(name@), j as int),
        decreases es@.len() - j,
    {
        proof {
            lemma_pickle_model(es@[j as int].0);
        }
        if !used[j] {
            if let PickleValue::Text(k) = &es[j].0 {
                if k.eq(name) {
                    return Some(j);
                }
            }
        }
        j += 1;
    }
    None
}

/// The first entry not yet consumed whose key is the byte string `name`.
fn find_bytes(es: &Vec<(PickleValue, PickleValue)>, used: &Vec<bool>, name: &[u8]) -> (r: Option<usize>)
    requires
        used@.len() == es@.len(),
    ensures
        match r {
            Some(j) => find_entry(pickle_entries(es@), used@, PickleModel::Bytes(name@), 0) == Some(j as int),
            None => find_entry(pickle_entries(es@), used@, PickleModel::Bytes(name@), 0) is None,
        },
{
    let ghost xs = pickle_entries(es@);
    let mut j: usize = 0;
    while j < es.len()
        invariant
            0 <= j <= es@.len(),
            used@.len() == es@.len(),
            xs == pickle_entries(es@),
            find_entry(xs, used@, PickleModel::Bytes(name@), 0) == find_entry(xs, used@, PickleModel::Bytes(name@), j as int),
        decreases es@.len() - j,
    {
        proof {
            lemma_pickle_model(es@[j as int].0);
        }
        if !used[j] {
            if let PickleValue::Bytes(k) = &es[j].0 {
                if bytes_equal(k.as_slice(), name) {
                    return Some(j);
                }
            }
        }
        j += 1;
    }
    None
}


fn from_record(fields: &Vec<RecordField>, value: &PickleValue) -> (r: Result<AvroValue, ConvertError>)
    ensures
        outcome(r) == convert((AvroSchema::Record { fields: *fields }), value@),
    decreases fields, 1int,
{
    proof {
        lemma_pickle_model(*value);
    }
    let es = match value {
        PickleValue::Dict(es) => es,
        _ => {
            return Err(ConvertError::TypeMismatch);
        },
    };
    let ghost xs = pickle_entries(es@);
    let ghost fs = fields@;
    let mut used: Vec<bool> = Vec::new();
    while used.len() < es.len()
        invariant
            used@.len() <= es@.len(),
            forall|k: int| 0 <= k < used@.len() ==> !used@[k],
        decreases es@.len() - used@.len(),
    {
        used.push(false);
    }
    let ghost unused = used@;
    assert(unused =~= Seq::new(xs.len(), |k: int| false));
    let mut out: Vec<(String, AvroValue)> = Vec::new();
    let mut i: usize = 0;
    assert(fs.subrange(0, fs.len() as int) =~= fs);
    proof {
        let whole = convert_fields(fs, xs, unused);
        if let Ok(rest) = whole {
            assert(Seq::<(Seq<char>, AvroModel)>::empty() + rest =~= rest);
        }
        assert(avro_entries(out@) =~= Seq::<(Seq<char>, AvroModel)>::empty());
    }
    while i < fields.len()
        invariant
            0 <= i <= fields@.len(),
            fs == fields@,
            xs == pickle_entries(es@),
            value@ == PickleModel::Dict(xs),
            unused == Seq::new(xs.len(), |k: int| false),
            used@.len() == es@.len(),
            out@.len() == i,
            convert_fields(fs, xs, unused) == prepend(
                avro_entries(out@),
                convert_fields(fs.subrange(i as int, fs.len() as int), xs, used@),
            ),
        decreases fields@.len() - i,
    {
        let f = &fields[i];
        let ghost rest = fs.subrange(i + 1, fs.len() as int);
        assert(fs.subrange(i as int, fs.len() as int).subrange(1, fs.len() - i) =~= rest);
        assert(fs.subrange(i as int, fs.len() as int)[0] == *f);
        let found = match find_text(es, &used, &f.name) {
            Some(j) => Some(j),
            None => find_bytes(es, &used, f.name.as_str().as_bytes()),
        };
        proof {
            lemma_find_entry(xs, used@, PickleModel::Text(f.name@), 0);
            lemma_find_entry(xs, used@, PickleModel::Bytes(encode_utf8(f.name@)), 0);
        }
        assert(found matches Some(j) ==> field_entry(*f, xs, used@) == Some(j as int));
        assert(found is None ==> field_entry(*f, xs, used@) is None);
        let ghost prev = out@;
        match found {
            Some(j) => {
                match avro_value_from_pickle(&f.schema, &es[j].1) {
                    Ok(v) => {
                        proof {
                            lemma_prepend_twice(avro_entries(prev), seq![(f.name@, v@)], convert_fields(rest, xs, used@.update(j as int, true)));
                        }
                        used.set(j, true);
                        out.push((f.name.clone(), v));
                        assert(avro_entries(out@) =~= avro_entries(prev) + seq![(f.name@, v@)]);
                    },
                    Err(e) => {
                        return Err(e);
                    },
                }
            },
            None => {
                match &f.default {
                    Some(d) => {
                        proof {
                            lemma_prepend_twice(avro_entries(prev), seq![(f.name@, d@)], convert_fields(rest, xs, used@));
                        }
                        out.push((f.name.clone(), d.duplicate()));
                        assert(avro_entries(out@) =~= avro_entries(prev) + seq![(f.name@, d@)]);
                    },
                    None => {
                        return Err(ConvertError::MissingField(f.name.clone()));
                    },
                }
            },
        }
        i += 1;
    }
    proof {
        assert(fs.subrange(i as int, fs.len() as int) =~= Seq::<RecordField>::empty());
        assert(avro_entries(out@) + Seq::<(Seq<char>, AvroModel)>::empty() =~= avro_entries(out@));
    }
    let r = AvroValue::Record(out);
    proof {
        lemma_avro_model(r);
    }
    Ok(r)
}


/// Converts a typed value back to a dynamic value: numbers widen, bytes and
/// fixed become bytes, maps and records become text-keyed mappings, an enum
/// becomes its symbol and a union the value it holds, if any.
pub fn pickle_value_from_avro(value: &AvroValue) -> (r: PickleValue)
    ensures
        r@ == convert_back(value@),
    decreases value, 0int,
{
    proof {
        lemma_avro_model(*value);
    }
    match value {
        AvroValue::Null => PickleValue::Nil,
        AvroValue::Boolean(b) => PickleValue::Bool(*b),
        AvroValue::Int(n) => PickleValue::Integer(*n as i64),
        AvroValue::Long(n) => PickleValue::Integer(*n),
        AvroValue::Float(f) => PickleValue::Float(*f),
        AvroValue::Double(f) => PickleValue::Float(*f),
        AvroValue::Bytes(b) => PickleValue::Bytes(slice_to_vec(b.as_slice())),
        AvroValue::Fixed(_, b) => PickleValue::Bytes(slice_to_vec(b.as_slice())),
        AvroValue::String(t) => PickleValue::Text(t.clone()),
        AvroValue::Array(items) => pickle_list_from_items(items),
        AvroValue::StringMap(es) => {
            let r = pickle_dict_from_entries(es);
            assert(r@->Dict_0 =~= convert_back(value@)->Dict_0);
            r
        },
        AvroValue::Record(es) => pickle_dict_from_entries(es),
        AvroValue::Union(inner) => match inner {
            Some(b) => pickle_value_from_avro(b),
            None => PickleValue::Nil,
        },
        AvroValue::Enum(_, t) => PickleValue::Text(t.clone()),
    }
}

/// A list holding the given items, each converted back.
fn pickle_list_from_items(items: &Vec<AvroValue>) -> (r: PickleValue)
    ensures
        r@ == convert_back(AvroModel::Array(avro_items(items@))),
    decreases items, 1int,
{
    let mut out: Vec<PickleValue> = Vec::new();
    let mut i: usize = 0;
    while i < items.len()
        invariant
            0 <= i <= items@.len(),
            out@.len() == i,
            forall|k: int| 0 <= k < i ==> (#[trigger] out@[k])@ == convert_back(items@[k]@),
        decreases items@.len() - i,
    {
        let x = pickle_value_from_avro(&items[i]);
        out.push(x);
        i += 1;
    }
    let r = PickleValue::List(out);
    proof {
        lemma_pickle_model(r);
        assert(pickle_items(out@) =~= convert_back(AvroModel::Array(avro_items(items@)))->List_0);
    }
    r
}

/// A text-keyed mapping holding the given entries, each value converted back.
fn pickle_dict_from_entries(es: &Vec<(String, AvroValue)>) -> (r: PickleValue)
    ensures
        r@ == convert_back(AvroModel::Record(avro_entries(es@))),
    decreases es, 1int,
{
    let mut out: Vec<(PickleValue, PickleValue)> = Vec::new();
    let mut i: usize = 0;
    while i < es.len()
        invariant
            0 <= i <= es@.len(),
            out@.len() == i,
            forall|k: int|
                0 <= k < i ==> (#[trigger] out@[k]).0@ == PickleModel::Text(es@[k].0@) && out@[k].1@
                    == convert_back(es@[k].1@),
        decreases es@.len() - i,
    {
        let x = pickle_value_from_avro(&es[i].1);
        let k = PickleValue::Text(es[i].0.clone());
        out.push((k, x));
        i += 1;
    }
    let r = PickleValue::Dict(out);
    proof {
        lemma_pickle_model(r);
        assert(pickle_entries(out@) =~= convert_back(AvroModel::Record(avro_entries(es@)))->Dict_0);
    }
    r
}

} // verus!
