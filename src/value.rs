use vstd::prelude::*;

verus! {

/// A dynamic value, as the pickle-like wire serializer hands it over.
///
/// Floating-point numbers are carried by their IEEE-754 bit pattern; the
/// library never computes with them.
#[derive(Debug, PartialEq)]
pub enum PickleValue {
    Nil,
    Bool(bool),
    Integer(i64),
    Float(u64),
    Bytes(Vec<u8>),
    Text(String),
    List(Vec<PickleValue>),
    Tuple(Vec<PickleValue>),
    MutableSet(Vec<PickleValue>),
    FrozenSet(Vec<PickleValue>),
    /// A mapping, as its entries in the order in which they were handed over.
    Dict(Vec<(PickleValue, PickleValue)>),
}

/// The mathematical model of a [`PickleValue`].
pub enum PickleModel {
    Nil,
    Bool(bool),
    Integer(i64),
    Float(u64),
    Bytes(Seq<u8>),
    Text(Seq<char>),
    List(Seq<PickleModel>),
    Tuple(Seq<PickleModel>),
    MutableSet(Seq<PickleModel>),
    FrozenSet(Seq<PickleModel>),
    Dict(Seq<(PickleModel, PickleModel)>),
}

/// The model of a dynamic value.
pub open spec fn pickle_model(x: PickleValue) -> PickleModel
    decreases x,
{
    match x {
        PickleValue::Nil => PickleModel::Nil,
        PickleValue::Bool(b) => PickleModel::Bool(b),
        PickleValue::Integer(n) => PickleModel::Integer(n),
        PickleValue::Float(f) => PickleModel::Float(f),
        PickleValue::Bytes(b) => PickleModel::Bytes(b@),
        PickleValue::Text(t) => PickleModel::Text(t@),
        PickleValue::List(items) => PickleModel::List(
            Seq::new(items.len() as nat, |i: int| if 0 <= i < items.len() { pickle_model(items@[i]) } else { PickleModel::Nil }),
        ),
        PickleValue::Tuple(items) => PickleModel::Tuple(
            Seq::new(items.len() as nat, |i: int| if 0 <= i < items.len() { pickle_model(items@[i]) } else { PickleModel::Nil }),
        ),
        PickleValue::MutableSet(items) => PickleModel::MutableSet(
            Seq::new(items.len() as nat, |i: int| if 0 <= i < items.len() { pickle_model(items@[i]) } else { PickleModel::Nil }),
        ),
        PickleValue::FrozenSet(items) => PickleModel::FrozenSet(
            Seq::new(items.len() as nat, |i: int| if 0 <= i < items.len() { pickle_model(items@[i]) } else { PickleModel::Nil }),
        ),
        PickleValue::Dict(es) => PickleModel::Dict(
            Seq::new(
                es.len() as nat,
                |i: int|
                    if 0 <= i < es.len() {
                        (pickle_model(es@[i].0), pickle_model(es@[i].1))
                    } else {
                        (PickleModel::Nil, PickleModel::Nil)
                    },
            ),
        ),
    }
}

/// The models of a list of dynamic values.
pub open spec fn pickle_items(items: Seq<PickleValue>) -> Seq<PickleModel> {
    items.map_values(|x: PickleValue| pickle_model(x))
}

/// The models of the entries of a mapping.
pub open spec fn pickle_entries(es: Seq<(PickleValue, PickleValue)>) -> Seq<(PickleModel, PickleModel)> {
    es.map_values(|e: (PickleValue, PickleValue)| (pickle_model(e.0), pickle_model(e.1)))
}

impl View for PickleValue {
    type V = PickleModel;

    open spec fn view(&self) -> PickleModel {
        pickle_model(*self)
    }
}

/// A schema-typed value. It mirrors the schema kinds one for one.
///
/// `Float` holds a single-precision number as the bit pattern of its
/// double-precision widening, `Double` its own bit pattern.
#[derive(Debug, PartialEq)]
pub enum AvroValue {
    Null,
    Boolean(bool),
    Int(i32),
    Long(i64),
    Float(u64),
    Double(u64),
    Bytes(Vec<u8>),
    String(String),
    Fixed(usize, Vec<u8>),
    Enum(i32, String),
    Union(Option<Box<AvroValue>>),
    Array(Vec<AvroValue>),
    StringMap(Vec<(String, AvroValue)>),
    Record(Vec<(String, AvroValue)>),
}

/// The mathematical model of an [`AvroValue`].
pub enum AvroModel {
    Null,
    Boolean(bool),
    Int(i32),
    Long(i64),
    Float(u64),
    Double(u64),
    Bytes(Seq<u8>),
    String(Seq<char>),
    Fixed(usize, Seq<u8>),
    Enum(i32, Seq<char>),
    Union(Option<Box<AvroModel>>),
    Array(Seq<AvroModel>),
    StringMap(Seq<(Seq<char>, AvroModel)>),
    Record(Seq<(Seq<char>, AvroModel)>),
}

/// The model of a typed value.
pub open spec fn avro_model(v: AvroValue) -> AvroModel
    decreases v,
{
    match v {
        AvroValue::Null => AvroModel::Null,
        AvroValue::Boolean(b) => AvroModel::Boolean(b),
        AvroValue::Int(n) => AvroModel::Int(n),
        AvroValue::Long(n) => AvroModel::Long(n),
        AvroValue::Float(f) => AvroModel::Float(f),
        AvroValue::Double(f) => AvroModel::Double(f),
        AvroValue::Bytes(b) => AvroModel::Bytes(b@),
        AvroValue::String(t) => AvroModel::String(t@),
        AvroValue::Fixed(n, b) => AvroModel::Fixed(n, b@),
        AvroValue::Enum(k, t) => AvroModel::Enum(k, t@),
        AvroValue::Union(inner) => match inner {
            Option::None => AvroModel::Union(Option::None),
            Option::Some(b) => AvroModel::Union(Option::Some(Box::new(avro_model(*b)))),
        },
        AvroValue::Array(items) => AvroModel::Array(
            Seq::new(items.len() as nat, |i: int| if 0 <= i < items.len() { avro_model(items@[i]) } else { AvroModel::Null }),
        ),
        AvroValue::StringMap(es) => AvroModel::StringMap(
            Seq::new(
                es.len() as nat,
                |i: int|
                    if 0 <= i < es.len() {
                        (es@[i].0@, avro_model(es@[i].1))
                    } else {
                        (Seq::empty(), AvroModel::Null)
                    },
            ),
        ),
        AvroValue::Record(es) => AvroModel::Record(
            Seq::new(
                es.len() as nat,
                |i: int|
                    if 0 <= i < es.len() {
                        (es@[i].0@, avro_model(es@[i].1))
                    } else {
                        (Seq::empty(), AvroModel::Null)
                    },
            ),
        ),
    }
}

/// The models of a list of typed values.
pub open spec fn avro_items(items: Seq<AvroValue>) -> Seq<AvroModel> {
    items.map_values(|v: AvroValue| avro_model(v))
}

/// The models of a list of named typed values.
pub open spec fn avro_entries(es: Seq<(String, AvroValue)>) -> Seq<(Seq<char>, AvroModel)> {
    es.map_values(|e: (String, AvroValue)| (e.0@, avro_model(e.1)))
}

impl View for AvroValue {
    type V = AvroModel;

    open spec fn view(&self) -> AvroModel {
        avro_model(*self)
    }
}

/// The model of a composite dynamic value is made of the models of its parts.
pub proof fn lemma_pickle_model(x: PickleValue)
    ensures
        x matches PickleValue::List(items) ==> x@ == PickleModel::List(pickle_items(items@)),
        x matches PickleValue::Tuple(items) ==> x@ == PickleModel::Tuple(pickle_items(items@)),
        x matches PickleValue::MutableSet(items) ==> x@ == PickleModel::MutableSet(pickle_items(items@)),
        x matches PickleValue::FrozenSet(items) ==> x@ == PickleModel::FrozenSet(pickle_items(items@)),
        x matches PickleValue::Dict(es) ==> x@ == PickleModel::Dict(pickle_entries(es@)),
{
    match x {
        PickleValue::List(items) => assert(x@->List_0 =~= pickle_items(items@)),
        PickleValue::Tuple(items) => assert(x@->Tuple_0 =~= pickle_items(items@)),
        PickleValue::MutableSet(items) => assert(x@->MutableSet_0 =~= pickle_items(items@)),
        PickleValue::FrozenSet(items) => assert(x@->FrozenSet_0 =~= pickle_items(items@)),
        PickleValue::Dict(es) => assert(x@->Dict_0 =~= pickle_entries(es@)),
        _ => {},
    }
}

/// The model of a composite typed value is made of the models of its parts.
pub proof fn lemma_avro_model(v: AvroValue)
    ensures
        v matches AvroValue::Array(items) ==> v@ == AvroModel::Array(avro_items(items@)),
        v matches AvroValue::StringMap(es) ==> v@ == AvroModel::StringMap(avro_entries(es@)),
        v matches AvroValue::Record(es) ==> v@ == AvroModel::Record(avro_entries(es@)),
{
    match v {
        AvroValue::Array(items) => assert(v@->Array_0 =~= avro_items(items@)),
        AvroValue::StringMap(es) => assert(v@->StringMap_0 =~= avro_entries(es@)),
        AvroValue::Record(es) => assert(v@->Record_0 =~= avro_entries(es@)),
        _ => {},
    }
}

} // verus!
