use vstd::prelude::*;

use crate::value::AvroValue;

verus! {

/// A schema node, as the schema library hands it over.
///
/// A union is held as the one branch that non-null values are resolved
/// against: the library does not try each member of a union in turn.
#[derive(Debug, PartialEq)]
pub enum AvroSchema {
    Null,
    Boolean,
    Int,
    Long,
    Float,
    Double,
    Bytes,
    String,
    Fixed { size: usize },
    Array(Box<AvroSchema>),
    StringMap(Box<AvroSchema>),
    Union(Box<AvroSchema>),
    Record { fields: Vec<RecordField> },
    Enum { symbols: Vec<String> },
}

/// A field of a record schema, with its optional default value.
#[derive(Debug, PartialEq)]
pub struct RecordField {
    pub name: String,
    pub schema: AvroSchema,
    pub default: Option<AvroValue>,
}

/// Releases a schema. Dropping it is all there is to do.
pub fn avro_schema_free(schema: AvroSchema) {
}

} // verus!
