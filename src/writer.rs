use vstd::prelude::*;

use crate::boundary::ErrorSlot;
use crate::codec::AvroCodec;
use crate::convert::{avro_value_from_pickle, convert, failure_text};
use crate::schema::AvroSchema;
use crate::value::{AvroValue, PickleValue};

verus! {

/// A writer's own part: the schema that it borrows, against which dynamic
/// values are converted before they are encoded, and the codec of its blocks.
/// The container encoding is left to the container library.
pub struct AvroWriter<'a> {
    schema: &'a AvroSchema,
    codec: AvroCodec,
}

impl<'a> AvroWriter<'a> {
    pub closed spec fn spec_schema(&self) -> AvroSchema {
        *self.schema
    }

    pub closed spec fn spec_codec(&self) -> AvroCodec {
        self.codec
    }

    /// The schema the writer converts against.
    pub fn schema(&self) -> (r: &'a AvroSchema)
        ensures
            *r == self.spec_schema(),
    {
        self.schema
    }

    /// The codec of the writer's blocks.
    pub fn codec(&self) -> (r: &AvroCodec)
        ensures
            *r == self.spec_codec(),
    {
        &self.codec
    }

    /// The typed value to encode for an appended dynamic value: its
    /// conversion against the writer's schema. A failure is recorded in the
    /// slot and yields `None`; a success leaves the slot as it was.
    pub fn prepare_append(&self, slot: &mut ErrorSlot, value: &PickleValue) -> (r: Option<AvroValue>)
        ensures
            match convert(self.spec_schema(), value@) {
                Ok(t) => r matches Some(v) && v@ == t && *final(slot) == *old(slot),
                Err(e) => r is None && (final(slot).last matches Some(l) && l.kind is Conversion
                    && l.message@ == failure_text(e)),
            },
    {
        let converted = avro_value_from_pickle(self.schema, value);
        match converted {
            Ok(v) => Some(v),
            Err(e) => {
                slot.record(e.to_last_error());
                None
            },
        }
    }
}

/// A writer bound to a borrowed schema, with the given codec.
pub fn avro_writer_new<'a>(schema: &'a AvroSchema, codec: AvroCodec) -> (r: AvroWriter<'a>)
    ensures
        r.spec_schema() == *schema,
        r.spec_codec() == codec,
{
    AvroWriter { schema, codec }
}

} // verus!
