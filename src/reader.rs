use vstd::prelude::*;

use crate::boundary::{ErrorSlot, LastError};
use crate::convert::{convert_back, pickle_value_from_avro};
use crate::schema::AvroSchema;
use crate::value::{AvroValue, PickleValue};

verus! {

/// What one read hands back: a decoded value, the end of the sequence, or
/// a failure, which is then in the error slot.
#[derive(Debug, PartialEq)]
pub enum ReadNext<T> {
    Value(T),
    End,
    Failed,
}

/// A reader's own part: the schema it reads under when one overrides the
/// container's own, how many values it has handed out, and whether it has
/// reached the end. Decoding is left to the container library, which hands
/// each outcome to `step`.
pub struct AvroReader<'a> {
    schema: Option<&'a AvroSchema>,
    count: usize,
    ended: bool,
}

impl<'a> AvroReader<'a> {
    pub closed spec fn spec_schema(&self) -> Option<AvroSchema> {
        match self.schema {
            Some(s) => Some(*s),
            None => None,
        }
    }

    /// The number of values handed out so far.
    pub closed spec fn spec_count(&self) -> nat {
        self.count as nat
    }

    /// Whether the end of the sequence has been reached.
    pub closed spec fn spec_ended(&self) -> bool {
        self.ended
    }

    /// The schema that overrides the container's own, if any.
    pub fn schema(&self) -> (r: Option<&'a AvroSchema>)
        ensures
            match r {
                Some(s) => self.spec_schema() == Some(*s),
                None => self.spec_schema() is None,
            },
    {
        self.schema
    }

    /// The number of values handed out so far.
    pub fn count(&self) -> (r: usize)
        ensures
            r == self.spec_count(),
    {
        self.count
    }

    /// Takes the outcome of decoding the next value: a value is handed out, the
    /// end of the sequence is reported as such from then on, and a failure is
    /// recorded in the slot.
    pub fn step(&mut self, slot: &mut ErrorSlot, decoded: Option<Result<AvroValue, LastError>>) -> (r:
        ReadNext<AvroValue>)
        requires
            old(self).spec_count() < usize::MAX,
        ensures
            final(self).spec_schema() == old(self).spec_schema(),
            old(self).spec_ended() ==> r is End && *final(self) == *old(self) && *final(slot) == *old(slot),
            !old(self).spec_ended() ==> match decoded {
                Some(Ok(v)) => r == ReadNext::Value(v) && final(self).spec_count() == old(self).spec_count() + 1
                    && !final(self).spec_ended() && *final(slot) == *old(slot),
                None => r is End && final(self).spec_ended() && final(self).spec_count() == old(
                    self,
                ).spec_count() && *final(slot) == *old(slot),
                Some(Err(e)) => r is Failed && final(slot).last == Some(e) && final(self).spec_count() == old(
                    self,
                ).spec_count() && final(self).spec_ended() == old(self).spec_ended(),
            },
    {
        if self.ended {
            return ReadNext::End;
        }
        match decoded {
            Some(Ok(v)) => {
                self.count = self.count + 1;
                ReadNext::Value(v)
            },
            None => {
                self.ended = true;
                ReadNext::End
            },
            Some(Err(e)) => {
                slot.record(e);
                ReadNext::Failed
            },
        }
    }

    /// As `step`, with a decoded value handed out converted back to a dynamic
    /// value.
    pub fn step_dynamic(&mut self, slot: &mut ErrorSlot, decoded: Option<Result<AvroValue, LastError>>) -> (r:
        ReadNext<PickleValue>)
        requires
            old(self).spec_count() < usize::MAX,
        ensures
            final(self).spec_schema() == old(self).spec_schema(),
            old(self).spec_ended() ==> r is End && final(self).spec_count() == old(self).spec_count()
                && *final(slot) == *old(slot),
            !old(self).spec_ended() ==> match decoded {
                Some(Ok(v)) => r matches ReadNext::Value(x) && x@ == convert_back(v@) && final(self).spec_count()
                    == old(self).spec_count() + 1 && *final(slot) == *old(slot),
                None => r is End && final(self).spec_ended() && *final(slot) == *old(slot),
                Some(Err(e)) => r is Failed && final(slot).last == Some(e),
            },
    {
        match self.step(slot, decoded) {
            ReadNext::Value(v) => ReadNext::Value(pickle_value_from_avro(&v)),
            ReadNext::End => ReadNext::End,
            ReadNext::Failed => ReadNext::Failed,
        }
    }
}

/// A reader under the container's own schema, or under the given one.
pub fn avro_reader_new<'a>(schema: Option<&'a AvroSchema>) -> (r: AvroReader<'a>)
    ensures
        r.spec_count() == 0,
        !r.spec_ended(),
        match schema {
            Some(s) => r.spec_schema() == Some(*s),
            None => r.spec_schema() is None,
        },
{
    AvroReader { schema, count: 0, ended: false }
}

/// Releases a reader. The buffer it read from stays with its owner.
pub fn avro_reader_free(reader: AvroReader) {
}

} // verus!
