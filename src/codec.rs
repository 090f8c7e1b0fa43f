use vstd::prelude::*;

use avro_rs::Codec;

verus! {

/// The container library's `Codec` enum, whose variants are read as it
/// declares them.
#[verifier::external_type_specification]
pub struct ExCodec(Codec);

/// The compression codec that a writer applies to the blocks it writes.
#[derive(Debug, Clone, Copy, PartialEq, Eq)]
pub enum AvroCodec {
    Null,
    Deflate,
}

impl AvroCodec {
    /// The container library's codec of the same name.
    pub fn to_codec(&self) -> (r: Codec)
        ensures
            (*self is Null) == (r == Codec::Null),
            (*self is Deflate) == (r == Codec::Deflate),
    {
        match self {
            AvroCodec::Null => Codec::Null,
            AvroCodec::Deflate => Codec::Deflate,
        }
    }
}

} // verus!
