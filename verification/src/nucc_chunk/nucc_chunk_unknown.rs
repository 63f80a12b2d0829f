//! The pass-through chunk: a chunk of a kind this crate has no codec for, kept as its tag
//! and its raw payload so that it is written back as it was read.

use vstd::prelude::*;
use crate::bytes::copy_bytes;

verus! {

/// A chunk of a kind without a codec. `chunk_type` is the tag it was found under and `data`
/// its whole payload. `version` comes from the chunk's frame.
#[derive(Clone, Debug, PartialEq, Eq, Default)]
pub struct NuccChunkUnknown {
    pub version: u16,
    pub chunk_type: Vec<u8>,
    pub data: Vec<u8>,
}

/// What a `NuccChunkUnknown` holds.
pub struct UnknownView {
    pub version: u16,
    pub chunk_type: Seq<u8>,
    pub data: Seq<u8>,
}

impl View for NuccChunkUnknown {
    type V = UnknownView;

    open spec fn view(&self) -> UnknownView {
        UnknownView { version: self.version, chunk_type: self.chunk_type@, data: self.data@ }
    }
}

/// What decoding a payload under a tag without a codec gives: the tag and the payload.
pub open spec fn unknown_parse(s: Seq<u8>, chunk_type: Seq<u8>, version: u16) -> UnknownView {
    UnknownView { version, chunk_type, data: s }
}

/// The bytes a pass-through chunk's payload is written as: the payload it was read from.
pub open spec fn unknown_wire(c: UnknownView) -> Seq<u8> {
    c.data
}

impl NuccChunkUnknown {
    /// Keeps a payload under its tag. This never fails.
    pub fn read(data: &[u8], chunk_type: &[u8], version: u16) -> (r: NuccChunkUnknown)
        ensures
            r@ == unknown_parse(data@, chunk_type@, version),
    {
        NuccChunkUnknown { version, chunk_type: copy_bytes(chunk_type), data: copy_bytes(data) }
    }

    /// Encodes the chunk's payload.
    pub fn write(&self) -> (r: Vec<u8>)
        ensures
            r@ == unknown_wire(self@),
    {
        copy_bytes(self.data.as_slice())
    }
}

/// Encoding inverts decoding, byte for byte, and decoding inverts encoding.
pub proof fn lemma_unknown_round_trip(s: Seq<u8>, chunk_type: Seq<u8>, version: u16, c: UnknownView)
    ensures
        unknown_wire(unknown_parse(s, chunk_type, version)) == s,
        unknown_parse(unknown_wire(c), c.chunk_type, c.version) == c,
{
}

} // verus!
