//! The null chunk, which opens a page. It is a marker: its payload is the version of the
//! page's format and nothing else.

use vstd::prelude::*;
use crate::bytes::{
    has_at, in_bounds, lemma_u16_round_trip, push_u16, read_u16, u16_at, u16_wire,
};
use crate::nucc::{NuccStructInfo, StructInfoView};
use crate::nucc_chunk::NuccChunkType;

verus! {

/// The null chunk. It holds the version of the page's format.
#[derive(Clone, Copy, Debug, PartialEq, Eq, Default)]
pub struct NuccChunkNull(pub u16);

/// What decoding a null chunk's payload gives: the version its first two bytes say, or the
/// version of the chunk's frame where the payload is shorter. This never fails.
pub open spec fn null_parse(s: Seq<u8>, version: u16) -> NuccChunkNull {
    if in_bounds(s, 0, 2) {
        NuccChunkNull(u16_at(s, 0))
    } else {
        NuccChunkNull(version)
    }
}

/// The bytes a null chunk's payload is written as: its version.
pub open spec fn null_wire(c: NuccChunkNull) -> Seq<u8> {
    u16_wire(c.0)
}

/// The identity that every null chunk is registered under.
pub open spec fn null_info() -> StructInfoView {
    StructInfoView {
        chunk_name: Seq::empty(),
        chunk_type: NuccChunkType::NuccChunkNull.tag(),
        filepath: Seq::empty(),
    }
}

impl NuccChunkNull {
    /// Decodes the chunk from its payload.
    pub fn read(data: &[u8], version: u16) -> (r: NuccChunkNull)
        ensures
            r == null_parse(data@, version),
    {
        match read_u16(data, 0) {
            Some(v) => NuccChunkNull(v),
            None => NuccChunkNull(version),
        }
    }

    /// Encodes the chunk's payload.
    pub fn write(&self) -> (r: Vec<u8>)
        ensures
            r@ == null_wire(*self),
    {
        let mut out: Vec<u8> = Vec::new();
        push_u16(&mut out, self.0);
        out
    }

    /// The identity that every null chunk is registered under.
    pub fn default_chunk_info() -> (r: NuccStructInfo)
        ensures
            r@ == null_info(),
    {
        let tag = NuccChunkType::NuccChunkNull.to_tag();
        let empty: Vec<u8> = Vec::new();
        NuccStructInfo::new(empty.as_slice(), tag.as_slice(), empty.as_slice())
    }
}

/// Decoding inverts encoding: a null chunk is decoded, from any buffer that starts with the
/// bytes it was written as and under any frame version, to the chunk itself.
pub proof fn lemma_null_round_trip(s: Seq<u8>, version: u16, c: NuccChunkNull)
    requires
        has_at(s, 0, null_wire(c)),
    ensures
        null_parse(s, version) == c,
{
    lemma_u16_round_trip(s, 0, c.0);
}

} // verus!
