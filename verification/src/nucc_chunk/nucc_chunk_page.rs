//! The page chunk, which closes a page and says how many entries of the container's tables
//! belong to it.

use vstd::prelude::*;
use vstd::string::StringSliceAdditionalSpecFns;
use crate::bytes::{
    has_at, in_bounds, lemma_has_at_concat, lemma_u32_round_trip, push_u32, read_u32, u32_at,
    u32_wire,
};
use crate::error::DecodeError;
use crate::nucc::{NuccStructInfo, StructInfoView};
use crate::nucc_chunk::NuccChunkType;

verus! {

/// The page chunk. `version` comes from the chunk's frame and is not part of the payload.
/// `map_index_count` is the number of struct identities of the page, `reference_count` the
/// number of its references.
#[derive(Clone, Copy, Debug, PartialEq, Eq, Default)]
pub struct NuccChunkPage {
    pub version: u16,
    pub map_index_count: u32,
    pub reference_count: u32,
}

/// What decoding a page chunk's payload gives.
pub open spec fn page_parse(s: Seq<u8>, version: u16) -> Result<NuccChunkPage, DecodeError> {
    if !in_bounds(s, 0, 8) {
        Err(DecodeError::Truncated)
    } else {
        Ok(NuccChunkPage { version, map_index_count: u32_at(s, 0), reference_count: u32_at(s, 4) })
    }
}

/// The bytes a page chunk's payload is written as: the two counts.
pub open spec fn page_wire(c: NuccChunkPage) -> Seq<u8> {
    u32_wire(c.map_index_count) + u32_wire(c.reference_count)
}

/// The name that the identity of every page chunk carries.
pub open spec fn page_name() -> Seq<u8> {
    "Page0".spec_bytes()
}

/// The identity that every page chunk is registered under.
pub open spec fn page_info() -> StructInfoView {
    StructInfoView {
        chunk_name: page_name(),
        chunk_type: NuccChunkType::NuccChunkPage.tag(),
        filepath: Seq::empty(),
    }
}

impl NuccChunkPage {
    /// Decodes the chunk from its payload.
    pub fn read(data: &[u8], version: u16) -> (r: Result<NuccChunkPage, DecodeError>)
        ensures
            r == page_parse(data@, version),
    {
        if 8 > data.len() {
            return Err(DecodeError::Truncated);
        }
        Ok(
            NuccChunkPage {
                version,
                map_index_count: read_u32(data, 0).unwrap(),
                reference_count: read_u32(data, 4).unwrap(),
            },
        )
    }

    /// Encodes the chunk's payload.
    pub fn write(&self) -> (r: Vec<u8>)
        ensures
            r@ == page_wire(*self),
    {
        let mut out: Vec<u8> = Vec::new();
        push_u32(&mut out, self.map_index_count);
        push_u32(&mut out, self.reference_count);
        out
    }

    /// The identity that every page chunk is registered under.
    pub fn default_chunk_info() -> (r: NuccStructInfo)
        ensures
            r@ == page_info(),
    {
        let tag = NuccChunkType::NuccChunkPage.to_tag();
        let empty: Vec<u8> = Vec::new();
        NuccStructInfo::new("Page0".as_bytes(), tag.as_slice(), empty.as_slice())
    }
}

/// Decoding inverts encoding: a page chunk is decoded, from any buffer that starts with the
/// bytes it was written as, to the chunk itself.
pub proof fn lemma_page_round_trip(s: Seq<u8>, c: NuccChunkPage)
    requires
        has_at(s, 0, page_wire(c)),
    ensures
        page_parse(s, c.version) == Ok::<NuccChunkPage, DecodeError>(c),
{
    lemma_has_at_concat(s, 0, u32_wire(c.map_index_count), u32_wire(c.reference_count));
    lemma_u32_round_trip(s, 0, c.map_index_count);
    lemma_u32_round_trip(s, 4, c.reference_count);
}

} // verus!
