//! The index chunk, a marker without a payload that follows a page chunk.

use vstd::prelude::*;
use vstd::string::StringSliceAdditionalSpecFns;
use crate::nucc::{NuccStructInfo, StructInfoView};
use crate::nucc_chunk::NuccChunkType;

verus! {

/// The index chunk. It holds nothing.
#[derive(Clone, Copy, Debug, PartialEq, Eq, Default)]
pub struct NuccChunkIndex;

/// The name that the identity of every index chunk carries.
pub open spec fn index_name() -> Seq<u8> {
    "index".spec_bytes()
}

/// The identity that every index chunk is registered under.
pub open spec fn index_info() -> StructInfoView {
    StructInfoView {
        chunk_name: index_name(),
        chunk_type: NuccChunkType::NuccChunkIndex.tag(),
        filepath: Seq::empty(),
    }
}

impl NuccChunkIndex {
    /// The identity that every index chunk is registered under.
    pub fn default_chunk_info() -> (r: NuccStructInfo)
        ensures
            r@ == index_info(),
    {
        let tag = NuccChunkType::NuccChunkIndex.to_tag();
        let empty: Vec<u8> = Vec::new();
        NuccStructInfo::new("index".as_bytes(), tag.as_slice(), empty.as_slice())
    }
}

} // verus!
