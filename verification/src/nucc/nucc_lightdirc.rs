//! The directional light struct: the directional light chunk with its identity.

use vstd::prelude::*;
use crate::nucc::{NuccStructInfo, NuccStructView};
use crate::nucc_chunk::{BlobView, NuccChunkType, NuccChunkView, NuccChunkLightDirc};

verus! {

/// A directional light struct.
#[derive(Clone, Debug, PartialEq, Eq, Default)]
pub struct NuccLightDirc {
    pub struct_info: NuccStructInfo,
    pub version: u16,
    pub data: Vec<u8>,
}

impl View for NuccLightDirc {
    type V = NuccStructView;

    open spec fn view(&self) -> NuccStructView {
        NuccStructView {
            struct_info: self.struct_info@,
            chunk: NuccChunkView::LightDirc(BlobView { version: self.version, data: self.data@ }),
        }
    }
}

impl NuccLightDirc {
    /// The struct that a chunk and an identity make: every field is taken over as it is.
    pub fn from_chunk(chunk: NuccChunkLightDirc, struct_info: NuccStructInfo) -> (r: NuccLightDirc)
        ensures
            r@ == (NuccStructView {
                struct_info: struct_info@,
                chunk: NuccChunkView::LightDirc(chunk@),
            }),
    {
        NuccLightDirc { struct_info, version: chunk.version, data: chunk.data }
    }

    /// The chunk of the struct, without its identity.
    pub fn into_chunk(self) -> (r: NuccChunkLightDirc)
        ensures
            NuccChunkView::LightDirc(r@) == self@.chunk,
    {
        NuccChunkLightDirc { version: self.version, data: self.data }
    }

    /// The kind of the struct's chunk.
    pub fn chunk_type(&self) -> (r: NuccChunkType)
        ensures
            r == NuccChunkType::NuccChunkLightDirc,
    {
        NuccChunkType::NuccChunkLightDirc
    }

    /// The version of the struct's chunk.
    pub fn version(&self) -> (r: u16)
        ensures
            r == self.version,
    {
        self.version
    }
}

} // verus!
