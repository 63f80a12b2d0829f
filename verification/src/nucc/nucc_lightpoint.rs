//! The point light struct: the point light chunk with its identity.

use vstd::prelude::*;
use crate::nucc::{NuccStructInfo, NuccStructView};
use crate::nucc_chunk::{BlobView, NuccChunkType, NuccChunkView, NuccChunkLightPoint};

verus! {

/// A point light struct.
#[derive(Clone, Debug, PartialEq, Eq, Default)]
pub struct NuccLightPoint {
    pub struct_info: NuccStructInfo,
    pub version: u16,
    pub data: Vec<u8>,
}

impl View for NuccLightPoint {
    type V = NuccStructView;

    open spec fn view(&self) -> NuccStructView {
        NuccStructView {
            struct_info: self.struct_info@,
            chunk: NuccChunkView::LightPoint(BlobView { version: self.version, data: self.data@ }),
        }
    }
}

impl NuccLightPoint {
    /// The struct that a chunk and an identity make: every field is taken over as it is.
    pub fn from_chunk(chunk: NuccChunkLightPoint, struct_info: NuccStructInfo) -> (r: NuccLightPoint)
        ensures
            r@ == (NuccStructView {
                struct_info: struct_info@,
                chunk: NuccChunkView::LightPoint(chunk@),
            }),
    {
        NuccLightPoint { struct_info, version: chunk.version, data: chunk.data }
    }

    /// The chunk of the struct, without its identity.
    pub fn into_chunk(self) -> (r: NuccChunkLightPoint)
        ensures
            NuccChunkView::LightPoint(r@) == self@.chunk,
    {
        NuccChunkLightPoint { version: self.version, data: self.data }
    }

    /// The kind of the struct's chunk.
    pub fn chunk_type(&self) -> (r: NuccChunkType)
        ensures
            r == NuccChunkType::NuccChunkLightPoint,
    {
        NuccChunkType::NuccChunkLightPoint
    }

    /// The version of the struct's chunk.
    pub fn version(&self) -> (r: u16)
        ensures
            r == self.version,
    {
        self.version
    }
}

} // verus!
