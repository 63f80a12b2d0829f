//! The layer set struct: the layer set chunk with its identity.

use vstd::prelude::*;
use crate::nucc::{NuccStructInfo, NuccStructView};
use crate::nucc_chunk::{BlobView, NuccChunkType, NuccChunkView, NuccChunkLayerSet};

verus! {

/// A layer set struct.
#[derive(Clone, Debug, PartialEq, Eq, Default)]
pub struct NuccLayerSet {
    pub struct_info: NuccStructInfo,
    pub version: u16,
    pub data: Vec<u8>,
}

impl View for NuccLayerSet {
    type V = NuccStructView;

    open spec fn view(&self) -> NuccStructView {
        NuccStructView {
            struct_info: self.struct_info@,
            chunk: NuccChunkView::LayerSet(BlobView { version: self.version, data: self.data@ }),
        }
    }
}

impl NuccLayerSet {
    /// The struct that a chunk and an identity make: every field is taken over as it is.
    pub fn from_chunk(chunk: NuccChunkLayerSet, struct_info: NuccStructInfo) -> (r: NuccLayerSet)
        ensures
            r@ == (NuccStructView {
                struct_info: struct_info@,
                chunk: NuccChunkView::LayerSet(chunk@),
            }),
    {
        NuccLayerSet { struct_info, version: chunk.version, data: chunk.data }
    }

    /// The chunk of the struct, without its identity.
    pub fn into_chunk(self) -> (r: NuccChunkLayerSet)
        ensures
            NuccChunkView::LayerSet(r@) == self@.chunk,
    {
        NuccChunkLayerSet { version: self.version, data: self.data }
    }

    /// The kind of the struct's chunk.
    pub fn chunk_type(&self) -> (r: NuccChunkType)
        ensures
            r == NuccChunkType::NuccChunkLayerSet,
    {
        NuccChunkType::NuccChunkLayerSet
    }

    /// The version of the struct's chunk.
    pub fn version(&self) -> (r: u16)
        ensures
            r == self.version,
    {
        self.version
    }
}

} // verus!
