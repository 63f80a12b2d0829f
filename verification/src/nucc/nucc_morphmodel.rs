//! The morph model struct: the morph model chunk with its identity.

use vstd::prelude::*;
use crate::nucc::{NuccStructInfo, NuccStructView};
use crate::nucc_chunk::{BlobView, NuccChunkMorphModel, NuccChunkType, NuccChunkView};
use crate::nucc::struct_form;

verus! {

/// A morph model struct. The count that its chunk is written with is computed from the
/// block.
#[derive(Clone, Debug, PartialEq, Eq)]
pub struct NuccMorphModel {
    pub struct_info: NuccStructInfo,
    pub version: u16,
    pub data: Vec<u8>,
}

impl View for NuccMorphModel {
    type V = NuccStructView;

    open spec fn view(&self) -> NuccStructView {
        NuccStructView {
            struct_info: self.struct_info@,
            chunk: NuccChunkView::MorphModel(BlobView { version: self.version, data: self.data@ }),
        }
    }
}

impl NuccMorphModel {
    /// The struct that a chunk and an identity make.
    pub fn from_chunk(chunk: NuccChunkMorphModel, struct_info: NuccStructInfo) -> (r: NuccMorphModel)
        ensures
            r@ == (NuccStructView {
                struct_info: struct_info@,
                chunk: struct_form(NuccChunkView::MorphModel(chunk@)),
            }),
    {
        NuccMorphModel {
            struct_info,
            version: chunk.version,
            data: chunk.data,
        }
    }

    /// The chunk of the struct, without its identity.
    pub fn into_chunk(self) -> (r: NuccChunkMorphModel)
        ensures
            NuccChunkView::MorphModel(r@) == self@.chunk,
    {
        NuccChunkMorphModel {
            version: self.version,
            data: self.data,
        }
    }

    /// The kind of the struct's chunk.
    pub fn chunk_type(&self) -> (r: NuccChunkType)
        ensures
            r == NuccChunkType::NuccChunkMorphModel,
    {
        NuccChunkType::NuccChunkMorphModel
    }

    /// The version of the struct's chunk.
    pub fn version(&self) -> (r: u16)
        ensures
            r == self.version,
    {
        self.version
    }
}

} // verus!
