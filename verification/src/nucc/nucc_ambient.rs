//! The ambient light struct: the ambient light chunk with its identity.

use vstd::prelude::*;
use crate::nucc::{NuccStructInfo, NuccStructView};
use crate::nucc_chunk::{BlobView, NuccChunkType, NuccChunkView, NuccChunkAmbient};

verus! {

/// An ambient light struct.
#[derive(Clone, Debug, PartialEq, Eq, Default)]
pub struct NuccAmbient {
    pub struct_info: NuccStructInfo,
    pub version: u16,
    pub data: Vec<u8>,
}

impl View for NuccAmbient {
    type V = NuccStructView;

    open spec fn view(&self) -> NuccStructView {
        NuccStructView {
            struct_info: self.struct_info@,
            chunk: NuccChunkView::Ambient(BlobView { version: self.version, data: self.data@ }),
        }
    }
}

impl NuccAmbient {
    /// The struct that a chunk and an identity make: every field is taken over as it is.
    pub fn from_chunk(chunk: NuccChunkAmbient, struct_info: NuccStructInfo) -> (r: NuccAmbient)
        ensures
            r@ == (NuccStructView {
                struct_info: struct_info@,
                chunk: NuccChunkView::Ambient(chunk@),
            }),
    {
        NuccAmbient { struct_info, version: chunk.version, data: chunk.data }
    }

    /// The chunk of the struct, without its identity.
    pub fn into_chunk(self) -> (r: NuccChunkAmbient)
        ensures
            NuccChunkView::Ambient(r@) == self@.chunk,
    {
        NuccChunkAmbient { version: self.version, data: self.data }
    }

    /// The kind of the struct's chunk.
    pub fn chunk_type(&self) -> (r: NuccChunkType)
        ensures
            r == NuccChunkType::NuccChunkAmbient,
    {
        NuccChunkType::NuccChunkAmbient
    }

    /// The version of the struct's chunk.
    pub fn version(&self) -> (r: u16)
        ensures
            r == self.version,
    {
        self.version
    }
}

} // verus!
