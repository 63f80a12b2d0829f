//! The pass-through struct: the pass-through chunk with its identity.

use vstd::prelude::*;
use crate::nucc::{NuccStructInfo, NuccStructView};
use crate::nucc_chunk::{NuccChunkType, NuccChunkView, NuccChunkUnknown};
use crate::nucc::struct_form;
use crate::nucc_chunk::nucc_chunk_unknown::UnknownView;

verus! {

/// A pass-through struct. It keeps the tag and the payload of a chunk whose kind has no codec.
#[derive(Clone, Debug, PartialEq, Eq)]
pub struct NuccUnknown {
    pub struct_info: NuccStructInfo,
    pub version: u16,
    pub data: Vec<u8>,
    pub chunk_type: Vec<u8>,
}

impl View for NuccUnknown {
    type V = NuccStructView;

    open spec fn view(&self) -> NuccStructView {
        NuccStructView {
            struct_info: self.struct_info@,
            chunk: NuccChunkView::Unknown(UnknownView { version: self.version, chunk_type: self.chunk_type@, data: self.data@ }),
        }
    }
}

impl NuccUnknown {
    /// The struct that a chunk and an identity make.
    pub fn from_chunk(chunk: NuccChunkUnknown, struct_info: NuccStructInfo) -> (r: NuccUnknown)
        ensures
            r@ == (NuccStructView {
                struct_info: struct_info@,
                chunk: struct_form(NuccChunkView::Unknown(chunk@)),
            }),
    {
        NuccUnknown {
            struct_info,
            version: chunk.version,
            data: chunk.data,
            chunk_type: chunk.chunk_type,
        }
    }

    /// The chunk of the struct, without its identity.
    pub fn into_chunk(self) -> (r: NuccChunkUnknown)
        ensures
            NuccChunkView::Unknown(r@) == self@.chunk,
    {
        NuccChunkUnknown {
            version: self.version,
            data: self.data,
            chunk_type: self.chunk_type,
        }
    }

    /// The kind of the struct's chunk.
    pub fn chunk_type(&self) -> (r: NuccChunkType)
        ensures
            r == NuccChunkType::NuccChunkUnknown,
    {
        NuccChunkType::NuccChunkUnknown
    }

    /// The version of the struct's chunk.
    pub fn version(&self) -> (r: u16)
        ensures
            r == self.version,
    {
        self.version
    }
}

} // verus!
