//! The binary struct: the binary chunk with its identity.

use vstd::prelude::*;
use crate::nucc::{NuccStructInfo, NuccStructView};
use crate::nucc_chunk::{BlobView, NuccChunkType, NuccChunkView, NuccChunkBinary};

verus! {

/// A binary struct.
#[derive(Clone, Debug, PartialEq, Eq, Default)]
pub struct NuccBinary {
    pub struct_info: NuccStructInfo,
    pub version: u16,
    pub data: Vec<u8>,
}

impl View for NuccBinary {
    type V = NuccStructView;

    open spec fn view(&self) -> NuccStructView {
        NuccStructView {
            struct_info: self.struct_info@,
            chunk: NuccChunkView::Binary(BlobView { version: self.version, data: self.data@ }),
        }
    }
}

impl NuccBinary {
    /// The struct that a chunk and an identity make: every field is taken over as it is.
    pub fn from_chunk(chunk: NuccChunkBinary, struct_info: NuccStructInfo) -> (r: NuccBinary)
        ensures
            r@ == (NuccStructView {
                struct_info: struct_info@,
                chunk: NuccChunkView::Binary(chunk@),
            }),
    {
        NuccBinary { struct_info, version: chunk.version, data: chunk.data }
    }

    /// The chunk of the struct, without its identity.
    pub fn into_chunk(self) -> (r: NuccChunkBinary)
        ensures
            NuccChunkView::Binary(r@) == self@.chunk,
    {
        NuccChunkBinary { version: self.version, data: self.data }
    }

    /// The kind of the struct's chunk.
    pub fn chunk_type(&self) -> (r: NuccChunkType)
        ensures
            r == NuccChunkType::NuccChunkBinary,
    {
        NuccChunkType::NuccChunkBinary
    }

    /// The version of the struct's chunk.
    pub fn version(&self) -> (r: u16)
        ensures
            r == self.version,
    {
        self.version
    }
}

} // verus!
