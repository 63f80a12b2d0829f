//! The camera struct: the camera chunk with its identity.

use vstd::prelude::*;
use crate::nucc::{NuccStructInfo, NuccStructView};
use crate::nucc_chunk::{NuccChunkType, NuccChunkView, NuccChunkCamera};
use crate::nucc::struct_form;

verus! {

/// A camera struct. `fov` holds the bit pattern of the field of view.
#[derive(Clone, Debug, PartialEq, Eq)]
pub struct NuccCamera {
    pub struct_info: NuccStructInfo,
    pub version: u16,
    pub fov: u32,
}

impl View for NuccCamera {
    type V = NuccStructView;

    open spec fn view(&self) -> NuccStructView {
        NuccStructView {
            struct_info: self.struct_info@,
            chunk: NuccChunkView::Camera(NuccChunkCamera { version: self.version, fov: self.fov }),
        }
    }
}

impl NuccCamera {
    /// The struct that a chunk and an identity make.
    pub fn from_chunk(chunk: NuccChunkCamera, struct_info: NuccStructInfo) -> (r: NuccCamera)
        ensures
            r@ == (NuccStructView {
                struct_info: struct_info@,
                chunk: struct_form(NuccChunkView::Camera(chunk)),
            }),
    {
        NuccCamera {
            struct_info,
            version: chunk.version,
            fov: chunk.fov,
        }
    }

    /// The chunk of the struct, without its identity.
    pub fn into_chunk(self) -> (r: NuccChunkCamera)
        ensures
            NuccChunkView::Camera(r) == self@.chunk,
    {
        NuccChunkCamera {
            version: self.version,
            fov: self.fov,
        }
    }

    /// The kind of the struct's chunk.
    pub fn chunk_type(&self) -> (r: NuccChunkType)
        ensures
            r == NuccChunkType::NuccChunkCamera,
    {
        NuccChunkType::NuccChunkCamera
    }

    /// The version of the struct's chunk.
    pub fn version(&self) -> (r: u16)
        ensures
            r == self.version,
    {
        self.version
    }
}

} // verus!
