//! The animation stream frame struct: the animation stream frame chunk with its identity.

use vstd::prelude::*;
use crate::nucc::{NuccStructInfo, NuccStructView};
use crate::nucc_chunk::{NuccChunkType, NuccChunkView, NuccChunkAnmStrmFrame};
use crate::nucc::struct_form;
use crate::nucc_chunk::nucc_chunk_anmstrmframe::{
    frame_entries_view, AnmStrmEntry, NuccChunkAnmStrmFrameView,
};

verus! {

/// An animation stream frame struct.
#[derive(Clone, Debug, PartialEq, Eq)]
pub struct NuccAnmStrmFrame {
    pub struct_info: NuccStructInfo,
    pub version: u16,
    pub frame_number: u32,
    pub unknown: u16,
    pub entries: Vec<AnmStrmEntry>,
}

impl View for NuccAnmStrmFrame {
    type V = NuccStructView;

    open spec fn view(&self) -> NuccStructView {
        NuccStructView {
            struct_info: self.struct_info@,
            chunk: NuccChunkView::AnmStrmFrame(NuccChunkAnmStrmFrameView {
                version: self.version,
                frame_number: self.frame_number,
                unknown: self.unknown,
                entries: frame_entries_view(self.entries@),
            }),
        }
    }
}

impl NuccAnmStrmFrame {
    /// The struct that a chunk and an identity make.
    pub fn from_chunk(chunk: NuccChunkAnmStrmFrame, struct_info: NuccStructInfo) -> (r: NuccAnmStrmFrame)
        ensures
            r@ == (NuccStructView {
                struct_info: struct_info@,
                chunk: struct_form(NuccChunkView::AnmStrmFrame(chunk@)),
            }),
    {
        NuccAnmStrmFrame {
            struct_info,
            version: chunk.version,
            frame_number: chunk.frame_number,
            unknown: chunk.unknown,
            entries: chunk.entries,
        }
    }

    /// The chunk of the struct, without its identity.
    pub fn into_chunk(self) -> (r: NuccChunkAnmStrmFrame)
        ensures
            NuccChunkView::AnmStrmFrame(r@) == self@.chunk,
    {
        NuccChunkAnmStrmFrame {
            version: self.version,
            frame_number: self.frame_number,
            unknown: self.unknown,
            entries: self.entries,
        }
    }

    /// The kind of the struct's chunk.
    pub fn chunk_type(&self) -> (r: NuccChunkType)
        ensures
            r == NuccChunkType::NuccChunkAnmStrmFrame,
    {
        NuccChunkType::NuccChunkAnmStrmFrame
    }

    /// The version of the struct's chunk.
    pub fn version(&self) -> (r: u16)
        ensures
            r == self.version,
    {
        self.version
    }
}

} // verus!
