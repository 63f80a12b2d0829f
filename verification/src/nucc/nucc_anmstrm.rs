//! The animation stream struct: the animation stream chunk with its identity.

use vstd::prelude::*;
use crate::nucc::{NuccStructInfo, NuccStructView};
use crate::nucc_chunk::{NuccChunkType, NuccChunkView, NuccChunkAnmStrm};
use crate::nucc::struct_form;
use crate::nucc_chunk::nucc_chunk_anm::CoordParent;
use crate::nucc_chunk::nucc_chunk_anmstrm::{
    strm_clumps_view, AnmStrmClump, AnmStrmFrameInfo, NuccChunkAnmStrmView,
};

verus! {

/// An animation stream struct. The loop flag is a truth value, and the count of unknown entries is not kept: the
/// index list holds them all.
#[derive(Clone, Debug, PartialEq, Eq)]
pub struct NuccAnmStrm {
    pub struct_info: NuccStructInfo,
    pub version: u16,
    pub frame_count: u32,
    pub is_looped: bool,
    pub clumps: Vec<AnmStrmClump>,
    pub other_entry_indices: Vec<u32>,
    pub coord_parents: Vec<CoordParent>,
    pub entries: Vec<AnmStrmFrameInfo>,
}

impl View for NuccAnmStrm {
    type V = NuccStructView;

    open spec fn view(&self) -> NuccStructView {
        NuccStructView {
            struct_info: self.struct_info@,
            chunk: NuccChunkView::AnmStrm(NuccChunkAnmStrmView {
                version: self.version,
                frame_count: self.frame_count,
                is_looped: if self.is_looped {
                    1
                } else {
                    0
                },
                unk_entry_count: 0,
                clumps: strm_clumps_view(self.clumps@),
                other_entry_indices: self.other_entry_indices@,
                coord_parents: self.coord_parents@,
                entries: self.entries@,
            }),
        }
    }
}

impl NuccAnmStrm {
    /// The struct that a chunk and an identity make.
    pub fn from_chunk(chunk: NuccChunkAnmStrm, struct_info: NuccStructInfo) -> (r: NuccAnmStrm)
        ensures
            r@ == (NuccStructView {
                struct_info: struct_info@,
                chunk: struct_form(NuccChunkView::AnmStrm(chunk@)),
            }),
    {
        NuccAnmStrm {
            struct_info,
            version: chunk.version,
            frame_count: chunk.frame_count,
            is_looped: chunk.is_looped == 1,
            clumps: chunk.clumps,
            other_entry_indices: chunk.other_entry_indices,
            coord_parents: chunk.coord_parents,
            entries: chunk.entries,
        }
    }

    /// The chunk of the struct, without its identity.
    pub fn into_chunk(self) -> (r: NuccChunkAnmStrm)
        ensures
            NuccChunkView::AnmStrm(r@) == self@.chunk,
    {
        NuccChunkAnmStrm {
            version: self.version,
            frame_count: self.frame_count,
            is_looped: if self.is_looped {
                1
            } else {
                0
            },
            unk_entry_count: 0,
            clumps: self.clumps,
            other_entry_indices: self.other_entry_indices,
            coord_parents: self.coord_parents,
            entries: self.entries,
        }
    }

    /// The kind of the struct's chunk.
    pub fn chunk_type(&self) -> (r: NuccChunkType)
        ensures
            r == NuccChunkType::NuccChunkAnmStrm,
    {
        NuccChunkType::NuccChunkAnmStrm
    }

    /// The version of the struct's chunk.
    pub fn version(&self) -> (r: u16)
        ensures
            r == self.version,
    {
        self.version
    }
}

} // verus!
