//! The animation struct: the animation chunk with its identity.

use vstd::prelude::*;
use crate::nucc::{NuccStructInfo, NuccStructView};
use crate::nucc_chunk::{NuccChunkType, NuccChunkView, NuccChunkAnm};
use crate::nucc::struct_form;
use crate::nucc_chunk::anm_key::AnmTrack;
use crate::nucc_chunk::nucc_chunk_anm::{
    clumps_view, entries_view, AnmClump, AnmEntry, CoordParent, NuccChunkAnmView,
};

verus! {

/// One entry of an animation struct: the entry of the animation chunk.
pub type Entry = AnmEntry;

/// One track of an entry: the track of the animation chunk.
pub type Track = AnmTrack;

/// An animation struct. The loop flag is a truth value.
#[derive(Clone, Debug, PartialEq, Eq)]
pub struct NuccAnm {
    pub struct_info: NuccStructInfo,
    pub version: u16,
    pub frame_count: u32,
    pub is_looped: bool,
    pub other_entries_indices: Vec<u32>,
    pub unk_entry_indices: Vec<u32>,
    pub clumps: Vec<AnmClump>,
    pub coord_parents: Vec<CoordParent>,
    pub entries: Vec<Entry>,
}

impl View for NuccAnm {
    type V = NuccStructView;

    open spec fn view(&self) -> NuccStructView {
        NuccStructView {
            struct_info: self.struct_info@,
            chunk: NuccChunkView::Anm(NuccChunkAnmView {
                version: self.version,
                frame_count: self.frame_count,
                is_looped: if self.is_looped {
                    1
                } else {
                    0
                },
                clumps: clumps_view(self.clumps@),
                other_entries_indices: self.other_entries_indices@,
                unk_entry_indices: self.unk_entry_indices@,
                coord_parents: self.coord_parents@,
                entries: entries_view(self.entries@),
            }),
        }
    }
}

impl NuccAnm {
    /// The struct that a chunk and an identity make.
    pub fn from_chunk(chunk: NuccChunkAnm, struct_info: NuccStructInfo) -> (r: NuccAnm)
        ensures
            r@ == (NuccStructView {
                struct_info: struct_info@,
                chunk: struct_form(NuccChunkView::Anm(chunk@)),
            }),
    {
        NuccAnm {
            struct_info,
            version: chunk.version,
            frame_count: chunk.frame_count,
            is_looped: chunk.is_looped == 1,
            other_entries_indices: chunk.other_entries_indices,
            unk_entry_indices: chunk.unk_entry_indices,
            clumps: chunk.clumps,
            coord_parents: chunk.coord_parents,
            entries: chunk.entries,
        }
    }

    /// The chunk of the struct, without its identity.
    pub fn into_chunk(self) -> (r: NuccChunkAnm)
        ensures
            NuccChunkView::Anm(r@) == self@.chunk,
    {
        NuccChunkAnm {
            version: self.version,
            frame_count: self.frame_count,
            is_looped: if self.is_looped {
                1
            } else {
                0
            },
            clumps: self.clumps,
            other_entries_indices: self.other_entries_indices,
            unk_entry_indices: self.unk_entry_indices,
            coord_parents: self.coord_parents,
            entries: self.entries,
        }
    }

    /// The kind of the struct's chunk.
    pub fn chunk_type(&self) -> (r: NuccChunkType)
        ensures
            r == NuccChunkType::NuccChunkAnm,
    {
        NuccChunkType::NuccChunkAnm
    }

    /// The version of the struct's chunk.
    pub fn version(&self) -> (r: u16)
        ensures
            r == self.version,
    {
        self.version
    }
}

} // verus!
