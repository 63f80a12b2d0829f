//! The wire-level chunks: one codec for each chunk kind, and the registry that finds the
//! codec of a payload by the payload's tag.
//!
//! A tag that names no kind is no error: its payload is kept as a pass-through chunk and
//! written back unchanged.

use vstd::prelude::*;
use vstd::string::StringSliceAdditionalSpecFns;
use crate::bytes::{bytes_eq, copy_bytes, has_at, lemma_has_at_whole};
use crate::error::{DecodeError, EncodeError};
use crate::nucc_chunk::nucc_chunk_ambient::{ambient_parse, ambient_size, ambient_wire};
use crate::nucc_chunk::nucc_chunk_anm::{
    anm_check, anm_parse, anm_wire, lemma_anm_round_trip, NuccChunkAnmView,
};
use crate::nucc_chunk::nucc_chunk_anmstrm::{
    anmstrm_check, anmstrm_parse, anmstrm_wire, lemma_anmstrm_round_trip, NuccChunkAnmStrmView,
};
use crate::nucc_chunk::nucc_chunk_anmstrmframe::{
    anmstrmframe_check, anmstrmframe_parse, anmstrmframe_wire, lemma_anmstrmframe_round_trip,
    NuccChunkAnmStrmFrameView,
};
use crate::nucc_chunk::nucc_chunk_binary::{
    binary_check, binary_parse, binary_wire, lemma_binary_round_trip,
};
use crate::nucc_chunk::nucc_chunk_camera::{camera_parse, camera_wire, lemma_camera_round_trip};
use crate::nucc_chunk::nucc_chunk_layerset::{layerset_parse, layerset_size, layerset_wire};
use crate::nucc_chunk::nucc_chunk_lightdirc::{lightdirc_parse, lightdirc_size, lightdirc_wire};
use crate::nucc_chunk::nucc_chunk_lightpoint::{
    lightpoint_parse, lightpoint_size, lightpoint_wire,
};
use crate::nucc_chunk::nucc_chunk_morphmodel::{
    lemma_morphmodel_round_trip, morphmodel_check, morphmodel_parse, morphmodel_wire,
};
use crate::nucc_chunk::nucc_chunk_null::{lemma_null_round_trip, null_parse, null_wire};
use crate::nucc_chunk::nucc_chunk_page::{lemma_page_round_trip, page_parse, page_wire};
use crate::nucc_chunk::nucc_chunk_unknown::{unknown_parse, unknown_wire, UnknownView};

pub mod anm_key;
pub mod nucc_chunk_ambient;
pub mod nucc_chunk_anm;
pub mod nucc_chunk_anmstrm;
pub mod nucc_chunk_anmstrmframe;
pub mod nucc_chunk_binary;
pub mod nucc_chunk_camera;
pub mod nucc_chunk_index;
pub mod nucc_chunk_layerset;
pub mod nucc_chunk_lightdirc;
pub mod nucc_chunk_lightpoint;
pub mod nucc_chunk_morphmodel;
pub mod nucc_chunk_null;
pub mod nucc_chunk_page;
pub mod nucc_chunk_texture;
pub mod nucc_chunk_unknown;
pub mod nucc_helper;

pub use nucc_chunk_ambient::NuccChunkAmbient;
pub use nucc_chunk_anm::NuccChunkAnm;
pub use nucc_chunk_anmstrm::NuccChunkAnmStrm;
pub use nucc_chunk_anmstrmframe::NuccChunkAnmStrmFrame;
pub use nucc_chunk_binary::NuccChunkBinary;
pub use nucc_chunk_camera::NuccChunkCamera;
pub use nucc_chunk_index::NuccChunkIndex;
pub use nucc_chunk_layerset::NuccChunkLayerSet;
pub use nucc_chunk_lightdirc::NuccChunkLightDirc;
pub use nucc_chunk_lightpoint::NuccChunkLightPoint;
pub use nucc_chunk_morphmodel::NuccChunkMorphModel;
pub use nucc_chunk_null::NuccChunkNull;
pub use nucc_chunk_page::NuccChunkPage;
pub use nucc_chunk_texture::{NuccTexture, Nut, NutTexture};
pub use nucc_chunk_unknown::NuccChunkUnknown;

verus! {

/// What a chunk that is one block of bytes holds.
pub struct BlobView {
    pub version: u16,
    pub data: Seq<u8>,
}

/// The chunk kinds.
#[derive(Clone, Copy, Debug, PartialEq, Eq, Structural)]
pub enum NuccChunkType {
    NuccChunkNull,
    NuccChunkPage,
    NuccChunkIndex,
    NuccChunkBinary,
    NuccChunkAnm,
    NuccChunkAnmStrm,
    NuccChunkAnmStrmFrame,
    NuccChunkCamera,
    NuccChunkLightDirc,
    NuccChunkLightPoint,
    NuccChunkLayerSet,
    NuccChunkAmbient,
    NuccChunkMorphModel,
    NuccChunkUnknown,
}

impl Default for NuccChunkType {
    fn default() -> (r: NuccChunkType)
        ensures
            r == NuccChunkType::NuccChunkUnknown,
    {
        NuccChunkType::NuccChunkUnknown
    }
}

impl NuccChunkType {
    /// The tag that a kind is named by in the container's table of chunk types.
    pub open spec fn tag(self) -> Seq<u8> {
        match self {
            NuccChunkType::NuccChunkNull => "nuccChunkNull".spec_bytes(),
            NuccChunkType::NuccChunkPage => "nuccChunkPage".spec_bytes(),
            NuccChunkType::NuccChunkIndex => "nuccChunkIndex".spec_bytes(),
            NuccChunkType::NuccChunkBinary => "nuccChunkBinary".spec_bytes(),
            NuccChunkType::NuccChunkAnm => "nuccChunkAnm".spec_bytes(),
            NuccChunkType::NuccChunkAnmStrm => "nuccChunkAnmStrm".spec_bytes(),
            NuccChunkType::NuccChunkAnmStrmFrame => "nuccChunkAnmStrmFrame".spec_bytes(),
            NuccChunkType::NuccChunkCamera => "nuccChunkCamera".spec_bytes(),
            NuccChunkType::NuccChunkLightDirc => "nuccChunkLightDirc".spec_bytes(),
            NuccChunkType::NuccChunkLightPoint => "nuccChunkLightPoint".spec_bytes(),
            NuccChunkType::NuccChunkLayerSet => "nuccChunkLayerSet".spec_bytes(),
            NuccChunkType::NuccChunkAmbient => "nuccChunkAmbient".spec_bytes(),
            NuccChunkType::NuccChunkMorphModel => "nuccChunkMorphModel".spec_bytes(),
            NuccChunkType::NuccChunkUnknown => "nuccChunkUnknown".spec_bytes(),
        }
    }

    /// The kind that a tag names; a tag that names none stands for the pass-through kind.
    pub open spec fn of_tag(t: Seq<u8>) -> NuccChunkType {
        if t == NuccChunkType::NuccChunkNull.tag() {
            NuccChunkType::NuccChunkNull
        } else if t == NuccChunkType::NuccChunkPage.tag() {
            NuccChunkType::NuccChunkPage
        } else if t == NuccChunkType::NuccChunkIndex.tag() {
            NuccChunkType::NuccChunkIndex
        } else if t == NuccChunkType::NuccChunkBinary.tag() {
            NuccChunkType::NuccChunkBinary
        } else if t == NuccChunkType::NuccChunkAnm.tag() {
            NuccChunkType::NuccChunkAnm
        } else if t == NuccChunkType::NuccChunkAnmStrm.tag() {
            NuccChunkType::NuccChunkAnmStrm
        } else if t == NuccChunkType::NuccChunkAnmStrmFrame.tag() {
            NuccChunkType::NuccChunkAnmStrmFrame
        } else if t == NuccChunkType::NuccChunkCamera.tag() {
            NuccChunkType::NuccChunkCamera
        } else if t == NuccChunkType::NuccChunkLightDirc.tag() {
            NuccChunkType::NuccChunkLightDirc
        } else if t == NuccChunkType::NuccChunkLightPoint.tag() {
            NuccChunkType::NuccChunkLightPoint
        } else if t == NuccChunkType::NuccChunkLayerSet.tag() {
            NuccChunkType::NuccChunkLayerSet
        } else if t == NuccChunkType::NuccChunkAmbient.tag() {
            NuccChunkType::NuccChunkAmbient
        } else if t == NuccChunkType::NuccChunkMorphModel.tag() {
            NuccChunkType::NuccChunkMorphModel
        } else {
            NuccChunkType::NuccChunkUnknown
        }
    }

    /// The tag of this kind.
    pub fn to_tag(&self) -> (r: Vec<u8>)
        ensures
            r@ == self.tag(),
    {
        let text: &str = match self {
            NuccChunkType::NuccChunkNull => "nuccChunkNull",
            NuccChunkType::NuccChunkPage => "nuccChunkPage",
            NuccChunkType::NuccChunkIndex => "nuccChunkIndex",
            NuccChunkType::NuccChunkBinary => "nuccChunkBinary",
            NuccChunkType::NuccChunkAnm => "nuccChunkAnm",
            NuccChunkType::NuccChunkAnmStrm => "nuccChunkAnmStrm",
            NuccChunkType::NuccChunkAnmStrmFrame => "nuccChunkAnmStrmFrame",
            NuccChunkType::NuccChunkCamera => "nuccChunkCamera",
            NuccChunkType::NuccChunkLightDirc => "nuccChunkLightDirc",
            NuccChunkType::NuccChunkLightPoint => "nuccChunkLightPoint",
            NuccChunkType::NuccChunkLayerSet => "nuccChunkLayerSet",
            NuccChunkType::NuccChunkAmbient => "nuccChunkAmbient",
            NuccChunkType::NuccChunkMorphModel => "nuccChunkMorphModel",
            NuccChunkType::NuccChunkUnknown => "nuccChunkUnknown",
        };
        copy_bytes(text.as_bytes())
    }

    /// The kind that the tag `t` names, or the pass-through kind where it names none.
    pub fn from_tag(t: &[u8]) -> (r: NuccChunkType)
        ensures
            r == NuccChunkType::of_tag(t@),
    {
        if bytes_eq(t, "nuccChunkNull".as_bytes()) {
            NuccChunkType::NuccChunkNull
        } else if bytes_eq(t, "nuccChunkPage".as_bytes()) {
            NuccChunkType::NuccChunkPage
        } else if bytes_eq(t, "nuccChunkIndex".as_bytes()) {
            NuccChunkType::NuccChunkIndex
        } else if bytes_eq(t, "nuccChunkBinary".as_bytes()) {
            NuccChunkType::NuccChunkBinary
        } else if bytes_eq(t, "nuccChunkAnm".as_bytes()) {
            NuccChunkType::NuccChunkAnm
        } else if bytes_eq(t, "nuccChunkAnmStrm".as_bytes()) {
            NuccChunkType::NuccChunkAnmStrm
        } else if bytes_eq(t, "nuccChunkAnmStrmFrame".as_bytes()) {
            NuccChunkType::NuccChunkAnmStrmFrame
        } else if bytes_eq(t, "nuccChunkCamera".as_bytes()) {
            NuccChunkType::NuccChunkCamera
        } else if bytes_eq(t, "nuccChunkLightDirc".as_bytes()) {
            NuccChunkType::NuccChunkLightDirc
        } else if bytes_eq(t, "nuccChunkLightPoint".as_bytes()) {
            NuccChunkType::NuccChunkLightPoint
        } else if bytes_eq(t, "nuccChunkLayerSet".as_bytes()) {
            NuccChunkType::NuccChunkLayerSet
        } else if bytes_eq(t, "nuccChunkAmbient".as_bytes()) {
            NuccChunkType::NuccChunkAmbient
        } else if bytes_eq(t, "nuccChunkMorphModel".as_bytes()) {
            NuccChunkType::NuccChunkMorphModel
        } else {
            NuccChunkType::NuccChunkUnknown
        }
    }
}

/// The lengths of the tags, and the bytes by which tags of one length differ.
#[verifier::rlimit(50)]
pub proof fn lemma_tag_lengths()
    ensures
        NuccChunkType::NuccChunkNull.tag().len() == 13,
        NuccChunkType::NuccChunkPage.tag().len() == 13,
        NuccChunkType::NuccChunkIndex.tag().len() == 14,
        NuccChunkType::NuccChunkBinary.tag().len() == 15,
        NuccChunkType::NuccChunkAnm.tag().len() == 12,
        NuccChunkType::NuccChunkAnmStrm.tag().len() == 16,
        NuccChunkType::NuccChunkAnmStrmFrame.tag().len() == 21,
        NuccChunkType::NuccChunkCamera.tag().len() == 15,
        NuccChunkType::NuccChunkLightDirc.tag().len() == 18,
        NuccChunkType::NuccChunkLightPoint.tag().len() == 19,
        NuccChunkType::NuccChunkLayerSet.tag().len() == 17,
        NuccChunkType::NuccChunkAmbient.tag().len() == 16,
        NuccChunkType::NuccChunkMorphModel.tag().len() == 19,
        NuccChunkType::NuccChunkUnknown.tag().len() == 16,
        NuccChunkType::NuccChunkNull.tag()[9] != NuccChunkType::NuccChunkPage.tag()[9],
        NuccChunkType::NuccChunkBinary.tag()[9] != NuccChunkType::NuccChunkCamera.tag()[9],
        NuccChunkType::NuccChunkAnmStrm.tag()[10] != NuccChunkType::NuccChunkAmbient.tag()[10],
        NuccChunkType::NuccChunkAnmStrm.tag()[9] != NuccChunkType::NuccChunkUnknown.tag()[9],
        NuccChunkType::NuccChunkAmbient.tag()[9] != NuccChunkType::NuccChunkUnknown.tag()[9],
        NuccChunkType::NuccChunkLightPoint.tag()[9] != NuccChunkType::NuccChunkMorphModel.tag()[9],
{
    reveal_strlit("nuccChunkNull");
    reveal_strlit("nuccChunkPage");
    reveal_strlit("nuccChunkIndex");
    reveal_strlit("nuccChunkBinary");
    reveal_strlit("nuccChunkAnm");
    reveal_strlit("nuccChunkAnmStrm");
    reveal_strlit("nuccChunkAnmStrmFrame");
    reveal_strlit("nuccChunkCamera");
    reveal_strlit("nuccChunkLightDirc");
    reveal_strlit("nuccChunkLightPoint");
    reveal_strlit("nuccChunkLayerSet");
    reveal_strlit("nuccChunkAmbient");
    reveal_strlit("nuccChunkMorphModel");
    reveal_strlit("nuccChunkUnknown");
    broadcast use vstd::string::is_ascii_spec_bytes;
    assert(vstd::string::is_ascii("nuccChunkNull"));
    assert(vstd::string::is_ascii("nuccChunkPage"));
    assert(vstd::string::is_ascii("nuccChunkIndex"));
    assert(vstd::string::is_ascii("nuccChunkBinary"));
    assert(vstd::string::is_ascii("nuccChunkAnm"));
    assert(vstd::string::is_ascii("nuccChunkAnmStrm"));
    assert(vstd::string::is_ascii("nuccChunkAnmStrmFrame"));
    assert(vstd::string::is_ascii("nuccChunkCamera"));
    assert(vstd::string::is_ascii("nuccChunkLightDirc"));
    assert(vstd::string::is_ascii("nuccChunkLightPoint"));
    assert(vstd::string::is_ascii("nuccChunkLayerSet"));
    assert(vstd::string::is_ascii("nuccChunkAmbient"));
    assert(vstd::string::is_ascii("nuccChunkMorphModel"));
    assert(vstd::string::is_ascii("nuccChunkUnknown"));
}


/// Every kind is the one its tag names: no two kinds share a tag.
pub proof fn lemma_tag_names_kind(kind: NuccChunkType)
    ensures
        NuccChunkType::of_tag(kind.tag()) == kind,
{
    lemma_tag_lengths();
}

/// A chunk of any kind.
#[derive(Clone, Debug, PartialEq, Eq)]
pub enum NuccChunk {
    Null(NuccChunkNull),
    Page(NuccChunkPage),
    Index(NuccChunkIndex),
    Binary(NuccChunkBinary),
    Anm(NuccChunkAnm),
    AnmStrm(NuccChunkAnmStrm),
    AnmStrmFrame(NuccChunkAnmStrmFrame),
    Camera(NuccChunkCamera),
    LightDirc(NuccChunkLightDirc),
    LightPoint(NuccChunkLightPoint),
    LayerSet(NuccChunkLayerSet),
    Ambient(NuccChunkAmbient),
    MorphModel(NuccChunkMorphModel),
    Unknown(NuccChunkUnknown),
}

/// What a `NuccChunk` holds.
pub enum NuccChunkView {
    Null(NuccChunkNull),
    Page(NuccChunkPage),
    Index,
    Binary(BlobView),
    Anm(NuccChunkAnmView),
    AnmStrm(NuccChunkAnmStrmView),
    AnmStrmFrame(NuccChunkAnmStrmFrameView),
    Camera(NuccChunkCamera),
    LightDirc(BlobView),
    LightPoint(BlobView),
    LayerSet(BlobView),
    Ambient(BlobView),
    MorphModel(BlobView),
    Unknown(UnknownView),
}

impl View for NuccChunk {
    type V = NuccChunkView;

    open spec fn view(&self) -> NuccChunkView {
        match self {
            NuccChunk::Null(c) => NuccChunkView::Null(*c),
            NuccChunk::Page(c) => NuccChunkView::Page(*c),
            NuccChunk::Index(_) => NuccChunkView::Index,
            NuccChunk::Binary(c) => NuccChunkView::Binary(c@),
            NuccChunk::Anm(c) => NuccChunkView::Anm(c@),
            NuccChunk::AnmStrm(c) => NuccChunkView::AnmStrm(c@),
            NuccChunk::AnmStrmFrame(c) => NuccChunkView::AnmStrmFrame(c@),
            NuccChunk::Camera(c) => NuccChunkView::Camera(*c),
            NuccChunk::LightDirc(c) => NuccChunkView::LightDirc(c@),
            NuccChunk::LightPoint(c) => NuccChunkView::LightPoint(c@),
            NuccChunk::LayerSet(c) => NuccChunkView::LayerSet(c@),
            NuccChunk::Ambient(c) => NuccChunkView::Ambient(c@),
            NuccChunk::MorphModel(c) => NuccChunkView::MorphModel(c@),
            NuccChunk::Unknown(c) => NuccChunkView::Unknown(c@),
        }
    }
}

impl NuccChunkView {
    /// The kind of the chunk.
    pub open spec fn kind(self) -> NuccChunkType {
        match self {
            NuccChunkView::Null(_) => NuccChunkType::NuccChunkNull,
            NuccChunkView::Page(_) => NuccChunkType::NuccChunkPage,
            NuccChunkView::Index => NuccChunkType::NuccChunkIndex,
            NuccChunkView::Binary(_) => NuccChunkType::NuccChunkBinary,
            NuccChunkView::Anm(_) => NuccChunkType::NuccChunkAnm,
            NuccChunkView::AnmStrm(_) => NuccChunkType::NuccChunkAnmStrm,
            NuccChunkView::AnmStrmFrame(_) => NuccChunkType::NuccChunkAnmStrmFrame,
            NuccChunkView::Camera(_) => NuccChunkType::NuccChunkCamera,
            NuccChunkView::LightDirc(_) => NuccChunkType::NuccChunkLightDirc,
            NuccChunkView::LightPoint(_) => NuccChunkType::NuccChunkLightPoint,
            NuccChunkView::LayerSet(_) => NuccChunkType::NuccChunkLayerSet,
            NuccChunkView::Ambient(_) => NuccChunkType::NuccChunkAmbient,
            NuccChunkView::MorphModel(_) => NuccChunkType::NuccChunkMorphModel,
            NuccChunkView::Unknown(_) => NuccChunkType::NuccChunkUnknown,
        }
    }

    /// The version that the chunk carries. An index chunk has none and says 0.
    pub open spec fn version(self) -> u16 {
        match self {
            NuccChunkView::Null(c) => c.0,
            NuccChunkView::Page(c) => c.version,
            NuccChunkView::Index => 0,
            NuccChunkView::Binary(c) => c.version,
            NuccChunkView::Anm(c) => c.version,
            NuccChunkView::AnmStrm(c) => c.version,
            NuccChunkView::AnmStrmFrame(c) => c.version,
            NuccChunkView::Camera(c) => c.version,
            NuccChunkView::LightDirc(c) => c.version,
            NuccChunkView::LightPoint(c) => c.version,
            NuccChunkView::LayerSet(c) => c.version,
            NuccChunkView::Ambient(c) => c.version,
            NuccChunkView::MorphModel(c) => c.version,
            NuccChunkView::Unknown(c) => c.version,
        }
    }

    /// The tag the chunk is found under: the tag of its kind, and for a pass-through chunk
    /// the tag it was read under.
    pub open spec fn tag(self) -> Seq<u8> {
        match self {
            NuccChunkView::Unknown(c) => c.chunk_type,
            _ => self.kind().tag(),
        }
    }
}

/// What decoding a payload found under the tag `chunk_type` gives: the chunk that the
/// codec of the kind the tag names makes of it, and a pass-through chunk, which never
/// fails, where the tag names no kind.
pub open spec fn chunk_parse(s: Seq<u8>, chunk_type: Seq<u8>, version: u16) -> Result<
    NuccChunkView,
    DecodeError,
> {
    chunk_parse_as(NuccChunkType::of_tag(chunk_type), s, chunk_type, version)
}

/// What the codec of the kind `kind` makes of a payload found under the tag `chunk_type`.
pub open spec fn chunk_parse_as(
    kind: NuccChunkType,
    s: Seq<u8>,
    chunk_type: Seq<u8>,
    version: u16,
) -> Result<NuccChunkView, DecodeError> {
    match kind {
        NuccChunkType::NuccChunkNull => Ok(NuccChunkView::Null(null_parse(s, version))),
        NuccChunkType::NuccChunkPage => match page_parse(s, version) {
            Ok(c) => Ok(NuccChunkView::Page(c)),
            Err(e) => Err(e),
        },
        NuccChunkType::NuccChunkIndex => Ok(NuccChunkView::Index),
        NuccChunkType::NuccChunkBinary => match binary_parse(s, version) {
            Ok(c) => Ok(NuccChunkView::Binary(c)),
            Err(e) => Err(e),
        },
        NuccChunkType::NuccChunkAnm => match anm_parse(s, version) {
            Ok(c) => Ok(NuccChunkView::Anm(c)),
            Err(e) => Err(e),
        },
        NuccChunkType::NuccChunkAnmStrm => match anmstrm_parse(s, version) {
            Ok(c) => Ok(NuccChunkView::AnmStrm(c)),
            Err(e) => Err(e),
        },
        NuccChunkType::NuccChunkAnmStrmFrame => match anmstrmframe_parse(s, version) {
            Ok(c) => Ok(NuccChunkView::AnmStrmFrame(c)),
            Err(e) => Err(e),
        },
        NuccChunkType::NuccChunkCamera => match camera_parse(s, version) {
            Ok(c) => Ok(NuccChunkView::Camera(c)),
            Err(e) => Err(e),
        },
        NuccChunkType::NuccChunkLightDirc => match lightdirc_parse(s, version) {
            Ok(c) => Ok(NuccChunkView::LightDirc(c)),
            Err(e) => Err(e),
        },
        NuccChunkType::NuccChunkLightPoint => match lightpoint_parse(s, version) {
            Ok(c) => Ok(NuccChunkView::LightPoint(c)),
            Err(e) => Err(e),
        },
        NuccChunkType::NuccChunkLayerSet => match layerset_parse(s, version) {
            Ok(c) => Ok(NuccChunkView::LayerSet(c)),
            Err(e) => Err(e),
        },
        NuccChunkType::NuccChunkAmbient => match ambient_parse(s, version) {
            Ok(c) => Ok(NuccChunkView::Ambient(c)),
            Err(e) => Err(e),
        },
        NuccChunkType::NuccChunkMorphModel => match morphmodel_parse(s, version) {
            Ok(c) => Ok(NuccChunkView::MorphModel(c)),
            Err(e) => Err(e),
        },
        NuccChunkType::NuccChunkUnknown => Ok(
            NuccChunkView::Unknown(unknown_parse(s, chunk_type, version)),
        ),
    }
}

/// The bytes a chunk's payload is written as. An index chunk has no payload.
pub open spec fn chunk_wire(c: NuccChunkView) -> Seq<u8> {
    match c {
        NuccChunkView::Null(c) => null_wire(c),
        NuccChunkView::Page(c) => page_wire(c),
        NuccChunkView::Index => Seq::empty(),
        NuccChunkView::Binary(c) => binary_wire(c),
        NuccChunkView::Anm(c) => anm_wire(c),
        NuccChunkView::AnmStrm(c) => anmstrm_wire(c),
        NuccChunkView::AnmStrmFrame(c) => anmstrmframe_wire(c),
        NuccChunkView::Camera(c) => camera_wire(c),
        NuccChunkView::LightDirc(c) => lightdirc_wire(c),
        NuccChunkView::LightPoint(c) => lightpoint_wire(c),
        NuccChunkView::LayerSet(c) => layerset_wire(c),
        NuccChunkView::Ambient(c) => ambient_wire(c),
        NuccChunkView::MorphModel(c) => morphmodel_wire(c),
        NuccChunkView::Unknown(c) => unknown_wire(c),
    }
}

/// Why a chunk cannot be written, if it cannot.
pub open spec fn chunk_check(c: NuccChunkView) -> Option<EncodeError> {
    match c {
        NuccChunkView::Binary(c) => binary_check(c),
        NuccChunkView::Anm(c) => anm_check(c),
        NuccChunkView::AnmStrm(c) => anmstrm_check(c),
        NuccChunkView::AnmStrmFrame(c) => anmstrmframe_check(c),
        NuccChunkView::MorphModel(c) => morphmodel_check(c),
        _ => None,
    }
}

/// The chunks that decoding gives back after encoding: chunks of every kind but the four
/// that are blocks of a fixed size, where what is written is whatever block the chunk
/// holds. A pass-through chunk's tag must name no kind.
pub open spec fn chunk_reads_back(c: NuccChunkView) -> bool {
    match c {
        NuccChunkView::LightDirc(_)
        | NuccChunkView::LightPoint(_)
        | NuccChunkView::LayerSet(_)
        | NuccChunkView::Ambient(_) => false,
        NuccChunkView::Unknown(u) => NuccChunkType::of_tag(u.chunk_type)
            == NuccChunkType::NuccChunkUnknown,
        _ => true,
    }
}

impl NuccChunk {
    /// The kind of the chunk.
    pub fn chunk_type(&self) -> (r: NuccChunkType)
        ensures
            r == self@.kind(),
    {
        match self {
            NuccChunk::Null(_) => NuccChunkType::NuccChunkNull,
            NuccChunk::Page(_) => NuccChunkType::NuccChunkPage,
            NuccChunk::Index(_) => NuccChunkType::NuccChunkIndex,
            NuccChunk::Binary(_) => NuccChunkType::NuccChunkBinary,
            NuccChunk::Anm(_) => NuccChunkType::NuccChunkAnm,
            NuccChunk::AnmStrm(_) => NuccChunkType::NuccChunkAnmStrm,
            NuccChunk::AnmStrmFrame(_) => NuccChunkType::NuccChunkAnmStrmFrame,
            NuccChunk::Camera(_) => NuccChunkType::NuccChunkCamera,
            NuccChunk::LightDirc(_) => NuccChunkType::NuccChunkLightDirc,
            NuccChunk::LightPoint(_) => NuccChunkType::NuccChunkLightPoint,
            NuccChunk::LayerSet(_) => NuccChunkType::NuccChunkLayerSet,
            NuccChunk::Ambient(_) => NuccChunkType::NuccChunkAmbient,
            NuccChunk::MorphModel(_) => NuccChunkType::NuccChunkMorphModel,
            NuccChunk::Unknown(_) => NuccChunkType::NuccChunkUnknown,
        }
    }

    /// The version that the chunk carries. An index chunk has none and says 0.
    pub fn version(&self) -> (r: u16)
        ensures
            r == self@.version(),
    {
        match self {
            NuccChunk::Null(c) => c.0,
            NuccChunk::Page(c) => c.version,
            NuccChunk::Index(_) => 0,
            NuccChunk::Binary(c) => c.version,
            NuccChunk::Anm(c) => c.version,
            NuccChunk::AnmStrm(c) => c.version,
            NuccChunk::AnmStrmFrame(c) => c.version,
            NuccChunk::Camera(c) => c.version,
            NuccChunk::LightDirc(c) => c.version,
            NuccChunk::LightPoint(c) => c.version,
            NuccChunk::LayerSet(c) => c.version,
            NuccChunk::Ambient(c) => c.version,
            NuccChunk::MorphModel(c) => c.version,
            NuccChunk::Unknown(c) => c.version,
        }
    }

    /// The file extension that the chunk is saved under: `.binary` for a binary chunk and
    /// none for any other.
    pub fn extension(&self) -> (r: String)
        ensures
            r@ == (if self@.kind() == NuccChunkType::NuccChunkBinary {
                ".binary"@
            } else {
                Seq::empty()
            }),
    {
        match self {
            NuccChunk::Binary(c) => c.extension(),
            _ => String::new(),
        }
    }
}

impl NuccChunkType {
    /// Decodes the payload `data`, found under the tag `chunk_type` in a frame of version
    /// `version`, with the codec of the kind that the tag names. A tag that names no kind
    /// does not fail: the payload is kept as it is, under its tag.
    #[verifier::rlimit(50)]
    pub fn read_data(data: &[u8], chunk_type: &[u8], version: u16) -> (r: Result<
        NuccChunk,
        DecodeError,
    >)
        ensures
            match chunk_parse(data@, chunk_type@, version) {
                Ok(c) => r matches Ok(x) && x@ == c,
                Err(e) => r matches Err(x) && x == e,
            },
    {
        match NuccChunkType::from_tag(chunk_type) {
            NuccChunkType::NuccChunkNull => Ok(NuccChunk::Null(NuccChunkNull::read(data, version))),
            NuccChunkType::NuccChunkPage => match NuccChunkPage::read(data, version) {
                Ok(c) => Ok(NuccChunk::Page(c)),
                Err(e) => Err(e),
            },
            NuccChunkType::NuccChunkIndex => Ok(NuccChunk::Index(NuccChunkIndex)),
            NuccChunkType::NuccChunkBinary => match NuccChunkBinary::read(data, version) {
                Ok(c) => Ok(NuccChunk::Binary(c)),
                Err(e) => Err(e),
            },
            NuccChunkType::NuccChunkAnm => match NuccChunkAnm::read(data, version) {
                Ok(c) => Ok(NuccChunk::Anm(c)),
                Err(e) => Err(e),
            },
            NuccChunkType::NuccChunkAnmStrm => match NuccChunkAnmStrm::read(data, version) {
                Ok(c) => Ok(NuccChunk::AnmStrm(c)),
                Err(e) => Err(e),
            },
            NuccChunkType::NuccChunkAnmStrmFrame => match NuccChunkAnmStrmFrame::read(
                data,
                version,
            ) {
                Ok(c) => Ok(NuccChunk::AnmStrmFrame(c)),
                Err(e) => Err(e),
            },
            NuccChunkType::NuccChunkCamera => match NuccChunkCamera::read(data, version) {
                Ok(c) => Ok(NuccChunk::Camera(c)),
                Err(e) => Err(e),
            },
            NuccChunkType::NuccChunkLightDirc => match NuccChunkLightDirc::read(data, version) {
                Ok(c) => Ok(NuccChunk::LightDirc(c)),
                Err(e) => Err(e),
            },
            NuccChunkType::NuccChunkLightPoint => match NuccChunkLightPoint::read(data, version) {
                Ok(c) => Ok(NuccChunk::LightPoint(c)),
                Err(e) => Err(e),
            },
            NuccChunkType::NuccChunkLayerSet => match NuccChunkLayerSet::read(data, version) {
                Ok(c) => Ok(NuccChunk::LayerSet(c)),
                Err(e) => Err(e),
            },
            NuccChunkType::NuccChunkAmbient => match NuccChunkAmbient::read(data, version) {
                Ok(c) => Ok(NuccChunk::Ambient(c)),
                Err(e) => Err(e),
            },
            NuccChunkType::NuccChunkMorphModel => match NuccChunkMorphModel::read(data, version) {
                Ok(c) => Ok(NuccChunk::MorphModel(c)),
                Err(e) => Err(e),
            },
            NuccChunkType::NuccChunkUnknown => Ok(
                NuccChunk::Unknown(NuccChunkUnknown::read(data, chunk_type, version)),
            ),
        }
    }

    /// Encodes the payload of a chunk with the codec of its kind.
    #[verifier::rlimit(50)]
    pub fn write_data(chunk: &NuccChunk) -> (r: Result<Vec<u8>, EncodeError>)
        ensures
            match chunk_check(chunk@) {
                None => r matches Ok(v) && v@ == chunk_wire(chunk@),
                Some(e) => r matches Err(x) && x == e,
            },
    {
        match chunk {
            NuccChunk::Null(c) => Ok(c.write()),
            NuccChunk::Page(c) => Ok(c.write()),
            NuccChunk::Index(_) => Ok(Vec::new()),
            NuccChunk::Binary(c) => c.write(),
            NuccChunk::Anm(c) => c.write(),
            NuccChunk::AnmStrm(c) => c.write(),
            NuccChunk::AnmStrmFrame(c) => c.write(),
            NuccChunk::Camera(c) => Ok(c.write()),
            NuccChunk::LightDirc(c) => Ok(c.write()),
            NuccChunk::LightPoint(c) => Ok(c.write()),
            NuccChunk::LayerSet(c) => Ok(c.write()),
            NuccChunk::Ambient(c) => Ok(c.write()),
            NuccChunk::MorphModel(c) => c.write(),
            NuccChunk::Unknown(c) => Ok(c.write()),
        }
    }
}

/// Decoding inverts encoding. A chunk that can be written and is of a kind other than the
/// four fixed-size blocks is decoded, from the bytes it was written as and under its own
/// tag and version, to the chunk itself.
pub proof fn lemma_decode_inverts_encode(c: NuccChunkView)
    requires
        chunk_check(c).is_none(),
        chunk_reads_back(c),
    ensures
        chunk_parse(chunk_wire(c), c.tag(), c.version()) == Ok::<NuccChunkView, DecodeError>(c),
{
    lemma_has_at_whole(chunk_wire(c));
    lemma_decode_reads_written(chunk_wire(c), c);
}

/// A chunk that can be written and is of a kind other than the four fixed-size blocks is
/// decoded, under its own tag and version, from any payload that starts with the bytes it
/// was written as; a pass-through chunk from exactly those bytes.
#[verifier::rlimit(50)]
pub proof fn lemma_decode_reads_written(s: Seq<u8>, c: NuccChunkView)
    requires
        chunk_check(c).is_none(),
        chunk_reads_back(c),
        has_at(s, 0, chunk_wire(c)),
        c is Unknown ==> s == chunk_wire(c),
    ensures
        chunk_parse(s, c.tag(), c.version()) == Ok::<NuccChunkView, DecodeError>(c),
{
    assert(NuccChunkType::of_tag(c.tag()) == c.kind()) by {
        lemma_tag_names_kind(c.kind());
    }
    lemma_codec_reads(s, c, c.tag());
}

/// The codec of a chunk's kind reads the chunk back from the bytes it was written as.
#[verifier::rlimit(50)]
proof fn lemma_codec_reads(s: Seq<u8>, c: NuccChunkView, tag: Seq<u8>)
    requires
        chunk_check(c).is_none(),
        chunk_reads_back(c),
        has_at(s, 0, chunk_wire(c)),
        c matches NuccChunkView::Unknown(u) ==> u.chunk_type == tag && s == chunk_wire(c),
    ensures
        chunk_parse_as(c.kind(), s, tag, c.version()) == Ok::<NuccChunkView, DecodeError>(c),
{
    match c {
        NuccChunkView::Null(x) => {
            lemma_null_reads(s, x, tag);
        },
        NuccChunkView::Page(x) => {
            lemma_page_reads(s, x, tag);
        },
        NuccChunkView::Binary(x) => {
            lemma_binary_reads(s, x, tag);
        },
        NuccChunkView::Anm(x) => {
            lemma_anm_reads(s, x, tag);
        },
        NuccChunkView::AnmStrm(x) => {
            lemma_anmstrm_reads(s, x, tag);
        },
        NuccChunkView::AnmStrmFrame(x) => {
            lemma_anmstrmframe_reads(s, x, tag);
        },
        NuccChunkView::Camera(x) => {
            lemma_camera_reads(s, x, tag);
        },
        NuccChunkView::MorphModel(x) => {
            lemma_morphmodel_reads(s, x, tag);
        },
        _ => {},
    }
}

/// The null codec reads a chunk back from the bytes it was written as.
proof fn lemma_null_reads(s: Seq<u8>, x: NuccChunkNull, tag: Seq<u8>)
    requires
        has_at(s, 0, null_wire(x)),
    ensures
        chunk_parse_as(NuccChunkType::NuccChunkNull, s, tag, x.0) == Ok::<
            NuccChunkView,
            DecodeError,
        >(NuccChunkView::Null(x)),
{
    lemma_null_round_trip(s, x.0, x);
}

/// The page codec reads a chunk back from the bytes it was written as.
proof fn lemma_page_reads(s: Seq<u8>, x: NuccChunkPage, tag: Seq<u8>)
    requires
        has_at(s, 0, page_wire(x)),
    ensures
        chunk_parse_as(NuccChunkType::NuccChunkPage, s, tag, x.version) == Ok::<
            NuccChunkView,
            DecodeError,
        >(NuccChunkView::Page(x)),
{
    lemma_page_round_trip(s, x);
}

/// The binary codec reads a chunk back from the bytes it was written as.
proof fn lemma_binary_reads(s: Seq<u8>, x: BlobView, tag: Seq<u8>)
    requires
        binary_check(x).is_none(),
        has_at(s, 0, binary_wire(x)),
    ensures
        chunk_parse_as(NuccChunkType::NuccChunkBinary, s, tag, x.version) == Ok::<
            NuccChunkView,
            DecodeError,
        >(NuccChunkView::Binary(x)),
{
    lemma_binary_round_trip(s, x);
}

/// The animation codec reads a chunk back from the bytes it was written as.
#[verifier::rlimit(50)]
proof fn lemma_anm_reads(s: Seq<u8>, x: NuccChunkAnmView, tag: Seq<u8>)
    requires
        anm_check(x).is_none(),
        has_at(s, 0, anm_wire(x)),
    ensures
        chunk_parse_as(NuccChunkType::NuccChunkAnm, s, tag, x.version) == Ok::<
            NuccChunkView,
            DecodeError,
        >(NuccChunkView::Anm(x)),
{
    lemma_anm_round_trip(s, x);
}

/// The animation stream codec reads a chunk back from the bytes it was written as.
proof fn lemma_anmstrm_reads(s: Seq<u8>, x: NuccChunkAnmStrmView, tag: Seq<u8>)
    requires
        anmstrm_check(x).is_none(),
        has_at(s, 0, anmstrm_wire(x)),
    ensures
        chunk_parse_as(NuccChunkType::NuccChunkAnmStrm, s, tag, x.version) == Ok::<
            NuccChunkView,
            DecodeError,
        >(NuccChunkView::AnmStrm(x)),
{
    lemma_anmstrm_round_trip(s, x);
}

/// The animation stream frame codec reads a chunk back from the bytes it was written as.
proof fn lemma_anmstrmframe_reads(s: Seq<u8>, x: NuccChunkAnmStrmFrameView, tag: Seq<u8>)
    requires
        anmstrmframe_check(x).is_none(),
        has_at(s, 0, anmstrmframe_wire(x)),
    ensures
        chunk_parse_as(NuccChunkType::NuccChunkAnmStrmFrame, s, tag, x.version) == Ok::<
            NuccChunkView,
            DecodeError,
        >(NuccChunkView::AnmStrmFrame(x)),
{
    lemma_anmstrmframe_round_trip(s, x);
}

/// The camera codec reads a chunk back from the bytes it was written as.
proof fn lemma_camera_reads(s: Seq<u8>, x: NuccChunkCamera, tag: Seq<u8>)
    requires
        has_at(s, 0, camera_wire(x)),
    ensures
        chunk_parse_as(NuccChunkType::NuccChunkCamera, s, tag, x.version) == Ok::<
            NuccChunkView,
            DecodeError,
        >(NuccChunkView::Camera(x)),
{
    lemma_camera_round_trip(s, x);
}

/// The morph model codec reads a chunk back from the bytes it was written as.
proof fn lemma_morphmodel_reads(s: Seq<u8>, x: BlobView, tag: Seq<u8>)
    requires
        morphmodel_check(x).is_none(),
        has_at(s, 0, morphmodel_wire(x)),
    ensures
        chunk_parse_as(NuccChunkType::NuccChunkMorphModel, s, tag, x.version) == Ok::<
            NuccChunkView,
            DecodeError,
        >(NuccChunkView::MorphModel(x)),
{
    lemma_morphmodel_round_trip(s, x);
}

/// The number of bytes that a chunk of a fixed-size block kind is made of, and `None` for
/// the other kinds.
pub open spec fn block_size(kind: NuccChunkType) -> Option<int> {
    match kind {
        NuccChunkType::NuccChunkAmbient => Some(ambient_size()),
        NuccChunkType::NuccChunkLightDirc => Some(lightdirc_size()),
        NuccChunkType::NuccChunkLightPoint => Some(lightpoint_size()),
        NuccChunkType::NuccChunkLayerSet => Some(layerset_size()),
        _ => None,
    }
}

/// Encoding inverts decoding, byte for byte, for the fixed-size block kinds and for tags
/// that name no kind: a payload of the block's size, and any payload under a tag that
/// names no kind, is written back as it was read.
pub proof fn lemma_encode_inverts_decode(s: Seq<u8>, chunk_type: Seq<u8>, version: u16)
    requires
        match block_size(NuccChunkType::of_tag(chunk_type)) {
            Some(n) => s.len() == n,
            None => NuccChunkType::of_tag(chunk_type) == NuccChunkType::NuccChunkUnknown,
        },
    ensures
        chunk_parse(s, chunk_type, version).is_ok(),
        chunk_wire(chunk_parse(s, chunk_type, version).unwrap()) == s,
{
    assert(s.subrange(0, s.len() as int) =~= s);
}


/// The chunk is read back as it is from the bytes it is written as: it passes
/// `chunk_reads_back`, or it is a block of a fixed size that holds exactly that many bytes.
pub open spec fn chunk_reads_back_exactly(c: NuccChunkView) -> bool {
    match c {
        NuccChunkView::Ambient(b) => b.data.len() == ambient_size(),
        NuccChunkView::LightDirc(b) => b.data.len() == lightdirc_size(),
        NuccChunkView::LightPoint(b) => b.data.len() == lightpoint_size(),
        NuccChunkView::LayerSet(b) => b.data.len() == layerset_size(),
        _ => chunk_reads_back(c),
    }
}

/// Decoding inverts encoding for every chunk that can be written and holds what its kind
/// reads: a block of a fixed size must hold exactly that many bytes.
pub proof fn lemma_decode_inverts_encode_exactly(c: NuccChunkView)
    requires
        chunk_check(c).is_none(),
        chunk_reads_back_exactly(c),
    ensures
        chunk_parse(chunk_wire(c), c.tag(), c.version()) == Ok::<NuccChunkView, DecodeError>(c),
{
    if chunk_reads_back(c) {
        lemma_decode_inverts_encode(c);
    } else {
        assert(NuccChunkType::of_tag(c.tag()) == c.kind()) by {
            lemma_tag_names_kind(c.kind());
        }
        lemma_block_reads(c, c.tag());
    }
}

/// The codec of a fixed-size block reads the block back.
proof fn lemma_block_reads(c: NuccChunkView, tag: Seq<u8>)
    requires
        !chunk_reads_back(c),
        chunk_reads_back_exactly(c),
    ensures
        chunk_parse_as(c.kind(), chunk_wire(c), tag, c.version()) == Ok::<
            NuccChunkView,
            DecodeError,
        >(c),
{
    let s = chunk_wire(c);
    assert(s.subrange(0, s.len() as int) =~= s);
}

} // verus!
