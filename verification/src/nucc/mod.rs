//! The struct model: a decoded chunk together with the identity that the container's index
//! gives it.

use vstd::prelude::*;
use crate::bytes::{bytes_eq, copy_bytes};
use crate::error::{DecodeError, EncodeError};
use crate::nucc_chunk::nucc_chunk_anm::{check_clumps, check_entries, NuccChunkAnmView};
use crate::nucc_chunk::nucc_chunk_anmstrm::{check_strm_clumps, NuccChunkAnmStrmView};
use crate::nucc_chunk::nucc_chunk_anmstrmframe::check_frame_entries;
use crate::nucc_chunk::nucc_chunk_morphmodel::block_count;
use crate::nucc_chunk::{chunk_check, NuccChunk, NuccChunkType, NuccChunkView};
use crate::table::StructInfoTable;
use crate::xfbin_file::{strings_view, XfbinChunkMap, XfbinChunkReference};

pub mod nucc_ambient;
pub mod nucc_anm;
pub mod nucc_anmstrm;
pub mod nucc_anmstrmframe;
pub mod nucc_binary;
pub mod nucc_camera;
pub mod nucc_layerset;
pub mod nucc_lightdirc;
pub mod nucc_lightpoint;
pub mod nucc_morphmodel;
pub mod nucc_unknown;

pub use nucc_ambient::NuccAmbient;
pub use nucc_anm::NuccAnm;
pub use nucc_anmstrm::NuccAnmStrm;
pub use nucc_anmstrmframe::NuccAnmStrmFrame;
pub use nucc_binary::NuccBinary;
pub use nucc_camera::NuccCamera;
pub use nucc_layerset::NuccLayerSet;
pub use nucc_lightdirc::NuccLightDirc;
pub use nucc_lightpoint::NuccLightPoint;
pub use nucc_morphmodel::NuccMorphModel;
pub use nucc_unknown::NuccUnknown;

verus! {

/// The identity of a struct: its name, the tag of its chunk kind, and its file path. Two
/// structs are the same struct exactly if all three are the same. The three are the byte
/// strings of the container's index tables.
#[derive(Clone, Debug, PartialEq, Eq, Hash, Default)]
pub struct NuccStructInfo {
    pub chunk_name: Vec<u8>,
    pub chunk_type: Vec<u8>,
    pub filepath: Vec<u8>,
}

/// What a `NuccStructInfo` holds.
pub struct StructInfoView {
    pub chunk_name: Seq<u8>,
    pub chunk_type: Seq<u8>,
    pub filepath: Seq<u8>,
}

impl View for NuccStructInfo {
    type V = StructInfoView;

    open spec fn view(&self) -> StructInfoView {
        StructInfoView {
            chunk_name: self.chunk_name@,
            chunk_type: self.chunk_type@,
            filepath: self.filepath@,
        }
    }
}

/// A named pointer from a struct to another struct, which may stand in any page.
#[derive(Clone, Debug, PartialEq, Eq, Hash, Default)]
pub struct NuccStructReference {
    pub chunk_name: Vec<u8>,
    pub struct_info: NuccStructInfo,
}

/// What a `NuccStructReference` holds.
pub struct StructReferenceView {
    pub chunk_name: Seq<u8>,
    pub struct_info: StructInfoView,
}

impl View for NuccStructReference {
    type V = StructReferenceView;

    open spec fn view(&self) -> StructReferenceView {
        StructReferenceView { chunk_name: self.chunk_name@, struct_info: self.struct_info@ }
    }
}

/// What each identity of a list holds.
pub open spec fn infos_view(v: Seq<NuccStructInfo>) -> Seq<StructInfoView> {
    v.map_values(|i: NuccStructInfo| i@)
}

/// What each reference of a list holds.
pub open spec fn references_view(v: Seq<NuccStructReference>) -> Seq<StructReferenceView> {
    v.map_values(|r: NuccStructReference| r@)
}

impl NuccStructInfo {
    /// An identity with the given name, kind tag and path.
    pub fn new(chunk_name: &[u8], chunk_type: &[u8], filepath: &[u8]) -> (r: NuccStructInfo)
        ensures
            r@ == (StructInfoView {
                chunk_name: chunk_name@,
                chunk_type: chunk_type@,
                filepath: filepath@,
            }),
    {
        NuccStructInfo {
            chunk_name: copy_bytes(chunk_name),
            chunk_type: copy_bytes(chunk_type),
            filepath: copy_bytes(filepath),
        }
    }

    /// A copy of this identity.
    pub fn duplicate(&self) -> (r: NuccStructInfo)
        ensures
            r@ == self@,
    {
        NuccStructInfo {
            chunk_name: copy_bytes(self.chunk_name.as_slice()),
            chunk_type: copy_bytes(self.chunk_type.as_slice()),
            filepath: copy_bytes(self.filepath.as_slice()),
        }
    }

    /// Says whether two identities are the same: name, kind tag and path all agree.
    pub fn same(&self, other: &NuccStructInfo) -> (r: bool)
        ensures
            r == (self@ == other@),
    {
        bytes_eq(self.chunk_name.as_slice(), other.chunk_name.as_slice()) && bytes_eq(
            self.chunk_type.as_slice(),
            other.chunk_type.as_slice(),
        ) && bytes_eq(self.filepath.as_slice(), other.filepath.as_slice())
    }
}

impl NuccStructReference {
    /// A reference with the given name to the given struct.
    pub fn new(chunk_name: &[u8], struct_info: &NuccStructInfo) -> (r: NuccStructReference)
        ensures
            r@ == (StructReferenceView { chunk_name: chunk_name@, struct_info: struct_info@ }),
    {
        NuccStructReference {
            chunk_name: copy_bytes(chunk_name),
            struct_info: struct_info.duplicate(),
        }
    }

    /// A copy of this reference.
    pub fn duplicate(&self) -> (r: NuccStructReference)
        ensures
            r@ == self@,
    {
        NuccStructReference {
            chunk_name: copy_bytes(self.chunk_name.as_slice()),
            struct_info: self.struct_info.duplicate(),
        }
    }
}


/// What a struct holds: its identity and its chunk.
pub struct NuccStructView {
    pub struct_info: StructInfoView,
    pub chunk: NuccChunkView,
}

/// The chunk as a struct keeps it. An animation's loop flag becomes a truth value, true
/// exactly for 1, and a stream's count of unknown entries is not kept; everything else is
/// taken over as it is.
pub open spec fn struct_form(c: NuccChunkView) -> NuccChunkView {
    match c {
        NuccChunkView::Anm(a) => NuccChunkView::Anm(
            NuccChunkAnmView {
                is_looped: if a.is_looped == 1 {
                    1
                } else {
                    0
                },
                ..a
            },
        ),
        NuccChunkView::AnmStrm(a) => NuccChunkView::AnmStrm(
            NuccChunkAnmStrmView {
                is_looped: if a.is_looped == 1 {
                    1
                } else {
                    0
                },
                unk_entry_count: 0,
                ..a
            },
        ),
        _ => c,
    }
}

/// The kinds that mark the bounds of a page and are no structs.
pub open spec fn is_marker(kind: NuccChunkType) -> bool {
    kind == NuccChunkType::NuccChunkNull || kind == NuccChunkType::NuccChunkPage || kind
        == NuccChunkType::NuccChunkIndex
}

/// A struct of any kind: a chunk that is no marker, with its identity.
#[derive(Clone, Debug, PartialEq, Eq)]
pub enum NuccStruct {
    Binary(NuccBinary),
    Anm(NuccAnm),
    AnmStrm(NuccAnmStrm),
    AnmStrmFrame(NuccAnmStrmFrame),
    Camera(NuccCamera),
    LightDirc(NuccLightDirc),
    LightPoint(NuccLightPoint),
    LayerSet(NuccLayerSet),
    Ambient(NuccAmbient),
    MorphModel(NuccMorphModel),
    Unknown(NuccUnknown),
}

impl View for NuccStruct {
    type V = NuccStructView;

    open spec fn view(&self) -> NuccStructView {
        match self {
            NuccStruct::Binary(s) => s@,
            NuccStruct::Anm(s) => s@,
            NuccStruct::AnmStrm(s) => s@,
            NuccStruct::AnmStrmFrame(s) => s@,
            NuccStruct::Camera(s) => s@,
            NuccStruct::LightDirc(s) => s@,
            NuccStruct::LightPoint(s) => s@,
            NuccStruct::LayerSet(s) => s@,
            NuccStruct::Ambient(s) => s@,
            NuccStruct::MorphModel(s) => s@,
            NuccStruct::Unknown(s) => s@,
        }
    }
}

/// What each struct of a list holds.
pub open spec fn structs_view(v: Seq<NuccStruct>) -> Seq<NuccStructView> {
    v.map_values(|s: NuccStruct| s@)
}

impl NuccStruct {
    /// The struct that a chunk and an identity make. The chunk must be no marker: a marker
    /// is no struct.
    pub fn from_chunk(chunk: NuccChunk, struct_info: NuccStructInfo) -> (r: NuccStruct)
        requires
            !is_marker(chunk@.kind()),
        ensures
            r@ == (NuccStructView { struct_info: struct_info@, chunk: struct_form(chunk@) }),
    {
        match chunk {
            NuccChunk::Binary(c) => NuccStruct::Binary(NuccBinary::from_chunk(c, struct_info)),
            NuccChunk::Anm(c) => NuccStruct::Anm(NuccAnm::from_chunk(c, struct_info)),
            NuccChunk::AnmStrm(c) => NuccStruct::AnmStrm(NuccAnmStrm::from_chunk(c, struct_info)),
            NuccChunk::AnmStrmFrame(c) => NuccStruct::AnmStrmFrame(
                NuccAnmStrmFrame::from_chunk(c, struct_info),
            ),
            NuccChunk::Camera(c) => NuccStruct::Camera(NuccCamera::from_chunk(c, struct_info)),
            NuccChunk::LightDirc(c) => NuccStruct::LightDirc(
                NuccLightDirc::from_chunk(c, struct_info),
            ),
            NuccChunk::LightPoint(c) => NuccStruct::LightPoint(
                NuccLightPoint::from_chunk(c, struct_info),
            ),
            NuccChunk::LayerSet(c) => NuccStruct::LayerSet(NuccLayerSet::from_chunk(c, struct_info)),
            NuccChunk::Ambient(c) => NuccStruct::Ambient(NuccAmbient::from_chunk(c, struct_info)),
            NuccChunk::MorphModel(c) => NuccStruct::MorphModel(
                NuccMorphModel::from_chunk(c, struct_info),
            ),
            NuccChunk::Unknown(c) => NuccStruct::Unknown(NuccUnknown::from_chunk(c, struct_info)),
            _ => vstd::pervasive::unreached(),
        }
    }

    /// The chunk of the struct, without its identity.
    pub fn into_chunk(self) -> (r: NuccChunk)
        ensures
            r@ == self@.chunk,
    {
        match self {
            NuccStruct::Binary(s) => NuccChunk::Binary(s.into_chunk()),
            NuccStruct::Anm(s) => NuccChunk::Anm(s.into_chunk()),
            NuccStruct::AnmStrm(s) => NuccChunk::AnmStrm(s.into_chunk()),
            NuccStruct::AnmStrmFrame(s) => NuccChunk::AnmStrmFrame(s.into_chunk()),
            NuccStruct::Camera(s) => NuccChunk::Camera(s.into_chunk()),
            NuccStruct::LightDirc(s) => NuccChunk::LightDirc(s.into_chunk()),
            NuccStruct::LightPoint(s) => NuccChunk::LightPoint(s.into_chunk()),
            NuccStruct::LayerSet(s) => NuccChunk::LayerSet(s.into_chunk()),
            NuccStruct::Ambient(s) => NuccChunk::Ambient(s.into_chunk()),
            NuccStruct::MorphModel(s) => NuccChunk::MorphModel(s.into_chunk()),
            NuccStruct::Unknown(s) => NuccChunk::Unknown(s.into_chunk()),
        }
    }

    /// The kind of the struct's chunk.
    pub fn chunk_type(&self) -> (r: NuccChunkType)
        ensures
            r == self@.chunk.kind(),
            !is_marker(r),
    {
        match self {
            NuccStruct::Binary(_) => NuccChunkType::NuccChunkBinary,
            NuccStruct::Anm(_) => NuccChunkType::NuccChunkAnm,
            NuccStruct::AnmStrm(_) => NuccChunkType::NuccChunkAnmStrm,
            NuccStruct::AnmStrmFrame(_) => NuccChunkType::NuccChunkAnmStrmFrame,
            NuccStruct::Camera(_) => NuccChunkType::NuccChunkCamera,
            NuccStruct::LightDirc(_) => NuccChunkType::NuccChunkLightDirc,
            NuccStruct::LightPoint(_) => NuccChunkType::NuccChunkLightPoint,
            NuccStruct::LayerSet(_) => NuccChunkType::NuccChunkLayerSet,
            NuccStruct::Ambient(_) => NuccChunkType::NuccChunkAmbient,
            NuccStruct::MorphModel(_) => NuccChunkType::NuccChunkMorphModel,
            NuccStruct::Unknown(_) => NuccChunkType::NuccChunkUnknown,
        }
    }

    /// The version of the struct's chunk.
    pub fn version(&self) -> (r: u16)
        ensures
            r == self@.chunk.version(),
    {
        match self {
            NuccStruct::Binary(s) => s.version,
            NuccStruct::Anm(s) => s.version,
            NuccStruct::AnmStrm(s) => s.version,
            NuccStruct::AnmStrmFrame(s) => s.version,
            NuccStruct::Camera(s) => s.version,
            NuccStruct::LightDirc(s) => s.version,
            NuccStruct::LightPoint(s) => s.version,
            NuccStruct::LayerSet(s) => s.version,
            NuccStruct::Ambient(s) => s.version,
            NuccStruct::MorphModel(s) => s.version,
            NuccStruct::Unknown(s) => s.version,
        }
    }

    /// Says whether the struct's chunk can be written, and why not if it cannot.
    pub fn check(&self) -> (r: Result<(), EncodeError>)
        ensures
            match chunk_check(self@.chunk) {
                None => r.is_ok(),
                Some(e) => r == Err::<(), EncodeError>(e),
            },
    {
        match self {
            NuccStruct::Binary(s) => {
                if s.data.len() > 0xFFFF_FFFF {
                    Err(EncodeError::TooLarge)
                } else {
                    Ok(())
                }
            },
            NuccStruct::Anm(s) => {
                if s.entries.len() > 0xFFFF || s.clumps.len() > 0xFFFF
                    || s.other_entries_indices.len() > 0xFFFF || s.unk_entry_indices.len()
                    > 0xFFFF || s.coord_parents.len() > 0xFFFF {
                    return Err(EncodeError::TooLarge);
                }
                if !check_clumps(&s.clumps) {
                    return Err(EncodeError::TooLarge);
                }
                check_entries(&s.entries)
            },
            NuccStruct::AnmStrm(s) => {
                if s.entries.len() > 0xFFFF || s.clumps.len() > 0xFFFF
                    || s.other_entry_indices.len() > 0xFFFF || s.coord_parents.len() > 0xFFFF {
                    return Err(EncodeError::TooLarge);
                }
                if !check_strm_clumps(&s.clumps) {
                    return Err(EncodeError::TooLarge);
                }
                Ok(())
            },
            NuccStruct::AnmStrmFrame(s) => check_frame_entries(&s.entries),
            NuccStruct::MorphModel(s) => match block_count(&s.data) {
                Err(e) => Err(e),
                Ok(_) => Ok(()),
            },
            _ => Ok(()),
        }
    }
}

/// The identity that a row of the table of identities stands for, where each of its
/// indices lies in its string table.
pub open spec fn resolve_info(
    m: XfbinChunkMap,
    names: Seq<Seq<u8>>,
    types: Seq<Seq<u8>>,
    paths: Seq<Seq<u8>>,
) -> Option<StructInfoView> {
    if m.chunk_name_index < names.len() && m.chunk_type_index < types.len() && m.filepath_index
        < paths.len() {
        Some(
            StructInfoView {
                chunk_name: names[m.chunk_name_index as int],
                chunk_type: types[m.chunk_type_index as int],
                filepath: paths[m.filepath_index as int],
            },
        )
    } else {
        None
    }
}

/// The identities that the rows of the table of identities stand for, and an error where
/// an index of a row lies outside its string table.
pub open spec fn resolve_infos(
    maps: Seq<XfbinChunkMap>,
    names: Seq<Seq<u8>>,
    types: Seq<Seq<u8>>,
    paths: Seq<Seq<u8>>,
) -> Result<Seq<StructInfoView>, DecodeError> {
    if forall|i: int| 0 <= i < maps.len() ==> resolve_info(#[trigger] maps[i], names, types, paths).is_some() {
        Ok(Seq::new(maps.len(), |i: int| resolve_info(maps[i], names, types, paths).unwrap()))
    } else {
        Err(DecodeError::IndexOutOfRange)
    }
}

/// The reference that a row of the table of references stands for, where its indices lie
/// in the table of names and in the list of identities.
pub open spec fn resolve_reference(
    r: XfbinChunkReference,
    names: Seq<Seq<u8>>,
    infos: Seq<StructInfoView>,
) -> Option<StructReferenceView> {
    if r.chunk_name_index < names.len() && r.chunk_map_index < infos.len() {
        Some(
            StructReferenceView {
                chunk_name: names[r.chunk_name_index as int],
                struct_info: infos[r.chunk_map_index as int],
            },
        )
    } else {
        None
    }
}

/// The references that the rows of the table of references stand for, and an error where
/// an index of a row lies outside its table.
pub open spec fn resolve_references(
    rows: Seq<XfbinChunkReference>,
    names: Seq<Seq<u8>>,
    infos: Seq<StructInfoView>,
) -> Result<Seq<StructReferenceView>, DecodeError> {
    if forall|i: int| 0 <= i < rows.len() ==> resolve_reference(#[trigger] rows[i], names, infos).is_some() {
        Ok(Seq::new(rows.len(), |i: int| resolve_reference(rows[i], names, infos).unwrap()))
    } else {
        Err(DecodeError::IndexOutOfRange)
    }
}

/// The table of identities of a container with the string tables its rows point into.
pub struct XfbinChunkMapConverter {
    pub chunk_maps: Vec<XfbinChunkMap>,
    pub chunk_names: Vec<Vec<u8>>,
    pub chunk_types: Vec<Vec<u8>>,
    pub filepaths: Vec<Vec<u8>>,
}

/// The table of references of a container with the names and identities its rows point to.
pub struct XfbinChunkReferenceConverter {
    pub references: Vec<XfbinChunkReference>,
    pub chunk_names: Vec<Vec<u8>>,
    pub struct_infos: Vec<NuccStructInfo>,
}

/// A chunk on its way to becoming a struct, with the tables of its container.
pub struct NuccStructConverter {
    pub nucc_chunk: NuccChunk,
    pub struct_infos: Vec<NuccStructInfo>,
    pub struct_references: Vec<NuccStructReference>,
}

/// A struct on its way to becoming a chunk, with the tables of its page.
pub struct NuccChunkConverter {
    pub nucc_struct: NuccStruct,
    pub struct_info_map: StructInfoTable,
    pub struct_reference_map: Vec<NuccStructReference>,
}

impl XfbinChunkMapConverter {
    /// Resolves every row to the identity it stands for.
    pub fn convert(&self) -> (r: Result<Vec<NuccStructInfo>, DecodeError>)
        ensures
            match resolve_infos(
                self.chunk_maps@,
                strings_view(self.chunk_names@),
                strings_view(self.chunk_types@),
                strings_view(self.filepaths@),
            ) {
                Ok(v) => r matches Ok(x) && infos_view(x@) == v,
                Err(e) => r matches Err(x) && x == e,
            },
    {
        let ghost names = strings_view(self.chunk_names@);
        let ghost types = strings_view(self.chunk_types@);
        let ghost paths = strings_view(self.filepaths@);
        let mut out: Vec<NuccStructInfo> = Vec::new();
        let mut i: usize = 0;
        while i < self.chunk_maps.len()
            invariant
                i <= self.chunk_maps@.len(),
                names == strings_view(self.chunk_names@),
                types == strings_view(self.chunk_types@),
                paths == strings_view(self.filepaths@),
                out@.len() == i,
                forall|k: int|
                    0 <= k < i ==> resolve_info(
                        #[trigger] self.chunk_maps@[k],
                        names,
                        types,
                        paths,
                    ) == Some(out@[k]@),
            decreases self.chunk_maps@.len() - i,
        {
            let m = self.chunk_maps[i];
            let name_index: usize = m.chunk_name_index as usize;
            let type_index: usize = m.chunk_type_index as usize;
            let path_index: usize = m.filepath_index as usize;
            if name_index >= self.chunk_names.len() || type_index >= self.chunk_types.len()
                || path_index >= self.filepaths.len() {
                assert(resolve_info(self.chunk_maps@[i as int], names, types, paths).is_none());
                return Err(DecodeError::IndexOutOfRange);
            }
            let info = NuccStructInfo::new(
                self.chunk_names[name_index].as_slice(),
                self.chunk_types[type_index].as_slice(),
                self.filepaths[path_index].as_slice(),
            );
            out.push(info);
            i += 1;
        }
        assert(infos_view(out@) =~= Seq::new(
            self.chunk_maps@.len(),
            |k: int| resolve_info(self.chunk_maps@[k], names, types, paths).unwrap(),
        ));
        Ok(out)
    }
}

impl XfbinChunkReferenceConverter {
    /// Resolves every row to the reference it stands for.
    pub fn convert(&self) -> (r: Result<Vec<NuccStructReference>, DecodeError>)
        ensures
            match resolve_references(
                self.references@,
                strings_view(self.chunk_names@),
                infos_view(self.struct_infos@),
            ) {
                Ok(v) => r matches Ok(x) && references_view(x@) == v,
                Err(e) => r matches Err(x) && x == e,
            },
    {
        let ghost names = strings_view(self.chunk_names@);
        let ghost infos = infos_view(self.struct_infos@);
        let mut out: Vec<NuccStructReference> = Vec::new();
        let mut i: usize = 0;
        while i < self.references.len()
            invariant
                i <= self.references@.len(),
                names == strings_view(self.chunk_names@),
                infos == infos_view(self.struct_infos@),
                out@.len() == i,
                forall|k: int|
                    0 <= k < i ==> resolve_reference(#[trigger] self.references@[k], names, infos)
                        == Some(out@[k]@),
            decreases self.references@.len() - i,
        {
            let row = self.references[i];
            let name_index: usize = row.chunk_name_index as usize;
            let info_index: usize = row.chunk_map_index as usize;
            if name_index >= self.chunk_names.len() || info_index >= self.struct_infos.len() {
                assert(resolve_reference(self.references@[i as int], names, infos).is_none());
                return Err(DecodeError::IndexOutOfRange);
            }
            let reference = NuccStructReference::new(
                self.chunk_names[name_index].as_slice(),
                &self.struct_infos[info_index],
            );
            out.push(reference);
            i += 1;
        }
        assert(references_view(out@) =~= Seq::new(
            self.references@.len(),
            |k: int| resolve_reference(self.references@[k], names, infos).unwrap(),
        ));
        Ok(out)
    }
}

impl NuccStructConverter {
    /// The struct of the chunk, with an identity that is still empty. The chunk must be no
    /// marker.
    pub fn convert(self) -> (r: NuccStruct)
        requires
            !is_marker(self.nucc_chunk@.kind()),
        ensures
            r@.chunk == struct_form(self.nucc_chunk@),
            r@.struct_info == (StructInfoView {
                chunk_name: Seq::empty(),
                chunk_type: Seq::empty(),
                filepath: Seq::empty(),
            }),
    {
        let empty: Vec<u8> = Vec::new();
        let info = NuccStructInfo::new(empty.as_slice(), empty.as_slice(), empty.as_slice());
        NuccStruct::from_chunk(self.nucc_chunk, info)
    }
}

impl NuccChunkConverter {
    /// The chunk of the struct, without its identity.
    pub fn convert(self) -> (r: NuccChunk)
        ensures
            r@ == self.nucc_struct@.chunk,
    {
        self.nucc_struct.into_chunk()
    }
}


/// What carries the identity of a struct.
pub trait NuccInfo: Sized {
    /// The identity that is carried.
    spec fn info(&self) -> StructInfoView;

    /// The same value with another identity.
    spec fn with_info(&self, info: NuccStructInfo) -> Self;

    /// The identity.
    fn struct_info(&self) -> (r: &NuccStructInfo)
        ensures
            r@ == self.info(),
    ;

    /// The identity, to be changed in place: nothing else changes with it.
    fn struct_info_mut(&mut self) -> (r: &mut NuccStructInfo)
        ensures
            (*r)@ == old(self).info(),
            *final(self) == old(self).with_info(*final(r)),
    ;
}

impl NuccInfo for NuccBinary {
    open spec fn info(&self) -> StructInfoView {
        self.struct_info@
    }

    open spec fn with_info(&self, info: NuccStructInfo) -> NuccBinary {
        NuccBinary { struct_info: info, ..*self }
    }

    fn struct_info(&self) -> (r: &NuccStructInfo) {
        &self.struct_info
    }

    fn struct_info_mut(&mut self) -> (r: &mut NuccStructInfo) {
        &mut self.struct_info
    }
}


impl NuccInfo for NuccAnm {
    open spec fn info(&self) -> StructInfoView {
        self.struct_info@
    }

    open spec fn with_info(&self, info: NuccStructInfo) -> NuccAnm {
        NuccAnm { struct_info: info, ..*self }
    }

    fn struct_info(&self) -> (r: &NuccStructInfo) {
        &self.struct_info
    }

    fn struct_info_mut(&mut self) -> (r: &mut NuccStructInfo) {
        &mut self.struct_info
    }
}

impl NuccInfo for NuccAnmStrm {
    open spec fn info(&self) -> StructInfoView {
        self.struct_info@
    }

    open spec fn with_info(&self, info: NuccStructInfo) -> NuccAnmStrm {
        NuccAnmStrm { struct_info: info, ..*self }
    }

    fn struct_info(&self) -> (r: &NuccStructInfo) {
        &self.struct_info
    }

    fn struct_info_mut(&mut self) -> (r: &mut NuccStructInfo) {
        &mut self.struct_info
    }
}

impl NuccInfo for NuccAnmStrmFrame {
    open spec fn info(&self) -> StructInfoView {
        self.struct_info@
    }

    open spec fn with_info(&self, info: NuccStructInfo) -> NuccAnmStrmFrame {
        NuccAnmStrmFrame { struct_info: info, ..*self }
    }

    fn struct_info(&self) -> (r: &NuccStructInfo) {
        &self.struct_info
    }

    fn struct_info_mut(&mut self) -> (r: &mut NuccStructInfo) {
        &mut self.struct_info
    }
}

impl NuccInfo for NuccCamera {
    open spec fn info(&self) -> StructInfoView {
        self.struct_info@
    }

    open spec fn with_info(&self, info: NuccStructInfo) -> NuccCamera {
        NuccCamera { struct_info: info, ..*self }
    }

    fn struct_info(&self) -> (r: &NuccStructInfo) {
        &self.struct_info
    }

    fn struct_info_mut(&mut self) -> (r: &mut NuccStructInfo) {
        &mut self.struct_info
    }
}

impl NuccInfo for NuccLightDirc {
    open spec fn info(&self) -> StructInfoView {
        self.struct_info@
    }

    open spec fn with_info(&self, info: NuccStructInfo) -> NuccLightDirc {
        NuccLightDirc { struct_info: info, ..*self }
    }

    fn struct_info(&self) -> (r: &NuccStructInfo) {
        &self.struct_info
    }

    fn struct_info_mut(&mut self) -> (r: &mut NuccStructInfo) {
        &mut self.struct_info
    }
}

impl NuccInfo for NuccLightPoint {
    open spec fn info(&self) -> StructInfoView {
        self.struct_info@
    }

    open spec fn with_info(&self, info: NuccStructInfo) -> NuccLightPoint {
        NuccLightPoint { struct_info: info, ..*self }
    }

    fn struct_info(&self) -> (r: &NuccStructInfo) {
        &self.struct_info
    }

    fn struct_info_mut(&mut self) -> (r: &mut NuccStructInfo) {
        &mut self.struct_info
    }
}

impl NuccInfo for NuccLayerSet {
    open spec fn info(&self) -> StructInfoView {
        self.struct_info@
    }

    open spec fn with_info(&self, info: NuccStructInfo) -> NuccLayerSet {
        NuccLayerSet { struct_info: info, ..*self }
    }

    fn struct_info(&self) -> (r: &NuccStructInfo) {
        &self.struct_info
    }

    fn struct_info_mut(&mut self) -> (r: &mut NuccStructInfo) {
        &mut self.struct_info
    }
}

impl NuccInfo for NuccAmbient {
    open spec fn info(&self) -> StructInfoView {
        self.struct_info@
    }

    open spec fn with_info(&self, info: NuccStructInfo) -> NuccAmbient {
        NuccAmbient { struct_info: info, ..*self }
    }

    fn struct_info(&self) -> (r: &NuccStructInfo) {
        &self.struct_info
    }

    fn struct_info_mut(&mut self) -> (r: &mut NuccStructInfo) {
        &mut self.struct_info
    }
}

impl NuccInfo for NuccMorphModel {
    open spec fn info(&self) -> StructInfoView {
        self.struct_info@
    }

    open spec fn with_info(&self, info: NuccStructInfo) -> NuccMorphModel {
        NuccMorphModel { struct_info: info, ..*self }
    }

    fn struct_info(&self) -> (r: &NuccStructInfo) {
        &self.struct_info
    }

    fn struct_info_mut(&mut self) -> (r: &mut NuccStructInfo) {
        &mut self.struct_info
    }
}

impl NuccInfo for NuccUnknown {
    open spec fn info(&self) -> StructInfoView {
        self.struct_info@
    }

    open spec fn with_info(&self, info: NuccStructInfo) -> NuccUnknown {
        NuccUnknown { struct_info: info, ..*self }
    }

    fn struct_info(&self) -> (r: &NuccStructInfo) {
        &self.struct_info
    }

    fn struct_info_mut(&mut self) -> (r: &mut NuccStructInfo) {
        &mut self.struct_info
    }
}

impl NuccInfo for NuccStruct {
    open spec fn info(&self) -> StructInfoView {
        self@.struct_info
    }

    open spec fn with_info(&self, info: NuccStructInfo) -> NuccStruct {
        match self {
            NuccStruct::Binary(s) => NuccStruct::Binary(s.with_info(info)),
            NuccStruct::Anm(s) => NuccStruct::Anm(s.with_info(info)),
            NuccStruct::AnmStrm(s) => NuccStruct::AnmStrm(s.with_info(info)),
            NuccStruct::AnmStrmFrame(s) => NuccStruct::AnmStrmFrame(s.with_info(info)),
            NuccStruct::Camera(s) => NuccStruct::Camera(s.with_info(info)),
            NuccStruct::LightDirc(s) => NuccStruct::LightDirc(s.with_info(info)),
            NuccStruct::LightPoint(s) => NuccStruct::LightPoint(s.with_info(info)),
            NuccStruct::LayerSet(s) => NuccStruct::LayerSet(s.with_info(info)),
            NuccStruct::Ambient(s) => NuccStruct::Ambient(s.with_info(info)),
            NuccStruct::MorphModel(s) => NuccStruct::MorphModel(s.with_info(info)),
            NuccStruct::Unknown(s) => NuccStruct::Unknown(s.with_info(info)),
        }
    }

    fn struct_info(&self) -> (r: &NuccStructInfo) {
        match self {
            NuccStruct::Binary(s) => &s.struct_info,
            NuccStruct::Anm(s) => &s.struct_info,
            NuccStruct::AnmStrm(s) => &s.struct_info,
            NuccStruct::AnmStrmFrame(s) => &s.struct_info,
            NuccStruct::Camera(s) => &s.struct_info,
            NuccStruct::LightDirc(s) => &s.struct_info,
            NuccStruct::LightPoint(s) => &s.struct_info,
            NuccStruct::LayerSet(s) => &s.struct_info,
            NuccStruct::Ambient(s) => &s.struct_info,
            NuccStruct::MorphModel(s) => &s.struct_info,
            NuccStruct::Unknown(s) => &s.struct_info,
        }
    }

    fn struct_info_mut(&mut self) -> (r: &mut NuccStructInfo) {
        match self {
            NuccStruct::Binary(s) => &mut s.struct_info,
            NuccStruct::Anm(s) => &mut s.struct_info,
            NuccStruct::AnmStrm(s) => &mut s.struct_info,
            NuccStruct::AnmStrmFrame(s) => &mut s.struct_info,
            NuccStruct::Camera(s) => &mut s.struct_info,
            NuccStruct::LightDirc(s) => &mut s.struct_info,
            NuccStruct::LightPoint(s) => &mut s.struct_info,
            NuccStruct::LayerSet(s) => &mut s.struct_info,
            NuccStruct::Ambient(s) => &mut s.struct_info,
            NuccStruct::MorphModel(s) => &mut s.struct_info,
            NuccStruct::Unknown(s) => &mut s.struct_info,
        }
    }
}

} // verus!
