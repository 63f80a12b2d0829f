//! The animation stream frame chunk: the state of every animated thing in one frame of a
//! stream.
//!
//! An entry's payload is a run of 32-bit words whose number follows from the entry
//! format; a morph model's payload says its own length. Floating-point fields are carried
//! as their bit patterns.

use vstd::prelude::*;
use crate::bytes::{
    has_at, i32_bits, i32_from_bits, i32_of, i32_to_bits, in_bounds, lemma_has_at_concat,
    lemma_i32_bits, lemma_i32_of_bits, lemma_u16_round_trip, lemma_u32_round_trip,
    lemma_u32s_round_trip, push_u16, push_u32, push_u32s, read_u16, read_u32, read_u32s, u16_at,
    u16_wire, u32_at, u32_wire, u32s_at, u32s_wire,
};
use crate::error::{DecodeError, EncodeError};
use crate::nucc_chunk::nucc_chunk_anm::{
    coord_at, coord_wire, lemma_coord_round_trip, put_coord, read_coord, AnmCoord,
};
use crate::nucc_chunk::nucc_helper::{Vector3, Vector4};

verus! {

/// The kinds of entry payload that have a layout.
#[derive(Clone, Copy, Debug, PartialEq, Eq, Structural)]
pub enum EntryKind {
    Bone,
    Camera,
    Material,
    LightDirc,
    LightPoint,
    Ambient,
    MorphModel,
}

impl EntryKind {
    /// The entry format that a kind is written as.
    pub open spec fn code(self) -> u16 {
        match self {
            EntryKind::Bone => 1,
            EntryKind::Camera => 2,
            EntryKind::Material => 4,
            EntryKind::LightDirc => 5,
            EntryKind::LightPoint => 6,
            EntryKind::Ambient => 8,
            EntryKind::MorphModel => 12,
        }
    }

    /// The kind that an entry format stands for, if it stands for one.
    pub open spec fn of_code(v: u16) -> Option<EntryKind> {
        if v == 1 {
            Some(EntryKind::Bone)
        } else if v == 2 {
            Some(EntryKind::Camera)
        } else if v == 4 {
            Some(EntryKind::Material)
        } else if v == 5 {
            Some(EntryKind::LightDirc)
        } else if v == 6 {
            Some(EntryKind::LightPoint)
        } else if v == 8 {
            Some(EntryKind::Ambient)
        } else if v == 12 {
            Some(EntryKind::MorphModel)
        } else {
            None
        }
    }

    /// The number of words of a payload of this kind, where the kind fixes it. A morph
    /// model's payload says its own length.
    pub open spec fn fixed_words(self) -> Option<int> {
        match self {
            EntryKind::Bone => Some(12),
            EntryKind::Camera => Some(12),
            EntryKind::Material => Some(17),
            EntryKind::LightDirc => Some(9),
            EntryKind::LightPoint => Some(10),
            EntryKind::Ambient => Some(5),
            EntryKind::MorphModel => None,
        }
    }

    /// The entry format this kind is written as.
    pub fn to_u16(&self) -> (r: u16)
        ensures
            r == self.code(),
    {
        match self {
            EntryKind::Bone => 1,
            EntryKind::Camera => 2,
            EntryKind::Material => 4,
            EntryKind::LightDirc => 5,
            EntryKind::LightPoint => 6,
            EntryKind::Ambient => 8,
            EntryKind::MorphModel => 12,
        }
    }

    /// The kind that the entry format `v` stands for, if it stands for one.
    pub fn from_u16(v: u16) -> (r: Option<EntryKind>)
        ensures
            r == EntryKind::of_code(v),
    {
        match v {
            1 => Some(EntryKind::Bone),
            2 => Some(EntryKind::Camera),
            4 => Some(EntryKind::Material),
            5 => Some(EntryKind::LightDirc),
            6 => Some(EntryKind::LightPoint),
            8 => Some(EntryKind::Ambient),
            12 => Some(EntryKind::MorphModel),
            _ => None,
        }
    }

    /// The number of words of a payload of this kind, where the kind fixes it.
    pub fn word_count(&self) -> (r: Option<usize>)
        ensures
            match self.fixed_words() {
                Some(n) => r == Some(n as usize),
                None => r.is_none(),
            },
    {
        match self {
            EntryKind::Bone => Some(12),
            EntryKind::Camera => Some(12),
            EntryKind::Material => Some(17),
            EntryKind::LightDirc => Some(9),
            EntryKind::LightPoint => Some(10),
            EntryKind::Ambient => Some(5),
            EntryKind::MorphModel => None,
        }
    }
}

/// The state of a bone in one frame.
#[derive(Clone, Copy, Debug, PartialEq, Eq)]
pub struct AnmEntryBone {
    pub frame_count: i32,
    pub location: Vector3,
    pub rotation: Vector4,
    pub scale: Vector3,
    pub toggled: u32,
}

impl AnmEntryBone {
    /// The 12 words of the record, in wire order.
    pub open spec fn words(self) -> Seq<u32> {
        seq![
            i32_bits(self.frame_count),
            self.location.x,
            self.location.y,
            self.location.z,
            self.rotation.x,
            self.rotation.y,
            self.rotation.z,
            self.rotation.w,
            self.scale.x,
            self.scale.y,
            self.scale.z,
            self.toggled,
        ]
    }

    /// The record that 12 words stand for.
    pub(crate) fn from_words(w: &Vec<u32>) -> (r: AnmEntryBone)
        requires
            w@.len() == 12,
        ensures
            r.words() == w@,
    {
        let r = AnmEntryBone {
            frame_count: i32_from_bits(w[0]),
            location: Vector3 { x: w[1], y: w[2], z: w[3] },
            rotation: Vector4 { x: w[4], y: w[5], z: w[6], w: w[7] },
            scale: Vector3 { x: w[8], y: w[9], z: w[10] },
            toggled: w[11],
        };
        proof {
            lemma_i32_of_bits(w@[0]);
            assert(r.words() =~= w@);
        }
        r
    }

    /// The words of the record, in wire order.
    pub fn to_words(&self) -> (r: Vec<u32>)
        ensures
            r@ == self.words(),
    {
        let mut w: Vec<u32> = Vec::new();
        w.push(i32_to_bits(self.frame_count));
        w.push(self.location.x);
        w.push(self.location.y);
        w.push(self.location.z);
        w.push(self.rotation.x);
        w.push(self.rotation.y);
        w.push(self.rotation.z);
        w.push(self.rotation.w);
        w.push(self.scale.x);
        w.push(self.scale.y);
        w.push(self.scale.z);
        w.push(self.toggled);
        assert(w@ =~= self.words());
        w
    }
}

/// The state of a camera in one frame.
#[derive(Clone, Copy, Debug, PartialEq, Eq)]
pub struct AnmEntryCamera {
    pub frame_count: i32,
    pub location: Vector3,
    pub rotation: Vector4,
    pub fov: u32,
    pub scale: Vector3,
}

impl AnmEntryCamera {
    /// The 12 words of the record, in wire order.
    pub open spec fn words(self) -> Seq<u32> {
        seq![
            i32_bits(self.frame_count),
            self.location.x,
            self.location.y,
            self.location.z,
            self.rotation.x,
            self.rotation.y,
            self.rotation.z,
            self.rotation.w,
            self.fov,
            self.scale.x,
            self.scale.y,
            self.scale.z,
        ]
    }

    /// The record that 12 words stand for.
    pub(crate) fn from_words(w: &Vec<u32>) -> (r: AnmEntryCamera)
        requires
            w@.len() == 12,
        ensures
            r.words() == w@,
    {
        let r = AnmEntryCamera {
            frame_count: i32_from_bits(w[0]),
            location: Vector3 { x: w[1], y: w[2], z: w[3] },
            rotation: Vector4 { x: w[4], y: w[5], z: w[6], w: w[7] },
            fov: w[8],
            scale: Vector3 { x: w[9], y: w[10], z: w[11] },
        };
        proof {
            lemma_i32_of_bits(w@[0]);
            assert(r.words() =~= w@);
        }
        r
    }

    /// The words of the record, in wire order.
    pub fn to_words(&self) -> (r: Vec<u32>)
        ensures
            r@ == self.words(),
    {
        let mut w: Vec<u32> = Vec::new();
        w.push(i32_to_bits(self.frame_count));
        w.push(self.location.x);
        w.push(self.location.y);
        w.push(self.location.z);
        w.push(self.rotation.x);
        w.push(self.rotation.y);
        w.push(self.rotation.z);
        w.push(self.rotation.w);
        w.push(self.fov);
        w.push(self.scale.x);
        w.push(self.scale.y);
        w.push(self.scale.z);
        assert(w@ =~= self.words());
        w
    }
}

/// The state of a directional light in one frame.
#[derive(Clone, Copy, Debug, PartialEq, Eq)]
pub struct AnmEntryLightDirc {
    pub frame_count: i32,
    pub color: Vector3,
    pub intensity: u32,
    pub direction: Vector4,
}

impl AnmEntryLightDirc {
    /// The 9 words of the record, in wire order.
    pub open spec fn words(self) -> Seq<u32> {
        seq![
            i32_bits(self.frame_count),
            self.color.x,
            self.color.y,
            self.color.z,
            self.intensity,
            self.direction.x,
            self.direction.y,
            self.direction.z,
            self.direction.w,
        ]
    }

    /// The record that 9 words stand for.
    pub(crate) fn from_words(w: &Vec<u32>) -> (r: AnmEntryLightDirc)
        requires
            w@.len() == 9,
        ensures
            r.words() == w@,
    {
        let r = AnmEntryLightDirc {
            frame_count: i32_from_bits(w[0]),
            color: Vector3 { x: w[1], y: w[2], z: w[3] },
            intensity: w[4],
            direction: Vector4 { x: w[5], y: w[6], z: w[7], w: w[8] },
        };
        proof {
            lemma_i32_of_bits(w@[0]);
            assert(r.words() =~= w@);
        }
        r
    }

    /// The words of the record, in wire order.
    pub fn to_words(&self) -> (r: Vec<u32>)
        ensures
            r@ == self.words(),
    {
        let mut w: Vec<u32> = Vec::new();
        w.push(i32_to_bits(self.frame_count));
        w.push(self.color.x);
        w.push(self.color.y);
        w.push(self.color.z);
        w.push(self.intensity);
        w.push(self.direction.x);
        w.push(self.direction.y);
        w.push(self.direction.z);
        w.push(self.direction.w);
        assert(w@ =~= self.words());
        w
    }
}

/// The state of a point light in one frame.
#[derive(Clone, Copy, Debug, PartialEq, Eq)]
pub struct AnmEntryLightPoint {
    pub frame_count: i32,
    pub color: Vector3,
    pub position: Vector3,
    pub intensity: u32,
    pub radius: u32,
    pub falloff: u32,
}

impl AnmEntryLightPoint {
    /// The 10 words of the record, in wire order.
    pub open spec fn words(self) -> Seq<u32> {
        seq![
            i32_bits(self.frame_count),
            self.color.x,
            self.color.y,
            self.color.z,
            self.position.x,
            self.position.y,
            self.position.z,
            self.intensity,
            self.radius,
            self.falloff,
        ]
    }

    /// The record that 10 words stand for.
    pub(crate) fn from_words(w: &Vec<u32>) -> (r: AnmEntryLightPoint)
        requires
            w@.len() == 10,
        ensures
            r.words() == w@,
    {
        let r = AnmEntryLightPoint {
            frame_count: i32_from_bits(w[0]),
            color: Vector3 { x: w[1], y: w[2], z: w[3] },
            position: Vector3 { x: w[4], y: w[5], z: w[6] },
            intensity: w[7],
            radius: w[8],
            falloff: w[9],
        };
        proof {
            lemma_i32_of_bits(w@[0]);
            assert(r.words() =~= w@);
        }
        r
    }

    /// The words of the record, in wire order.
    pub fn to_words(&self) -> (r: Vec<u32>)
        ensures
            r@ == self.words(),
    {
        let mut w: Vec<u32> = Vec::new();
        w.push(i32_to_bits(self.frame_count));
        w.push(self.color.x);
        w.push(self.color.y);
        w.push(self.color.z);
        w.push(self.position.x);
        w.push(self.position.y);
        w.push(self.position.z);
        w.push(self.intensity);
        w.push(self.radius);
        w.push(self.falloff);
        assert(w@ =~= self.words());
        w
    }
}

/// The state of the ambient light in one frame.
#[derive(Clone, Copy, Debug, PartialEq, Eq)]
pub struct AnmEntryAmbient {
    pub frame_count: i32,
    pub color: Vector3,
    pub intensity: u32,
}

impl AnmEntryAmbient {
    /// The 5 words of the record, in wire order.
    pub open spec fn words(self) -> Seq<u32> {
        seq![
            i32_bits(self.frame_count),
            self.color.x,
            self.color.y,
            self.color.z,
            self.intensity,
        ]
    }

    /// The record that 5 words stand for.
    pub(crate) fn from_words(w: &Vec<u32>) -> (r: AnmEntryAmbient)
        requires
            w@.len() == 5,
        ensures
            r.words() == w@,
    {
        let r = AnmEntryAmbient {
            frame_count: i32_from_bits(w[0]),
            color: Vector3 { x: w[1], y: w[2], z: w[3] },
            intensity: w[4],
        };
        proof {
            lemma_i32_of_bits(w@[0]);
            assert(r.words() =~= w@);
        }
        r
    }

    /// The words of the record, in wire order.
    pub fn to_words(&self) -> (r: Vec<u32>)
        ensures
            r@ == self.words(),
    {
        let mut w: Vec<u32> = Vec::new();
        w.push(i32_to_bits(self.frame_count));
        w.push(self.color.x);
        w.push(self.color.y);
        w.push(self.color.z);
        w.push(self.intensity);
        assert(w@ =~= self.words());
        w
    }
}

/// The state of a material in one frame: sixteen floats.
#[derive(Clone, Copy, Debug, PartialEq, Eq)]
pub struct AnmEntryMaterial {
    pub frame_count: i32,
    pub ambient_color: [u32; 16],
}

impl AnmEntryMaterial {
    /// The 17 words of the record, in wire order.
    pub open spec fn words(self) -> Seq<u32> {
        seq![i32_bits(self.frame_count)] + self.ambient_color@
    }

    /// The record that 17 words stand for.
    pub(crate) fn from_words(w: &Vec<u32>) -> (r: AnmEntryMaterial)
        requires
            w@.len() == 17,
        ensures
            r.words() == w@,
    {
        let r = AnmEntryMaterial {
            frame_count: i32_from_bits(w[0]),
            ambient_color: [
                w[1],
                w[2],
                w[3],
                w[4],
                w[5],
                w[6],
                w[7],
                w[8],
                w[9],
                w[10],
                w[11],
                w[12],
                w[13],
                w[14],
                w[15],
                w[16],
            ],
        };
        proof {
            lemma_i32_of_bits(w@[0]);
            assert(r.words() =~= w@);
        }
        r
    }

    /// The words of the record, in wire order.
    pub fn to_words(&self) -> (r: Vec<u32>)
        ensures
            r@ == self.words(),
    {
        let mut w: Vec<u32> = Vec::new();
        w.push(i32_to_bits(self.frame_count));
        let mut i: usize = 0;
        while i < 16
            invariant
                i <= 16,
                w@ == seq![i32_bits(self.frame_count)] + self.ambient_color@.subrange(0, i as int),
            decreases 16 - i,
        {
            w.push(self.ambient_color[i]);
            i += 1;
            assert(w@ =~= seq![i32_bits(self.frame_count)] + self.ambient_color@.subrange(
                0,
                i as int,
            ));
        }
        assert(self.ambient_color@.subrange(0, 16) =~= self.ambient_color@);
        w
    }
}

/// The weights of a morph model in one frame. `frame_count` is the number of weights.
#[derive(Clone, Debug, PartialEq, Eq)]
pub struct AnmEntryMorphModel {
    pub frame_count: i32,
    pub morph_weight: Vec<u32>,
}

/// The payload of an entry. `Unknown` stands for no payload at all and is never read.
#[derive(Clone, Debug, PartialEq, Eq)]
pub enum Entry {
    Bone(AnmEntryBone),
    Camera(AnmEntryCamera),
    Material(AnmEntryMaterial),
    LightDirc(AnmEntryLightDirc),
    LightPoint(AnmEntryLightPoint),
    Ambient(AnmEntryAmbient),
    MorphModel(AnmEntryMorphModel),
    Unknown,
}

/// What an `Entry` holds: its kind, if it has one, and its words in wire order.
pub struct EntryView {
    pub kind: Option<EntryKind>,
    pub words: Seq<u32>,
}

impl View for Entry {
    type V = EntryView;

    open spec fn view(&self) -> EntryView {
        match self {
            Entry::Bone(x) => EntryView { kind: Some(EntryKind::Bone), words: x.words() },
            Entry::Camera(x) => EntryView { kind: Some(EntryKind::Camera), words: x.words() },
            Entry::Material(x) => EntryView { kind: Some(EntryKind::Material), words: x.words() },
            Entry::LightDirc(x) => EntryView { kind: Some(EntryKind::LightDirc), words: x.words() },
            Entry::LightPoint(x) => EntryView {
                kind: Some(EntryKind::LightPoint),
                words: x.words(),
            },
            Entry::Ambient(x) => EntryView { kind: Some(EntryKind::Ambient), words: x.words() },
            Entry::MorphModel(x) => EntryView {
                kind: Some(EntryKind::MorphModel),
                words: seq![i32_bits(x.frame_count)] + x.morph_weight@,
            },
            Entry::Unknown => EntryView { kind: None, words: Seq::empty() },
        }
    }
}

/// One entry of a frame: a coordinate, the entry format, a size field that is kept as it
/// was read, and the payload.
#[derive(Clone, Debug, PartialEq, Eq)]
pub struct AnmStrmEntry {
    pub coord: AnmCoord,
    pub entry_format: u16,
    pub entry_size: u16,
    pub entry_data: Entry,
}

/// What an `AnmStrmEntry` holds.
pub struct AnmStrmEntryView {
    pub coord: AnmCoord,
    pub entry_format: u16,
    pub entry_size: u16,
    pub entry_data: EntryView,
}

impl View for AnmStrmEntry {
    type V = AnmStrmEntryView;

    open spec fn view(&self) -> AnmStrmEntryView {
        AnmStrmEntryView {
            coord: self.coord,
            entry_format: self.entry_format,
            entry_size: self.entry_size,
            entry_data: self.entry_data@,
        }
    }
}

/// The animation stream frame chunk. `version` comes from the chunk's frame and is not
/// part of the payload.
#[derive(Clone, Debug, PartialEq, Eq)]
pub struct NuccChunkAnmStrmFrame {
    pub version: u16,
    pub frame_number: u32,
    pub unknown: u16,
    pub entries: Vec<AnmStrmEntry>,
}

/// What a `NuccChunkAnmStrmFrame` holds.
pub struct NuccChunkAnmStrmFrameView {
    pub version: u16,
    pub frame_number: u32,
    pub unknown: u16,
    pub entries: Seq<AnmStrmEntryView>,
}

/// What each entry of a list holds.
pub open spec fn frame_entries_view(v: Seq<AnmStrmEntry>) -> Seq<AnmStrmEntryView> {
    v.map_values(|e: AnmStrmEntry| e@)
}

impl View for NuccChunkAnmStrmFrame {
    type V = NuccChunkAnmStrmFrameView;

    open spec fn view(&self) -> NuccChunkAnmStrmFrameView {
        NuccChunkAnmStrmFrameView {
            version: self.version,
            frame_number: self.frame_number,
            unknown: self.unknown,
            entries: frame_entries_view(self.entries@),
        }
    }
}

/// What reading a payload of the entry format `format` at `pos` gives: the payload and the
/// position after it. A format without a layout is an error; so is a morph model that
/// says it has a negative number of weights.
pub open spec fn entry_data_parse(s: Seq<u8>, pos: int, format: u16) -> Result<
    (EntryView, int),
    DecodeError,
> {
    match EntryKind::of_code(format) {
        None => Err(DecodeError::UnsupportedEntryFormat),
        Some(kind) => match kind.fixed_words() {
            Some(n) => {
                if in_bounds(s, pos, 4 * n) {
                    Ok((EntryView { kind: Some(kind), words: u32s_at(s, pos, n) }, pos + 4 * n))
                } else {
                    Err(DecodeError::Truncated)
                }
            },
            None => {
                if !in_bounds(s, pos, 4) {
                    Err(DecodeError::Truncated)
                } else {
                    let count = i32_of(u32_at(s, pos)) as int;
                    if count < 0 {
                        Err(DecodeError::NegativeCount)
                    } else if !in_bounds(s, pos + 4, 4 * count) {
                        Err(DecodeError::Truncated)
                    } else {
                        Ok(
                            (
                                EntryView { kind: Some(kind), words: u32s_at(s, pos, 1 + count) },
                                pos + 4 + 4 * count,
                            ),
                        )
                    }
                }
            },
        },
    }
}

/// Why a payload cannot be written under the entry format `format`, if it cannot: it is
/// not a payload of the kind the format stands for, or it is a morph model whose frame
/// count is not the number of its weights.
pub open spec fn entry_data_check(format: u16, v: EntryView) -> Option<EncodeError> {
    match v.kind {
        None => Some(EncodeError::EntryFormatMismatch),
        Some(kind) => {
            if kind.code() != format {
                Some(EncodeError::EntryFormatMismatch)
            } else {
                match kind.fixed_words() {
                    Some(n) => {
                        if v.words.len() != n {
                            Some(EncodeError::EntryFormatMismatch)
                        } else {
                            None
                        }
                    },
                    None => {
                        if v.words.len() < 1 || i32_of(v.words[0]) != v.words.len() - 1 {
                            Some(EncodeError::FrameCountMismatch)
                        } else {
                            None
                        }
                    },
                }
            }
        },
    }
}

/// What reading an entry at `pos` gives.
pub open spec fn frame_entry_parse(s: Seq<u8>, pos: int) -> Result<
    (AnmStrmEntryView, int),
    DecodeError,
> {
    if !in_bounds(s, pos, 8) {
        Err(DecodeError::Truncated)
    } else {
        match entry_data_parse(s, pos + 8, u16_at(s, pos + 4)) {
            Err(e) => Err(e),
            Ok((data, next)) => Ok(
                (
                    AnmStrmEntryView {
                        coord: coord_at(s, pos),
                        entry_format: u16_at(s, pos + 4),
                        entry_size: u16_at(s, pos + 6),
                        entry_data: data,
                    },
                    next,
                ),
            ),
        }
    }
}

/// The bytes an entry is written as: coordinate, format, size field, and the payload's
/// words.
pub open spec fn frame_entry_wire(e: AnmStrmEntryView) -> Seq<u8> {
    coord_wire(e.coord) + u16_wire(e.entry_format) + u16_wire(e.entry_size) + u32s_wire(
        e.entry_data.words,
    )
}

/// What reading `n` entries one after the other gives.
pub open spec fn frame_entries_parse(s: Seq<u8>, pos: int, n: nat) -> Result<
    (Seq<AnmStrmEntryView>, int),
    DecodeError,
>
    decreases n,
{
    if n == 0 {
        Ok((Seq::empty(), pos))
    } else {
        match frame_entries_parse(s, pos, (n - 1) as nat) {
            Err(e) => Err(e),
            Ok((head, p)) => match frame_entry_parse(s, p) {
                Err(e) => Err(e),
                Ok((entry, q)) => Ok((head.push(entry), q)),
            },
        }
    }
}

/// The bytes a run of entries is written as.
pub open spec fn frame_entries_wire(v: Seq<AnmStrmEntryView>) -> Seq<u8>
    decreases v.len(),
{
    if v.len() == 0 {
        Seq::empty()
    } else {
        frame_entries_wire(v.drop_last()) + frame_entry_wire(v.last())
    }
}

/// Why the first `n` entries cannot be written, if they cannot: the reason of the first
/// entry that cannot.
pub open spec fn frame_entries_check(v: Seq<AnmStrmEntryView>, n: nat) -> Option<EncodeError>
    decreases n,
{
    if n == 0 {
        None
    } else {
        match frame_entries_check(v, (n - 1) as nat) {
            Some(e) => Some(e),
            None => entry_data_check(v[n - 1].entry_format, v[n - 1].entry_data),
        }
    }
}

/// What decoding an animation stream frame chunk's payload gives. Bytes after the last
/// entry are ignored.
pub open spec fn anmstrmframe_parse(s: Seq<u8>, version: u16) -> Result<
    NuccChunkAnmStrmFrameView,
    DecodeError,
> {
    if !in_bounds(s, 0, 8) {
        Err(DecodeError::Truncated)
    } else {
        match frame_entries_parse(s, 8, u16_at(s, 4) as nat) {
            Err(e) => Err(e),
            Ok((entries, end)) => Ok(
                NuccChunkAnmStrmFrameView {
                    version,
                    frame_number: u32_at(s, 0),
                    unknown: u16_at(s, 6),
                    entries,
                },
            ),
        }
    }
}

/// The bytes an animation stream frame chunk's payload is written as.
pub open spec fn anmstrmframe_wire(a: NuccChunkAnmStrmFrameView) -> Seq<u8> {
    u32_wire(a.frame_number) + u16_wire(a.entries.len() as u16) + u16_wire(a.unknown)
        + frame_entries_wire(a.entries)
}

/// Why an animation stream frame chunk cannot be written, if it cannot.
pub open spec fn anmstrmframe_check(a: NuccChunkAnmStrmFrameView) -> Option<EncodeError> {
    if a.entries.len() > 0xFFFF {
        Some(EncodeError::TooLarge)
    } else {
        frame_entries_check(a.entries, a.entries.len())
    }
}

/// Reads a payload of the entry format `format` at `pos`.
#[verifier::rlimit(50)]
pub fn read_entry_data(data: &[u8], pos: usize, format: u16) -> (r: Result<
    (Entry, usize),
    DecodeError,
>)
    ensures
        match entry_data_parse(data@, pos as int, format) {
            Ok((v, next)) => r matches Ok((x, n)) && x@ == v && n == next,
            Err(e) => r matches Err(x) && x == e,
        },
{
    let kind = match EntryKind::from_u16(format) {
        None => {
            return Err(DecodeError::UnsupportedEntryFormat);
        },
        Some(kind) => kind,
    };
    let len: usize = data.len();
    match kind.word_count() {
        Some(n) => {
            let w = match read_u32s(data, pos, n) {
                None => {
                    return Err(DecodeError::Truncated);
                },
                Some(w) => w,
            };
            let entry = match kind {
                EntryKind::Bone => Entry::Bone(AnmEntryBone::from_words(&w)),
                EntryKind::Camera => Entry::Camera(AnmEntryCamera::from_words(&w)),
                EntryKind::Material => Entry::Material(AnmEntryMaterial::from_words(&w)),
                EntryKind::LightDirc => Entry::LightDirc(AnmEntryLightDirc::from_words(&w)),
                EntryKind::LightPoint => Entry::LightPoint(AnmEntryLightPoint::from_words(&w)),
                _ => Entry::Ambient(AnmEntryAmbient::from_words(&w)),
            };
            Ok((entry, pos + 4 * n))
        },
        None => {
            let bits: u32 = match read_u32(data, pos) {
                None => {
                    return Err(DecodeError::Truncated);
                },
                Some(b) => b,
            };
            let frame_count: i32 = i32_from_bits(bits);
            if frame_count < 0 {
                return Err(DecodeError::NegativeCount);
            }
            let count: usize = frame_count as usize;
            let morph_weight = match read_u32s(data, pos + 4, count) {
                None => {
                    return Err(DecodeError::Truncated);
                },
                Some(w) => w,
            };
            proof {
                lemma_i32_of_bits(bits);
                assert(seq![i32_bits(frame_count)] + morph_weight@ =~= u32s_at(
                    data@,
                    pos as int,
                    1 + count,
                ));
            }
            Ok((Entry::MorphModel(AnmEntryMorphModel { frame_count, morph_weight }), pos + 4 + 4 * count))
        },
    }
}

/// Says whether a payload can be written under the entry format `format`.
pub fn check_entry_data(format: u16, entry: &Entry) -> (r: Result<(), EncodeError>)
    ensures
        match entry_data_check(format, entry@) {
            None => r.is_ok(),
            Some(err) => r == Err::<(), EncodeError>(err),
        },
{
    let kind = match entry {
        Entry::Bone(_) => EntryKind::Bone,
        Entry::Camera(_) => EntryKind::Camera,
        Entry::Material(_) => EntryKind::Material,
        Entry::LightDirc(_) => EntryKind::LightDirc,
        Entry::LightPoint(_) => EntryKind::LightPoint,
        Entry::Ambient(_) => EntryKind::Ambient,
        Entry::MorphModel(_) => EntryKind::MorphModel,
        Entry::Unknown => {
            return Err(EncodeError::EntryFormatMismatch);
        },
    };
    if kind.to_u16() != format {
        return Err(EncodeError::EntryFormatMismatch);
    }
    match entry {
        Entry::MorphModel(m) => {
            proof {
                lemma_i32_bits(m.frame_count);
            }
            if m.frame_count < 0 || m.morph_weight.len() != m.frame_count as usize {
                return Err(EncodeError::FrameCountMismatch);
            }
            Ok(())
        },
        _ => Ok(()),
    }
}

/// The words of a payload, in wire order.
pub fn entry_words(entry: &Entry) -> (r: Vec<u32>)
    ensures
        r@ == entry@.words,
{
    match entry {
        Entry::Bone(x) => x.to_words(),
        Entry::Camera(x) => x.to_words(),
        Entry::Material(x) => x.to_words(),
        Entry::LightDirc(x) => x.to_words(),
        Entry::LightPoint(x) => x.to_words(),
        Entry::Ambient(x) => x.to_words(),
        Entry::MorphModel(x) => {
            let mut w: Vec<u32> = Vec::new();
            w.push(i32_to_bits(x.frame_count));
            let mut i: usize = 0;
            while i < x.morph_weight.len()
                invariant
                    i <= x.morph_weight@.len(),
                    w@ == seq![i32_bits(x.frame_count)] + x.morph_weight@.subrange(0, i as int),
                decreases x.morph_weight@.len() - i,
            {
                w.push(x.morph_weight[i]);
                i += 1;
                assert(w@ =~= seq![i32_bits(x.frame_count)] + x.morph_weight@.subrange(
                    0,
                    i as int,
                ));
            }
            assert(x.morph_weight@.subrange(0, x.morph_weight@.len() as int) =~= x.morph_weight@);
            w
        },
        Entry::Unknown => Vec::new(),
    }
}

/// Reads the entry at `pos`.
pub fn read_frame_entry(data: &[u8], pos: usize) -> (r: Result<(AnmStrmEntry, usize), DecodeError>)
    ensures
        match frame_entry_parse(data@, pos as int) {
            Ok((e, next)) => r matches Ok((x, n)) && x@ == e && n == next,
            Err(e) => r matches Err(x) && x == e,
        },
{
    if pos > data.len() || 8 > data.len() - pos {
        return Err(DecodeError::Truncated);
    }
    let coord = read_coord(data, pos).unwrap();
    let entry_format: u16 = read_u16(data, pos + 4).unwrap();
    let entry_size: u16 = read_u16(data, pos + 6).unwrap();
    match read_entry_data(data, pos + 8, entry_format) {
        Err(e) => Err(e),
        Ok((entry_data, next)) => Ok(
            (AnmStrmEntry { coord, entry_format, entry_size, entry_data }, next),
        ),
    }
}

/// Appends an entry.
pub fn put_frame_entry(e: &AnmStrmEntry, out: &mut Vec<u8>)
    ensures
        final(out)@ == old(out)@ + frame_entry_wire(e@),
{
    put_coord(&e.coord, out);
    push_u16(out, e.entry_format);
    push_u16(out, e.entry_size);
    let w = entry_words(&e.entry_data);
    push_u32s(out, w.as_slice());
    assert(out@ =~= old(out)@ + frame_entry_wire(e@));
}

/// Once reading a run of entries has failed, reading a longer run fails in the same way.
pub proof fn lemma_frame_entries_parse_err(s: Seq<u8>, pos: int, k: nat, n: nat)
    requires
        k <= n,
        frame_entries_parse(s, pos, k).is_err(),
    ensures
        frame_entries_parse(s, pos, n) == frame_entries_parse(s, pos, k),
    decreases n,
{
    if k < n {
        lemma_frame_entries_parse_err(s, pos, k, (n - 1) as nat);
    }
}

/// Once an entry of a run cannot be written, the run cannot, for the same reason.
pub proof fn lemma_frame_entries_check_some(v: Seq<AnmStrmEntryView>, k: nat, n: nat)
    requires
        k <= n,
        frame_entries_check(v, k).is_some(),
    ensures
        frame_entries_check(v, n) == frame_entries_check(v, k),
    decreases n,
{
    if k < n {
        lemma_frame_entries_check_some(v, k, (n - 1) as nat);
    }
}

/// Says whether a list of entries can be written as the entries of a frame, and why not if
/// it cannot.
pub fn check_frame_entries(entries: &Vec<AnmStrmEntry>) -> (r: Result<(), EncodeError>)
    ensures
        match (if entries@.len() > 0xFFFF {
            Some(EncodeError::TooLarge)
        } else {
            frame_entries_check(frame_entries_view(entries@), entries@.len())
        }) {
            None => r.is_ok(),
            Some(err) => r == Err::<(), EncodeError>(err),
        },
{
    if entries.len() > 0xFFFF {
        return Err(EncodeError::TooLarge);
    }
    let ghost all = frame_entries_view(entries@);
    let n: usize = entries.len();
    let mut i: usize = 0;
    while i < n
        invariant
            i <= n,
            n <= 0xFFFF,
            n == entries@.len(),
            all == frame_entries_view(entries@),
            frame_entries_check(all, i as nat).is_none(),
        decreases n - i,
    {
        assert(all[i as int] == entries@[i as int]@);
        match check_entry_data(entries[i].entry_format, &entries[i].entry_data) {
            Err(err) => {
                proof {
                    lemma_frame_entries_check_some(all, (i + 1) as nat, n as nat);
                }
                return Err(err);
            },
            Ok(()) => {},
        }
        i += 1;
    }
    Ok(())
}

impl NuccChunkAnmStrmFrame {
    /// Decodes an animation stream frame chunk from its payload.
    #[verifier::rlimit(50)]
    pub fn read(data: &[u8], version: u16) -> (r: Result<NuccChunkAnmStrmFrame, DecodeError>)
        ensures
            match anmstrmframe_parse(data@, version) {
                Ok(a) => r matches Ok(x) && x@ == a,
                Err(e) => r matches Err(x) && x == e,
            },
    {
        if 8 > data.len() {
            return Err(DecodeError::Truncated);
        }
        let frame_number: u32 = read_u32(data, 0).unwrap();
        let n: usize = read_u16(data, 4).unwrap() as usize;
        let unknown: u16 = read_u16(data, 6).unwrap();
        let mut entries: Vec<AnmStrmEntry> = Vec::new();
        let mut p: usize = 8;
        let mut i: usize = 0;
        assert(frame_entries_view(entries@) =~= Seq::<AnmStrmEntryView>::empty());
        while i < n
            invariant
                i <= n,
                in_bounds(data@, 0, 8),
                n == u16_at(data@, 4),
                frame_entries_parse(data@, 8, i as nat) == Ok::<
                    (Seq<AnmStrmEntryView>, int),
                    DecodeError,
                >((frame_entries_view(entries@), p as int)),
            decreases n - i,
        {
            match read_frame_entry(data, p) {
                Err(e) => {
                    proof {
                        lemma_frame_entries_parse_err(data@, 8, (i + 1) as nat, n as nat);
                    }
                    return Err(e);
                },
                Ok((entry, q)) => {
                    let ghost before = entries@;
                    entries.push(entry);
                    assert(frame_entries_view(entries@) =~= frame_entries_view(before).push(
                        entry@,
                    ));
                    p = q;
                },
            }
            i += 1;
        }
        Ok(NuccChunkAnmStrmFrame { version, frame_number, unknown, entries })
    }

    /// Says whether the chunk can be written, and why not if it cannot.
    pub fn check(&self) -> (r: Result<(), EncodeError>)
        ensures
            match anmstrmframe_check(self@) {
                None => r.is_ok(),
                Some(err) => r == Err::<(), EncodeError>(err),
            },
    {
        check_frame_entries(&self.entries)
    }

    /// Encodes the chunk's payload. The entry count is computed from the list of entries.
    #[verifier::rlimit(50)]
    pub fn write(&self) -> (r: Result<Vec<u8>, EncodeError>)
        ensures
            match anmstrmframe_check(self@) {
                None => r matches Ok(v) && v@ == anmstrmframe_wire(self@),
                Some(err) => r matches Err(x) && x == err,
            },
    {
        match self.check() {
            Err(e) => {
                return Err(e);
            },
            Ok(()) => {},
        }
        let mut out: Vec<u8> = Vec::new();
        push_u32(&mut out, self.frame_number);
        push_u16(&mut out, self.entries.len() as u16);
        push_u16(&mut out, self.unknown);
        let ghost head = out@;
        let ghost all = self@.entries;
        let mut i: usize = 0;
        assert(frame_entries_wire(all.subrange(0, 0)) =~= Seq::<u8>::empty());
        while i < self.entries.len()
            invariant
                i <= self.entries@.len(),
                all == frame_entries_view(self.entries@),
                out@ == head + frame_entries_wire(all.subrange(0, i as int)),
            decreases self.entries@.len() - i,
        {
            put_frame_entry(&self.entries[i], &mut out);
            proof {
                let next = all.subrange(0, i + 1);
                assert(next.drop_last() =~= all.subrange(0, i as int));
                assert(next.last() == self.entries@[i as int]@);
                assert(out@ =~= head + frame_entries_wire(next));
            }
            i += 1;
        }
        assert(all.subrange(0, all.len() as int) =~= all);
        assert(out@ =~= anmstrmframe_wire(self@));
        Ok(out)
    }
}

/// A payload that can be written under an entry format is read back, under that format,
/// from the bytes it was written as.
pub proof fn lemma_entry_data_round_trip(s: Seq<u8>, pos: int, format: u16, v: EntryView)
    requires
        entry_data_check(format, v).is_none(),
        has_at(s, pos, u32s_wire(v.words)),
    ensures
        entry_data_parse(s, pos, format) == Ok::<(EntryView, int), DecodeError>(
            (v, pos + u32s_wire(v.words).len()),
        ),
{
    lemma_u32s_round_trip(s, pos, v.words);
    let kind = v.kind.unwrap();
    if kind.fixed_words().is_none() {
        assert(u32s_at(s, pos, v.words.len() as int)[0] == v.words[0]);
    }
}

/// An entry that can be written is read back from the bytes it was written as.
pub proof fn lemma_frame_entry_round_trip(s: Seq<u8>, pos: int, e: AnmStrmEntryView)
    requires
        entry_data_check(e.entry_format, e.entry_data).is_none(),
        has_at(s, pos, frame_entry_wire(e)),
    ensures
        frame_entry_parse(s, pos) == Ok::<(AnmStrmEntryView, int), DecodeError>(
            (e, pos + frame_entry_wire(e).len()),
        ),
{
    let c = coord_wire(e.coord);
    let f = u16_wire(e.entry_format);
    let z = u16_wire(e.entry_size);
    let w = u32s_wire(e.entry_data.words);
    lemma_has_at_concat(s, pos, c + f + z, w);
    lemma_has_at_concat(s, pos, c + f, z);
    lemma_has_at_concat(s, pos, c, f);
    lemma_coord_round_trip(s, pos, e.coord);
    lemma_u16_round_trip(s, pos + 4, e.entry_format);
    lemma_u16_round_trip(s, pos + 6, e.entry_size);
    lemma_entry_data_round_trip(s, pos + 8, e.entry_format, e.entry_data);
}

/// The first `k` entries of a run that can be written are read back from the bytes they
/// were written as.
pub proof fn lemma_frame_entries_round_trip(s: Seq<u8>, pos: int, v: Seq<AnmStrmEntryView>, k: nat)
    requires
        k <= v.len(),
        frame_entries_check(v, k).is_none(),
        has_at(s, pos, frame_entries_wire(v.subrange(0, k as int))),
    ensures
        frame_entries_parse(s, pos, k) == Ok::<(Seq<AnmStrmEntryView>, int), DecodeError>(
            (v.subrange(0, k as int), pos + frame_entries_wire(v.subrange(0, k as int)).len()),
        ),
    decreases k,
{
    let cur = v.subrange(0, k as int);
    if k == 0 {
        assert(cur =~= Seq::<AnmStrmEntryView>::empty());
    } else {
        let head = v.subrange(0, k - 1);
        assert(cur.drop_last() =~= head);
        assert(cur.last() == v[k - 1]);
        lemma_has_at_concat(s, pos, frame_entries_wire(head), frame_entry_wire(v[k - 1]));
        lemma_frame_entries_round_trip(s, pos, v, (k - 1) as nat);
        lemma_frame_entry_round_trip(s, pos + frame_entries_wire(head).len(), v[k - 1]);
        assert(head.push(v[k - 1]) =~= cur);
    }
}

/// Decoding inverts encoding: an animation stream frame chunk that can be written is
/// decoded, from any buffer that starts with the bytes it was written as, to the chunk
/// itself.
pub proof fn lemma_anmstrmframe_round_trip(s: Seq<u8>, a: NuccChunkAnmStrmFrameView)
    requires
        anmstrmframe_check(a).is_none(),
        has_at(s, 0, anmstrmframe_wire(a)),
    ensures
        anmstrmframe_parse(s, a.version) == Ok::<NuccChunkAnmStrmFrameView, DecodeError>(a),
{
    let w0 = u32_wire(a.frame_number);
    let w1 = u16_wire(a.entries.len() as u16);
    let w2 = u16_wire(a.unknown);
    let w3 = frame_entries_wire(a.entries);
    lemma_has_at_concat(s, 0, w0 + w1 + w2, w3);
    lemma_has_at_concat(s, 0, w0 + w1, w2);
    lemma_has_at_concat(s, 0, w0, w1);
    lemma_u32_round_trip(s, 0, a.frame_number);
    lemma_u16_round_trip(s, 4, a.entries.len() as u16);
    lemma_u16_round_trip(s, 6, a.unknown);
    assert(a.entries.subrange(0, a.entries.len() as int) =~= a.entries);
    lemma_frame_entries_round_trip(s, 8, a.entries, a.entries.len());
}

} // verus!
