//! The animation key codec: the key formats, the shape of one key under each of them, and
//! the reading and writing of a whole track.
//!
//! A track is `frame_count` keys of one fixed shape, one after the other with nothing in
//! between. The shape, and with it the width of a key, follows from the track header's key
//! format alone. Floating-point fields are carried as their IEEE 754 bit patterns, so that
//! what is read is written back bit for bit.

use vstd::prelude::*;
use crate::bytes::{
    has_at, i16_bits, i16_from_bits, i16_of, i16_to_bits, i32_bits, i32_from_bits, i32_of,
    i32_to_bits, in_bounds, lemma_has_at_concat, lemma_i16_bits, lemma_i32_bits,
    lemma_u16_round_trip, lemma_u32_round_trip, push_u16, push_u32, push_u8, read_u16, read_u32,
    read_u8, u16_at, u16_wire, u32_at, u32_wire,
};
use crate::error::{DecodeError, EncodeError};

verus! {

/// The tag of a track header that selects the layout of the track's keys.
#[derive(Clone, Copy, Debug, PartialEq, Eq, Structural)]
pub enum NuccAnmKeyFormat {
    Vector3Fixed,
    Vector3Linear,
    Vector3Bezier,
    EulerXYZFixed,
    EulerInterpolated,
    QuaternionLinear,
    FloatFixed,
    FloatLinear,
    Vector2Fixed,
    Vector2Linear,
    OpacityShortTable,
    ScaleShortTable,
    QuaternionShortTable,
    ColorRGBTable,
    Vector3Table,
    FloatTable,
    QuaternionTable,
    FloatTableNoInterp,
    Vector3ShortLinear,
    Vector3TableNoInterp,
    QuaternionShortTableNoInterp,
    OpacityShortTableNoInterp,
    Unknown,
}

/// The fixed shapes a key can have on the wire.
#[derive(Clone, Copy, Debug, PartialEq, Eq, Structural)]
pub enum KeyShape {
    /// Three floats.
    Vec3,
    /// A frame number and three floats.
    Vec3Linear,
    /// A frame number and four floats.
    Vec4Linear,
    /// One float.
    Float,
    /// A frame number and one float.
    FloatLinear,
    /// One signed 16-bit value.
    I16Vec,
    /// Three signed 16-bit values.
    I16Vec3,
    /// Four signed 16-bit values.
    ShortVec4,
    /// Three bytes.
    Color,
}

/// One key of a track. Fields that are floats on the wire hold the float's bit pattern.
#[allow(inconsistent_fields)]
#[derive(Clone, Copy, Debug, PartialEq, Eq)]
pub enum NuccAnmKey {
    Vec3 { values: (u32, u32, u32) },
    Vec3Linear { frame: i32, values: (u32, u32, u32) },
    Vec4Linear { frame: i32, values: (u32, u32, u32, u32) },
    Float { values: u32 },
    FloatLinear { frame: i32, values: u32 },
    I16Vec { values: i16 },
    I16Vec3 { values: (i16, i16, i16) },
    ShortVec4 { values: (i16, i16, i16, i16) },
    Color { values: (u8, u8, u8) },
    Unknown {  },
}

/// The header of one track: which curve it drives, the layout of its keys and their number.
#[derive(Clone, Copy, Debug, PartialEq, Eq)]
pub struct TrackHeader {
    pub track_index: u16,
    pub key_format: NuccAnmKeyFormat,
    pub frame_count: u16,
}

/// The keys of one track, in frame order.
#[derive(Clone, Debug, PartialEq, Eq)]
pub struct AnmTrack {
    pub keys: Vec<NuccAnmKey>,
}

impl View for AnmTrack {
    type V = Seq<NuccAnmKey>;

    open spec fn view(&self) -> Seq<NuccAnmKey> {
        self.keys@
    }
}

impl NuccAnmKeyFormat {
    /// The number a key format is written as.
    pub open spec fn code(self) -> u16 {
        match self {
            NuccAnmKeyFormat::Vector3Fixed => 0x05,
            NuccAnmKeyFormat::Vector3Linear => 0x06,
            NuccAnmKeyFormat::Vector3Bezier => 0x07,
            NuccAnmKeyFormat::EulerXYZFixed => 0x08,
            NuccAnmKeyFormat::EulerInterpolated => 0x09,
            NuccAnmKeyFormat::QuaternionLinear => 0x0A,
            NuccAnmKeyFormat::FloatFixed => 0x0B,
            NuccAnmKeyFormat::FloatLinear => 0x0C,
            NuccAnmKeyFormat::Vector2Fixed => 0x0D,
            NuccAnmKeyFormat::Vector2Linear => 0x0E,
            NuccAnmKeyFormat::OpacityShortTable => 0x0F,
            NuccAnmKeyFormat::ScaleShortTable => 0x10,
            NuccAnmKeyFormat::QuaternionShortTable => 0x11,
            NuccAnmKeyFormat::ColorRGBTable => 0x14,
            NuccAnmKeyFormat::Vector3Table => 0x15,
            NuccAnmKeyFormat::FloatTable => 0x16,
            NuccAnmKeyFormat::QuaternionTable => 0x17,
            NuccAnmKeyFormat::FloatTableNoInterp => 0x18,
            NuccAnmKeyFormat::Vector3ShortLinear => 0x19,
            NuccAnmKeyFormat::Vector3TableNoInterp => 0x1A,
            NuccAnmKeyFormat::QuaternionShortTableNoInterp => 0x1B,
            NuccAnmKeyFormat::OpacityShortTableNoInterp => 0x1D,
            NuccAnmKeyFormat::Unknown => 0x1E,
        }
    }

    /// The key format a number stands for; a number that names none stands for `Unknown`.
    pub open spec fn of_code(v: u16) -> NuccAnmKeyFormat {
        if v == 0x05 {
            NuccAnmKeyFormat::Vector3Fixed
        } else if v == 0x06 {
            NuccAnmKeyFormat::Vector3Linear
        } else if v == 0x07 {
            NuccAnmKeyFormat::Vector3Bezier
        } else if v == 0x08 {
            NuccAnmKeyFormat::EulerXYZFixed
        } else if v == 0x09 {
            NuccAnmKeyFormat::EulerInterpolated
        } else if v == 0x0A {
            NuccAnmKeyFormat::QuaternionLinear
        } else if v == 0x0B {
            NuccAnmKeyFormat::FloatFixed
        } else if v == 0x0C {
            NuccAnmKeyFormat::FloatLinear
        } else if v == 0x0D {
            NuccAnmKeyFormat::Vector2Fixed
        } else if v == 0x0E {
            NuccAnmKeyFormat::Vector2Linear
        } else if v == 0x0F {
            NuccAnmKeyFormat::OpacityShortTable
        } else if v == 0x10 {
            NuccAnmKeyFormat::ScaleShortTable
        } else if v == 0x11 {
            NuccAnmKeyFormat::QuaternionShortTable
        } else if v == 0x14 {
            NuccAnmKeyFormat::ColorRGBTable
        } else if v == 0x15 {
            NuccAnmKeyFormat::Vector3Table
        } else if v == 0x16 {
            NuccAnmKeyFormat::FloatTable
        } else if v == 0x17 {
            NuccAnmKeyFormat::QuaternionTable
        } else if v == 0x18 {
            NuccAnmKeyFormat::FloatTableNoInterp
        } else if v == 0x19 {
            NuccAnmKeyFormat::Vector3ShortLinear
        } else if v == 0x1A {
            NuccAnmKeyFormat::Vector3TableNoInterp
        } else if v == 0x1B {
            NuccAnmKeyFormat::QuaternionShortTableNoInterp
        } else if v == 0x1D {
            NuccAnmKeyFormat::OpacityShortTableNoInterp
        } else {
            NuccAnmKeyFormat::Unknown
        }
    }

    /// The shape of a key under this format, for the formats this codec supports.
    pub open spec fn shape(self) -> Option<KeyShape> {
        match self {
            NuccAnmKeyFormat::Vector3Fixed
            | NuccAnmKeyFormat::EulerXYZFixed
            | NuccAnmKeyFormat::Vector3Table
            | NuccAnmKeyFormat::Vector3TableNoInterp => Some(KeyShape::Vec3),
            NuccAnmKeyFormat::Vector3Linear => Some(KeyShape::Vec3Linear),
            NuccAnmKeyFormat::QuaternionLinear => Some(KeyShape::Vec4Linear),
            NuccAnmKeyFormat::FloatFixed
            | NuccAnmKeyFormat::FloatTable
            | NuccAnmKeyFormat::FloatTableNoInterp => Some(KeyShape::Float),
            NuccAnmKeyFormat::FloatLinear => Some(KeyShape::FloatLinear),
            NuccAnmKeyFormat::OpacityShortTable
            | NuccAnmKeyFormat::OpacityShortTableNoInterp => Some(KeyShape::I16Vec),
            NuccAnmKeyFormat::ScaleShortTable => Some(KeyShape::I16Vec3),
            NuccAnmKeyFormat::QuaternionShortTable
            | NuccAnmKeyFormat::QuaternionShortTableNoInterp => Some(KeyShape::ShortVec4),
            NuccAnmKeyFormat::ColorRGBTable => Some(KeyShape::Color),
            NuccAnmKeyFormat::Vector3Bezier
            | NuccAnmKeyFormat::EulerInterpolated
            | NuccAnmKeyFormat::Vector2Fixed
            | NuccAnmKeyFormat::Vector2Linear
            | NuccAnmKeyFormat::QuaternionTable
            | NuccAnmKeyFormat::Vector3ShortLinear
            | NuccAnmKeyFormat::Unknown => None,
        }
    }

    /// The number of bytes one key takes under this format. For a format this codec does
    /// not support it is the width the format is known to have, which no track is ever read
    /// or written with.
    pub open spec fn frame_size(self) -> int {
        match self {
            NuccAnmKeyFormat::OpacityShortTable
            | NuccAnmKeyFormat::OpacityShortTableNoInterp => 2,
            NuccAnmKeyFormat::ColorRGBTable => 3,
            NuccAnmKeyFormat::FloatFixed
            | NuccAnmKeyFormat::FloatTable
            | NuccAnmKeyFormat::FloatTableNoInterp => 4,
            NuccAnmKeyFormat::ScaleShortTable => 6,
            NuccAnmKeyFormat::FloatLinear
            | NuccAnmKeyFormat::Vector2Fixed
            | NuccAnmKeyFormat::QuaternionShortTable
            | NuccAnmKeyFormat::QuaternionShortTableNoInterp => 8,
            NuccAnmKeyFormat::Vector3Fixed
            | NuccAnmKeyFormat::EulerXYZFixed
            | NuccAnmKeyFormat::Vector2Linear
            | NuccAnmKeyFormat::Vector3Table
            | NuccAnmKeyFormat::Vector3TableNoInterp
            | NuccAnmKeyFormat::EulerInterpolated
            | NuccAnmKeyFormat::Vector3ShortLinear
            | NuccAnmKeyFormat::Unknown => 12,
            NuccAnmKeyFormat::Vector3Linear
            | NuccAnmKeyFormat::QuaternionTable
            | NuccAnmKeyFormat::Vector3Bezier => 16,
            NuccAnmKeyFormat::QuaternionLinear => 20,
        }
    }

    /// The number this format is written as.
    pub fn to_u16(&self) -> (r: u16)
        ensures
            r == self.code(),
    {
        match self {
            NuccAnmKeyFormat::Vector3Fixed => 0x05,
            NuccAnmKeyFormat::Vector3Linear => 0x06,
            NuccAnmKeyFormat::Vector3Bezier => 0x07,
            NuccAnmKeyFormat::EulerXYZFixed => 0x08,
            NuccAnmKeyFormat::EulerInterpolated => 0x09,
            NuccAnmKeyFormat::QuaternionLinear => 0x0A,
            NuccAnmKeyFormat::FloatFixed => 0x0B,
            NuccAnmKeyFormat::FloatLinear => 0x0C,
            NuccAnmKeyFormat::Vector2Fixed => 0x0D,
            NuccAnmKeyFormat::Vector2Linear => 0x0E,
            NuccAnmKeyFormat::OpacityShortTable => 0x0F,
            NuccAnmKeyFormat::ScaleShortTable => 0x10,
            NuccAnmKeyFormat::QuaternionShortTable => 0x11,
            NuccAnmKeyFormat::ColorRGBTable => 0x14,
            NuccAnmKeyFormat::Vector3Table => 0x15,
            NuccAnmKeyFormat::FloatTable => 0x16,
            NuccAnmKeyFormat::QuaternionTable => 0x17,
            NuccAnmKeyFormat::FloatTableNoInterp => 0x18,
            NuccAnmKeyFormat::Vector3ShortLinear => 0x19,
            NuccAnmKeyFormat::Vector3TableNoInterp => 0x1A,
            NuccAnmKeyFormat::QuaternionShortTableNoInterp => 0x1B,
            NuccAnmKeyFormat::OpacityShortTableNoInterp => 0x1D,
            NuccAnmKeyFormat::Unknown => 0x1E,
        }
    }

    /// The key format that `v` stands for; `Unknown` where it names none.
    pub fn from_u16(v: u16) -> (r: NuccAnmKeyFormat)
        ensures
            r == NuccAnmKeyFormat::of_code(v),
    {
        match v {
            0x05 => NuccAnmKeyFormat::Vector3Fixed,
            0x06 => NuccAnmKeyFormat::Vector3Linear,
            0x07 => NuccAnmKeyFormat::Vector3Bezier,
            0x08 => NuccAnmKeyFormat::EulerXYZFixed,
            0x09 => NuccAnmKeyFormat::EulerInterpolated,
            0x0A => NuccAnmKeyFormat::QuaternionLinear,
            0x0B => NuccAnmKeyFormat::FloatFixed,
            0x0C => NuccAnmKeyFormat::FloatLinear,
            0x0D => NuccAnmKeyFormat::Vector2Fixed,
            0x0E => NuccAnmKeyFormat::Vector2Linear,
            0x0F => NuccAnmKeyFormat::OpacityShortTable,
            0x10 => NuccAnmKeyFormat::ScaleShortTable,
            0x11 => NuccAnmKeyFormat::QuaternionShortTable,
            0x14 => NuccAnmKeyFormat::ColorRGBTable,
            0x15 => NuccAnmKeyFormat::Vector3Table,
            0x16 => NuccAnmKeyFormat::FloatTable,
            0x17 => NuccAnmKeyFormat::QuaternionTable,
            0x18 => NuccAnmKeyFormat::FloatTableNoInterp,
            0x19 => NuccAnmKeyFormat::Vector3ShortLinear,
            0x1A => NuccAnmKeyFormat::Vector3TableNoInterp,
            0x1B => NuccAnmKeyFormat::QuaternionShortTableNoInterp,
            0x1D => NuccAnmKeyFormat::OpacityShortTableNoInterp,
            _ => NuccAnmKeyFormat::Unknown,
        }
    }

    /// The shape of a key under this format, or `None` for a format this codec does not
    /// support.
    pub fn key_shape(&self) -> (r: Option<KeyShape>)
        ensures
            r == self.shape(),
    {
        match self {
            NuccAnmKeyFormat::Vector3Fixed
            | NuccAnmKeyFormat::EulerXYZFixed
            | NuccAnmKeyFormat::Vector3Table
            | NuccAnmKeyFormat::Vector3TableNoInterp => Some(KeyShape::Vec3),
            NuccAnmKeyFormat::Vector3Linear => Some(KeyShape::Vec3Linear),
            NuccAnmKeyFormat::QuaternionLinear => Some(KeyShape::Vec4Linear),
            NuccAnmKeyFormat::FloatFixed
            | NuccAnmKeyFormat::FloatTable
            | NuccAnmKeyFormat::FloatTableNoInterp => Some(KeyShape::Float),
            NuccAnmKeyFormat::FloatLinear => Some(KeyShape::FloatLinear),
            NuccAnmKeyFormat::OpacityShortTable
            | NuccAnmKeyFormat::OpacityShortTableNoInterp => Some(KeyShape::I16Vec),
            NuccAnmKeyFormat::ScaleShortTable => Some(KeyShape::I16Vec3),
            NuccAnmKeyFormat::QuaternionShortTable
            | NuccAnmKeyFormat::QuaternionShortTableNoInterp => Some(KeyShape::ShortVec4),
            NuccAnmKeyFormat::ColorRGBTable => Some(KeyShape::Color),
            _ => None,
        }
    }

    /// The number of bytes one key takes under this format.
    pub fn size_per_frame(&self) -> (r: usize)
        ensures
            r == self.frame_size(),
            self.shape() matches Some(sh) ==> r == sh.size(),
    {
        match self {
            NuccAnmKeyFormat::OpacityShortTable
            | NuccAnmKeyFormat::OpacityShortTableNoInterp => 0x02,
            NuccAnmKeyFormat::ColorRGBTable => 0x03,
            NuccAnmKeyFormat::FloatFixed
            | NuccAnmKeyFormat::FloatTable
            | NuccAnmKeyFormat::FloatTableNoInterp => 0x04,
            NuccAnmKeyFormat::ScaleShortTable => 0x06,
            NuccAnmKeyFormat::FloatLinear
            | NuccAnmKeyFormat::Vector2Fixed
            | NuccAnmKeyFormat::QuaternionShortTable
            | NuccAnmKeyFormat::QuaternionShortTableNoInterp => 0x08,
            NuccAnmKeyFormat::Vector3Fixed
            | NuccAnmKeyFormat::EulerXYZFixed
            | NuccAnmKeyFormat::Vector2Linear
            | NuccAnmKeyFormat::Vector3Table
            | NuccAnmKeyFormat::Vector3TableNoInterp => 0x0C,
            NuccAnmKeyFormat::Vector3Linear | NuccAnmKeyFormat::QuaternionTable => 0x10,
            NuccAnmKeyFormat::QuaternionLinear => 0x14,
            NuccAnmKeyFormat::Vector3Bezier => 0x10,
            NuccAnmKeyFormat::EulerInterpolated => 0x0C,
            NuccAnmKeyFormat::Vector3ShortLinear => 0x0C,
            NuccAnmKeyFormat::Unknown => 0x0C,
        }
    }
}

impl Default for NuccAnmKeyFormat {
    fn default() -> (r: NuccAnmKeyFormat)
        ensures
            r == NuccAnmKeyFormat::Unknown,
    {
        NuccAnmKeyFormat::Unknown
    }
}

impl Default for NuccAnmKey {
    fn default() -> (r: NuccAnmKey)
        ensures
            r == (NuccAnmKey::Unknown {  }),
    {
        NuccAnmKey::Unknown {  }
    }
}

impl KeyShape {
    /// The number of bytes a key of this shape takes.
    pub open spec fn size(self) -> int {
        match self {
            KeyShape::Vec3 => 12,
            KeyShape::Vec3Linear => 16,
            KeyShape::Vec4Linear => 20,
            KeyShape::Float => 4,
            KeyShape::FloatLinear => 8,
            KeyShape::I16Vec => 2,
            KeyShape::I16Vec3 => 6,
            KeyShape::ShortVec4 => 8,
            KeyShape::Color => 3,
        }
    }

    /// The number of bytes a key of this shape takes.
    pub fn byte_size(&self) -> (r: usize)
        ensures
            r == self.size(),
    {
        match self {
            KeyShape::Vec3 => 12,
            KeyShape::Vec3Linear => 16,
            KeyShape::Vec4Linear => 20,
            KeyShape::Float => 4,
            KeyShape::FloatLinear => 8,
            KeyShape::I16Vec => 2,
            KeyShape::I16Vec3 => 6,
            KeyShape::ShortVec4 => 8,
            KeyShape::Color => 3,
        }
    }
}

impl NuccAnmKey {
    /// The shape of this key; `Unknown` has none.
    pub open spec fn shape(self) -> Option<KeyShape> {
        match self {
            NuccAnmKey::Vec3 { .. } => Some(KeyShape::Vec3),
            NuccAnmKey::Vec3Linear { .. } => Some(KeyShape::Vec3Linear),
            NuccAnmKey::Vec4Linear { .. } => Some(KeyShape::Vec4Linear),
            NuccAnmKey::Float { .. } => Some(KeyShape::Float),
            NuccAnmKey::FloatLinear { .. } => Some(KeyShape::FloatLinear),
            NuccAnmKey::I16Vec { .. } => Some(KeyShape::I16Vec),
            NuccAnmKey::I16Vec3 { .. } => Some(KeyShape::I16Vec3),
            NuccAnmKey::ShortVec4 { .. } => Some(KeyShape::ShortVec4),
            NuccAnmKey::Color { .. } => Some(KeyShape::Color),
            NuccAnmKey::Unknown {  } => None,
        }
    }

    /// The shape of this key; `Unknown` has none.
    pub fn key_shape(&self) -> (r: Option<KeyShape>)
        ensures
            r == self.shape(),
    {
        match self {
            NuccAnmKey::Vec3 { .. } => Some(KeyShape::Vec3),
            NuccAnmKey::Vec3Linear { .. } => Some(KeyShape::Vec3Linear),
            NuccAnmKey::Vec4Linear { .. } => Some(KeyShape::Vec4Linear),
            NuccAnmKey::Float { .. } => Some(KeyShape::Float),
            NuccAnmKey::FloatLinear { .. } => Some(KeyShape::FloatLinear),
            NuccAnmKey::I16Vec { .. } => Some(KeyShape::I16Vec),
            NuccAnmKey::I16Vec3 { .. } => Some(KeyShape::I16Vec3),
            NuccAnmKey::ShortVec4 { .. } => Some(KeyShape::ShortVec4),
            NuccAnmKey::Color { .. } => Some(KeyShape::Color),
            NuccAnmKey::Unknown {  } => None,
        }
    }
}

/// The signed 16-bit value at `pos`.
pub open spec fn i16_at(s: Seq<u8>, pos: int) -> i16 {
    i16_of(u16_at(s, pos))
}

/// The signed 32-bit value at `pos`.
pub open spec fn i32_at(s: Seq<u8>, pos: int) -> i32 {
    i32_of(u32_at(s, pos))
}

/// The key of shape `sh` that the bytes at `pos` stand for.
pub open spec fn key_at(sh: KeyShape, s: Seq<u8>, pos: int) -> NuccAnmKey {
    match sh {
        KeyShape::Vec3 => NuccAnmKey::Vec3 {
            values: (u32_at(s, pos), u32_at(s, pos + 4), u32_at(s, pos + 8)),
        },
        KeyShape::Vec3Linear => NuccAnmKey::Vec3Linear {
            frame: i32_at(s, pos),
            values: (u32_at(s, pos + 4), u32_at(s, pos + 8), u32_at(s, pos + 12)),
        },
        KeyShape::Vec4Linear => NuccAnmKey::Vec4Linear {
            frame: i32_at(s, pos),
            values: (
                u32_at(s, pos + 4),
                u32_at(s, pos + 8),
                u32_at(s, pos + 12),
                u32_at(s, pos + 16),
            ),
        },
        KeyShape::Float => NuccAnmKey::Float { values: u32_at(s, pos) },
        KeyShape::FloatLinear => NuccAnmKey::FloatLinear {
            frame: i32_at(s, pos),
            values: u32_at(s, pos + 4),
        },
        KeyShape::I16Vec => NuccAnmKey::I16Vec { values: i16_at(s, pos) },
        KeyShape::I16Vec3 => NuccAnmKey::I16Vec3 {
            values: (i16_at(s, pos), i16_at(s, pos + 2), i16_at(s, pos + 4)),
        },
        KeyShape::ShortVec4 => NuccAnmKey::ShortVec4 {
            values: (i16_at(s, pos), i16_at(s, pos + 2), i16_at(s, pos + 4), i16_at(s, pos + 6)),
        },
        KeyShape::Color => NuccAnmKey::Color { values: (s[pos], s[pos + 1], s[pos + 2]) },
    }
}

/// The bytes a key is written as. `Unknown` has no bytes.
pub open spec fn key_wire(k: NuccAnmKey) -> Seq<u8> {
    match k {
        NuccAnmKey::Vec3 { values } => u32_wire(values.0) + u32_wire(values.1) + u32_wire(
            values.2,
        ),
        NuccAnmKey::Vec3Linear { frame, values } => u32_wire(i32_bits(frame)) + u32_wire(
            values.0,
        ) + u32_wire(values.1) + u32_wire(values.2),
        NuccAnmKey::Vec4Linear { frame, values } => u32_wire(i32_bits(frame)) + u32_wire(
            values.0,
        ) + u32_wire(values.1) + u32_wire(values.2) + u32_wire(values.3),
        NuccAnmKey::Float { values } => u32_wire(values),
        NuccAnmKey::FloatLinear { frame, values } => u32_wire(i32_bits(frame)) + u32_wire(values),
        NuccAnmKey::I16Vec { values } => u16_wire(i16_bits(values)),
        NuccAnmKey::I16Vec3 { values } => u16_wire(i16_bits(values.0)) + u16_wire(
            i16_bits(values.1),
        ) + u16_wire(i16_bits(values.2)),
        NuccAnmKey::ShortVec4 { values } => u16_wire(i16_bits(values.0)) + u16_wire(
            i16_bits(values.1),
        ) + u16_wire(i16_bits(values.2)) + u16_wire(i16_bits(values.3)),
        NuccAnmKey::Color { values } => seq![values.0, values.1, values.2],
        NuccAnmKey::Unknown {  } => Seq::empty(),
    }
}

/// The `n` keys of shape `sh` that start at `pos`.
pub open spec fn keys_at(sh: KeyShape, s: Seq<u8>, pos: int, n: int) -> Seq<NuccAnmKey> {
    Seq::new(n as nat, |i: int| key_at(sh, s, pos + i * sh.size()))
}

/// The bytes a run of keys is written as, one key after the other.
pub open spec fn keys_wire(keys: Seq<NuccAnmKey>) -> Seq<u8>
    decreases keys.len(),
{
    if keys.len() == 0 {
        Seq::empty()
    } else {
        keys_wire(keys.drop_last()) + key_wire(keys.last())
    }
}

/// What reading a track at `pos` gives: the keys and the position after them. A format
/// without a known key layout fails whatever the frame count is; otherwise the track takes
/// exactly `frame_count` keys of the format's width, and fails if the buffer ends before.
pub open spec fn track_parse(s: Seq<u8>, pos: int, header: TrackHeader) -> Result<
    (Seq<NuccAnmKey>, int),
    DecodeError,
> {
    match header.key_format.shape() {
        None => Err(DecodeError::UnsupportedKeyFormat),
        Some(sh) => {
            if in_bounds(s, pos, sh.size() * header.frame_count) {
                Ok(
                    (
                        keys_at(sh, s, pos, header.frame_count as int),
                        pos + sh.size() * header.frame_count,
                    ),
                )
            } else {
                Err(DecodeError::Truncated)
            }
        },
    }
}

/// Why one key cannot be written under a key format, if it cannot.
pub open spec fn key_check(format: NuccAnmKeyFormat, k: NuccAnmKey) -> Option<EncodeError> {
    if format.shape().is_none() {
        Some(EncodeError::UnsupportedKeyFormat)
    } else if k.shape() != format.shape() {
        Some(EncodeError::KeyShapeMismatch)
    } else {
        None
    }
}

/// Why a track cannot be written under its header, if it cannot: the format has no key
/// layout, the number of keys is not the header's frame count, or a key has another shape
/// than the format's.
pub open spec fn track_check(header: TrackHeader, keys: Seq<NuccAnmKey>) -> Option<
    EncodeError,
> {
    if header.key_format.shape().is_none() {
        Some(EncodeError::UnsupportedKeyFormat)
    } else if keys.len() != header.frame_count {
        Some(EncodeError::FrameCountMismatch)
    } else if exists|i: int| 0 <= i < keys.len() && (#[trigger] keys[i]).shape()
        != header.key_format.shape() {
        Some(EncodeError::KeyShapeMismatch)
    } else {
        None
    }
}

/// The bytes a track header is written as: index, format, frame count, and the low 16
/// bits of the track's size in bytes.
pub open spec fn track_header_wire(h: TrackHeader) -> Seq<u8> {
    u16_wire(h.track_index) + u16_wire(h.key_format.code()) + u16_wire(h.frame_count)
        + u16_wire(((h.key_format.frame_size() * h.frame_count) % 0x1_0000) as u16)
}

/// The track header that the eight bytes at `pos` stand for. The size field is not kept.
pub open spec fn track_header_at(s: Seq<u8>, pos: int) -> TrackHeader {
    TrackHeader {
        track_index: u16_at(s, pos),
        key_format: NuccAnmKeyFormat::of_code(u16_at(s, pos + 2)),
        frame_count: u16_at(s, pos + 4),
    }
}

/// Every key format is the one its number stands for.
pub proof fn lemma_key_format_code(f: NuccAnmKeyFormat)
    ensures
        NuccAnmKeyFormat::of_code(f.code()) == f,
{
}

/// A supported format's width is the size of its key shape.
pub proof fn lemma_frame_size_of_shape(f: NuccAnmKeyFormat)
    ensures
        f.shape() matches Some(sh) ==> f.frame_size() == sh.size(),
{
}

/// A key is written as many bytes as its shape takes.
pub proof fn lemma_key_wire_len(k: NuccAnmKey)
    ensures
        k.shape() matches Some(sh) ==> key_wire(k).len() == sh.size(),
{
}

/// A key is read back from the bytes it was written as.
#[verifier::rlimit(50)]
pub proof fn lemma_key_round_trip(s: Seq<u8>, pos: int, k: NuccAnmKey)
    requires
        k.shape().is_some(),
        has_at(s, pos, key_wire(k)),
    ensures
        key_at(k.shape().unwrap(), s, pos) == k,
        key_wire(k).len() == k.shape().unwrap().size(),
{
    let w = key_wire(k);
    lemma_key_wire_len(k);
    assert forall|j: int| 0 <= j < w.len() implies s[pos + j] == w[j] by {
        assert(s.subrange(pos, pos + w.len())[j] == s[pos + j]);
    }
    match k {
        NuccAnmKey::Vec3 { values } => {
            lemma_words_at(s, pos, seq![values.0, values.1, values.2]);
        },
        NuccAnmKey::Vec3Linear { frame, values } => {
            lemma_i32_bits(frame);
            lemma_words_at(s, pos, seq![i32_bits(frame), values.0, values.1, values.2]);
        },
        NuccAnmKey::Vec4Linear { frame, values } => {
            lemma_i32_bits(frame);
            lemma_words_at(
                s,
                pos,
                seq![i32_bits(frame), values.0, values.1, values.2, values.3],
            );
        },
        NuccAnmKey::Float { values } => {
            lemma_words_at(s, pos, seq![values]);
        },
        NuccAnmKey::FloatLinear { frame, values } => {
            lemma_i32_bits(frame);
            lemma_words_at(s, pos, seq![i32_bits(frame), values]);
        },
        NuccAnmKey::I16Vec { values } => {
            lemma_i16_bits(values);
            lemma_halves_at(s, pos, seq![i16_bits(values)]);
        },
        NuccAnmKey::I16Vec3 { values } => {
            lemma_i16_bits(values.0);
            lemma_i16_bits(values.1);
            lemma_i16_bits(values.2);
            lemma_halves_at(
                s,
                pos,
                seq![i16_bits(values.0), i16_bits(values.1), i16_bits(values.2)],
            );
        },
        NuccAnmKey::ShortVec4 { values } => {
            lemma_i16_bits(values.0);
            lemma_i16_bits(values.1);
            lemma_i16_bits(values.2);
            lemma_i16_bits(values.3);
            lemma_halves_at(
                s,
                pos,
                seq![
                    i16_bits(values.0),
                    i16_bits(values.1),
                    i16_bits(values.2),
                    i16_bits(values.3),
                ],
            );
        },
        NuccAnmKey::Color { values } => {
            assert(w[0] == values.0 && w[1] == values.1 && w[2] == values.2);
            assert(s[pos + 0] == w[0] && s[pos + 1] == w[1] && s[pos + 2] == w[2]);
        },
        NuccAnmKey::Unknown {  } => {},
    }
}

/// The bytes of up to five `u32` values written one after the other.
pub open spec fn words_wire(v: Seq<u32>) -> Seq<u8> {
    if v.len() == 1 {
        u32_wire(v[0])
    } else if v.len() == 2 {
        u32_wire(v[0]) + u32_wire(v[1])
    } else if v.len() == 3 {
        u32_wire(v[0]) + u32_wire(v[1]) + u32_wire(v[2])
    } else if v.len() == 4 {
        u32_wire(v[0]) + u32_wire(v[1]) + u32_wire(v[2]) + u32_wire(v[3])
    } else if v.len() == 5 {
        u32_wire(v[0]) + u32_wire(v[1]) + u32_wire(v[2]) + u32_wire(v[3]) + u32_wire(v[4])
    } else {
        Seq::empty()
    }
}

/// The bytes of up to four `u16` values written one after the other.
pub open spec fn halves_wire(v: Seq<u16>) -> Seq<u8> {
    if v.len() == 1 {
        u16_wire(v[0])
    } else if v.len() == 2 {
        u16_wire(v[0]) + u16_wire(v[1])
    } else if v.len() == 3 {
        u16_wire(v[0]) + u16_wire(v[1]) + u16_wire(v[2])
    } else if v.len() == 4 {
        u16_wire(v[0]) + u16_wire(v[1]) + u16_wire(v[2]) + u16_wire(v[3])
    } else {
        Seq::empty()
    }
}

/// Up to five `u32` values written one after the other are read back one by one.
pub proof fn lemma_words_at(s: Seq<u8>, pos: int, v: Seq<u32>)
    requires
        1 <= v.len() <= 5,
        has_at(s, pos, words_wire(v)),
    ensures
        forall|i: int| 0 <= i < v.len() ==> u32_at(s, pos + 4 * i) == #[trigger] v[i],
{
    let w = words_wire(v);
    assert(w.len() == 4 * v.len());
    assert forall|i: int| 0 <= i < v.len() implies u32_at(s, pos + 4 * i) == #[trigger] v[i] by {
        assert(s.subrange(pos, pos + w.len()).subrange(4 * i, 4 * i + 4) =~= s.subrange(
            pos + 4 * i,
            pos + 4 * i + 4,
        ));
        assert(w.subrange(4 * i, 4 * i + 4) =~= u32_wire(v[i]));
        lemma_u32_round_trip(s, pos + 4 * i, v[i]);
    }
}

/// Up to four `u16` values written one after the other are read back one by one.
pub proof fn lemma_halves_at(s: Seq<u8>, pos: int, v: Seq<u16>)
    requires
        1 <= v.len() <= 4,
        has_at(s, pos, halves_wire(v)),
    ensures
        forall|i: int| 0 <= i < v.len() ==> u16_at(s, pos + 2 * i) == #[trigger] v[i],
{
    let w = halves_wire(v);
    assert(w.len() == 2 * v.len());
    assert forall|i: int| 0 <= i < v.len() implies u16_at(s, pos + 2 * i) == #[trigger] v[i] by {
        assert(s.subrange(pos, pos + w.len()).subrange(2 * i, 2 * i + 2) =~= s.subrange(
            pos + 2 * i,
            pos + 2 * i + 2,
        ));
        assert(w.subrange(2 * i, 2 * i + 2) =~= u16_wire(v[i]));
        lemma_u16_round_trip(s, pos + 2 * i, v[i]);
    }
}


/// A run of keys of one shape is written as that shape's size for each key.
pub proof fn lemma_keys_wire_len(sh: KeyShape, keys: Seq<NuccAnmKey>)
    requires
        forall|i: int| 0 <= i < keys.len() ==> (#[trigger] keys[i]).shape() == Some(sh),
    ensures
        keys_wire(keys).len() == sh.size() * keys.len(),
    decreases keys.len(),
{
    if keys.len() > 0 {
        let head = keys.drop_last();
        assert forall|i: int| 0 <= i < head.len() implies (#[trigger] head[i]).shape() == Some(
            sh,
        ) by {
            assert(head[i] == keys[i]);
        }
        lemma_keys_wire_len(sh, head);
        lemma_key_wire_len(keys.last());
        assert(sh.size() * keys.len() == sh.size() * head.len() + sh.size()) by (nonlinear_arith)
            requires
                keys.len() == head.len() + 1,
        ;
    }
}

/// A run of keys of one shape is read back from the bytes it was written as.
pub proof fn lemma_keys_round_trip(s: Seq<u8>, pos: int, sh: KeyShape, keys: Seq<NuccAnmKey>)
    requires
        forall|i: int| 0 <= i < keys.len() ==> (#[trigger] keys[i]).shape() == Some(sh),
        has_at(s, pos, keys_wire(keys)),
    ensures
        keys_at(sh, s, pos, keys.len() as int) == keys,
        keys_wire(keys).len() == sh.size() * keys.len(),
    decreases keys.len(),
{
    lemma_keys_wire_len(sh, keys);
    if keys.len() > 0 {
        let head = keys.drop_last();
        assert forall|i: int| 0 <= i < head.len() implies (#[trigger] head[i]).shape() == Some(
            sh,
        ) by {
            assert(head[i] == keys[i]);
        }
        lemma_keys_wire_len(sh, head);
        lemma_has_at_concat(s, pos, keys_wire(head), key_wire(keys.last()));
        lemma_keys_round_trip(s, pos, sh, head);
        assert(head.len() * sh.size() == sh.size() * head.len()) by (nonlinear_arith);
        lemma_key_round_trip(s, pos + head.len() * sh.size(), keys.last());
        assert forall|i: int| 0 <= i < keys.len() implies keys_at(sh, s, pos, keys.len() as int)[i]
            == keys[i] by {
            if i < head.len() {
                assert(keys_at(sh, s, pos, head.len() as int)[i] == head[i]);
            }
        }
    }
    assert(keys_at(sh, s, pos, keys.len() as int) =~= keys);
}

/// A track that can be written is read back, under the same header, from the bytes it was
/// written as, and reading stops right after them.
pub proof fn lemma_track_round_trip(s: Seq<u8>, pos: int, header: TrackHeader, keys: Seq<NuccAnmKey>)
    requires
        track_check(header, keys).is_none(),
        has_at(s, pos, keys_wire(keys)),
    ensures
        track_parse(s, pos, header) == Ok::<(Seq<NuccAnmKey>, int), DecodeError>(
            (keys, pos + keys_wire(keys).len()),
        ),
        keys_wire(keys).len() == header.key_format.frame_size() * header.frame_count,
{
    let sh = header.key_format.shape().unwrap();
    lemma_keys_round_trip(s, pos, sh, keys);
    lemma_frame_size_of_shape(header.key_format);
}

/// A track header is read back from the bytes it was written as.
pub proof fn lemma_track_header_round_trip(s: Seq<u8>, pos: int, h: TrackHeader)
    requires
        has_at(s, pos, track_header_wire(h)),
    ensures
        track_header_at(s, pos) == h,
        track_header_wire(h).len() == 8,
{
    let size = ((h.key_format.frame_size() * h.frame_count) % 0x1_0000) as u16;
    lemma_halves_at(s, pos, seq![h.track_index, h.key_format.code(), h.frame_count, size]);
    lemma_key_format_code(h.key_format);
    let v = seq![h.track_index, h.key_format.code(), h.frame_count, size];
    assert(u16_at(s, pos + 2 * 0) == v[0]);
    assert(u16_at(s, pos + 2 * 1) == v[1]);
    assert(u16_at(s, pos + 2 * 2) == v[2]);
}

/// Reads one key of shape `sh` at `pos`, if the buffer holds that many bytes there.
#[verifier::rlimit(50)]
pub fn read_key(sh: KeyShape, data: &[u8], pos: usize) -> (r: Option<NuccAnmKey>)
    ensures
        r == (if in_bounds(data@, pos as int, sh.size()) {
            Some(key_at(sh, data@, pos as int))
        } else {
            None
        }),
{
    let size: usize = sh.byte_size();
    if pos > data.len() || size > data.len() - pos {
        return None;
    }
    match sh {
        KeyShape::Vec3 => {
            let x: u32 = read_u32(data, pos).unwrap();
            let y: u32 = read_u32(data, pos + 4).unwrap();
            let z: u32 = read_u32(data, pos + 8).unwrap();
            Some(NuccAnmKey::Vec3 { values: (x, y, z) })
        },
        KeyShape::Vec3Linear => {
            let frame: i32 = i32_from_bits(read_u32(data, pos).unwrap());
            let x: u32 = read_u32(data, pos + 4).unwrap();
            let y: u32 = read_u32(data, pos + 8).unwrap();
            let z: u32 = read_u32(data, pos + 12).unwrap();
            Some(NuccAnmKey::Vec3Linear { frame, values: (x, y, z) })
        },
        KeyShape::Vec4Linear => {
            let frame: i32 = i32_from_bits(read_u32(data, pos).unwrap());
            let x: u32 = read_u32(data, pos + 4).unwrap();
            let y: u32 = read_u32(data, pos + 8).unwrap();
            let z: u32 = read_u32(data, pos + 12).unwrap();
            let w: u32 = read_u32(data, pos + 16).unwrap();
            Some(NuccAnmKey::Vec4Linear { frame, values: (x, y, z, w) })
        },
        KeyShape::Float => {
            let x: u32 = read_u32(data, pos).unwrap();
            Some(NuccAnmKey::Float { values: x })
        },
        KeyShape::FloatLinear => {
            let frame: i32 = i32_from_bits(read_u32(data, pos).unwrap());
            let x: u32 = read_u32(data, pos + 4).unwrap();
            Some(NuccAnmKey::FloatLinear { frame, values: x })
        },
        KeyShape::I16Vec => {
            let x: i16 = i16_from_bits(read_u16(data, pos).unwrap());
            Some(NuccAnmKey::I16Vec { values: x })
        },
        KeyShape::I16Vec3 => {
            let x: i16 = i16_from_bits(read_u16(data, pos).unwrap());
            let y: i16 = i16_from_bits(read_u16(data, pos + 2).unwrap());
            let z: i16 = i16_from_bits(read_u16(data, pos + 4).unwrap());
            Some(NuccAnmKey::I16Vec3 { values: (x, y, z) })
        },
        KeyShape::ShortVec4 => {
            let x: i16 = i16_from_bits(read_u16(data, pos).unwrap());
            let y: i16 = i16_from_bits(read_u16(data, pos + 2).unwrap());
            let z: i16 = i16_from_bits(read_u16(data, pos + 4).unwrap());
            let w: i16 = i16_from_bits(read_u16(data, pos + 6).unwrap());
            Some(NuccAnmKey::ShortVec4 { values: (x, y, z, w) })
        },
        KeyShape::Color => {
            let r: u8 = read_u8(data, pos).unwrap();
            let g: u8 = read_u8(data, pos + 1).unwrap();
            let b: u8 = read_u8(data, pos + 2).unwrap();
            Some(NuccAnmKey::Color { values: (r, g, b) })
        },
    }
}

/// Reads the keys of one track at `pos`: exactly `frame_count` keys of the width that the
/// header's key format fixes, whatever size a header field may have declared. Returns the
/// keys and the position right after the last one.
#[verifier::rlimit(50)]
pub fn read_track_data(data: &[u8], pos: usize, header: &TrackHeader) -> (r: Result<
    (Vec<NuccAnmKey>, usize),
    DecodeError,
>)
    ensures
        match track_parse(data@, pos as int, *header) {
            Ok((keys, next)) => r matches Ok((v, n)) && v@ == keys && n == next,
            Err(e) => r matches Err(x) && x == e,
        },
        r matches Ok((v, n)) ==> v@.len() == header.frame_count && n - pos
            == header.key_format.frame_size() * header.frame_count,
{
    let sh = match header.key_format.key_shape() {
        None => {
            return Err(DecodeError::UnsupportedKeyFormat);
        },
        Some(sh) => sh,
    };
    let size: usize = sh.byte_size();
    let count: usize = header.frame_count as usize;
    assert(size * count <= 20 * 65535) by (nonlinear_arith)
        requires
            0 <= size <= 20,
            0 <= count <= 65535,
    ;
    let total: usize = size * count;
    if pos > data.len() || total > data.len() - pos {
        return Err(DecodeError::Truncated);
    }
    proof {
        lemma_frame_size_of_shape(header.key_format);
    }
    let mut keys: Vec<NuccAnmKey> = Vec::new();
    let mut i: usize = 0;
    while i < count
        invariant
            i <= count,
            size == sh.size(),
            total == size * count,
            pos + total <= data@.len() <= usize::MAX,
            keys@ == keys_at(sh, data@, pos as int, i as int),
        decreases count - i,
    {
        assert(i * size + size <= size * count) by (nonlinear_arith)
            requires
                i < count,
                0 <= size,
        ;
        let key = read_key(sh, data, pos + i * size);
        keys.push(key.unwrap());
        i += 1;
        assert(keys@ =~= keys_at(sh, data@, pos as int, i as int));
    }
    Ok((keys, pos + total))
}

/// Says whether `values` can be written under the key format `anm_key`.
pub fn check_key(anm_key: NuccAnmKeyFormat, values: &NuccAnmKey) -> (r: Result<(), EncodeError>)
    ensures
        match key_check(anm_key, *values) {
            None => r.is_ok(),
            Some(e) => r == Err::<(), EncodeError>(e),
        },
{
    match anm_key.key_shape() {
        None => Err(EncodeError::UnsupportedKeyFormat),
        Some(sh) => {
            match values.key_shape() {
                None => Err(EncodeError::KeyShapeMismatch),
                Some(ks) => {
                    if ks == sh {
                        Ok(())
                    } else {
                        Err(EncodeError::KeyShapeMismatch)
                    }
                },
            }
        },
    }
}

/// Appends the bytes of one key.
pub fn put_key(values: &NuccAnmKey, out: &mut Vec<u8>)
    ensures
        final(out)@ == old(out)@ + key_wire(*values),
{
    match *values {
        NuccAnmKey::Vec3 { values } => {
            push_u32(out, values.0);
            push_u32(out, values.1);
            push_u32(out, values.2);
        },
        NuccAnmKey::Vec3Linear { frame, values } => {
            push_u32(out, i32_to_bits(frame));
            push_u32(out, values.0);
            push_u32(out, values.1);
            push_u32(out, values.2);
        },
        NuccAnmKey::Vec4Linear { frame, values } => {
            push_u32(out, i32_to_bits(frame));
            push_u32(out, values.0);
            push_u32(out, values.1);
            push_u32(out, values.2);
            push_u32(out, values.3);
        },
        NuccAnmKey::Float { values } => {
            push_u32(out, values);
        },
        NuccAnmKey::FloatLinear { frame, values } => {
            push_u32(out, i32_to_bits(frame));
            push_u32(out, values);
        },
        NuccAnmKey::I16Vec { values } => {
            push_u16(out, i16_to_bits(values));
        },
        NuccAnmKey::I16Vec3 { values } => {
            push_u16(out, i16_to_bits(values.0));
            push_u16(out, i16_to_bits(values.1));
            push_u16(out, i16_to_bits(values.2));
        },
        NuccAnmKey::ShortVec4 { values } => {
            push_u16(out, i16_to_bits(values.0));
            push_u16(out, i16_to_bits(values.1));
            push_u16(out, i16_to_bits(values.2));
            push_u16(out, i16_to_bits(values.3));
        },
        NuccAnmKey::Color { values } => {
            push_u8(out, values.0);
            push_u8(out, values.1);
            push_u8(out, values.2);
        },
        NuccAnmKey::Unknown {  } => {},
    }
    assert(out@ =~= old(out)@ + key_wire(*values));
}

/// Writes one key under the key format `anm_key`. A format without a known key layout, or
/// a key of another shape than the format's, is an error and leaves `out` as it was.
pub fn write_fcurve_data(anm_key: NuccAnmKeyFormat, values: NuccAnmKey, out: &mut Vec<u8>) -> (r:
    Result<(), EncodeError>)
    ensures
        match key_check(anm_key, values) {
            None => r.is_ok() && final(out)@ == old(out)@ + key_wire(values),
            Some(e) => r == Err::<(), EncodeError>(e) && final(out)@ == old(out)@,
        },
{
    match check_key(anm_key, &values) {
        Err(e) => Err(e),
        Ok(()) => {
            put_key(&values, out);
            Ok(())
        },
    }
}

/// Says whether a track can be written under its header.
pub fn check_track(header: &TrackHeader, keys: &Vec<NuccAnmKey>) -> (r: Result<(), EncodeError>)
    ensures
        match track_check(*header, keys@) {
            None => r.is_ok(),
            Some(e) => r == Err::<(), EncodeError>(e),
        },
{
    let sh = match header.key_format.key_shape() {
        None => {
            return Err(EncodeError::UnsupportedKeyFormat);
        },
        Some(sh) => sh,
    };
    if keys.len() != header.frame_count as usize {
        return Err(EncodeError::FrameCountMismatch);
    }
    let mut i: usize = 0;
    while i < keys.len()
        invariant
            i <= keys@.len(),
            keys@.len() == header.frame_count,
            header.key_format.shape() == Some(sh),
            forall|j: int| 0 <= j < i ==> (#[trigger] keys@[j]).shape() == Some(sh),
        decreases keys@.len() - i,
    {
        let fits = match keys[i].key_shape() {
            None => false,
            Some(ks) => ks == sh,
        };
        if !fits {
            assert(keys@[i as int].shape() != header.key_format.shape());
            return Err(EncodeError::KeyShapeMismatch);
        }
        i += 1;
    }
    Ok(())
}

/// Appends the keys of a track, one after the other.
pub fn put_keys(keys: &Vec<NuccAnmKey>, out: &mut Vec<u8>)
    ensures
        final(out)@ == old(out)@ + keys_wire(keys@),
{
    let mut i: usize = 0;
    assert(keys_wire(keys@.subrange(0, 0)) =~= Seq::<u8>::empty());
    while i < keys.len()
        invariant
            i <= keys@.len(),
            out@ == old(out)@ + keys_wire(keys@.subrange(0, i as int)),
        decreases keys@.len() - i,
    {
        put_key(&keys[i], out);
        proof {
            let next = keys@.subrange(0, i + 1);
            assert(next.drop_last() =~= keys@.subrange(0, i as int));
            assert(next.last() == keys@[i as int]);
            assert(out@ =~= old(out)@ + keys_wire(next));
        }
        i += 1;
    }
    assert(keys@.subrange(0, keys@.len() as int) =~= keys@);
}

/// Reads the track header at `pos`, if eight bytes are there.
pub fn read_track_header(data: &[u8], pos: usize) -> (r: Option<TrackHeader>)
    ensures
        r == (if in_bounds(data@, pos as int, 8) {
            Some(track_header_at(data@, pos as int))
        } else {
            None
        }),
{
    if pos > data.len() || 8 > data.len() - pos {
        return None;
    }
    let track_index: u16 = read_u16(data, pos).unwrap();
    let code: u16 = read_u16(data, pos + 2).unwrap();
    let frame_count: u16 = read_u16(data, pos + 4).unwrap();
    Some(TrackHeader { track_index, key_format: NuccAnmKeyFormat::from_u16(code), frame_count })
}

/// Appends a track header. Its size field is computed from the format and the frame count.
pub fn put_track_header(h: &TrackHeader, out: &mut Vec<u8>)
    ensures
        final(out)@ == old(out)@ + track_header_wire(*h),
{
    let size: usize = h.key_format.size_per_frame();
    let count: usize = h.frame_count as usize;
    assert(size * count <= 20 * 65535) by (nonlinear_arith)
        requires
            0 <= size <= 20,
            0 <= count <= 65535,
    ;
    let track_size: u16 = ((size * count) % 0x1_0000) as u16;
    push_u16(out, h.track_index);
    push_u16(out, h.key_format.to_u16());
    push_u16(out, h.frame_count);
    push_u16(out, track_size);
    assert(out@ =~= old(out)@ + track_header_wire(*h));
}

} // verus!
