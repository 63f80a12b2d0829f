//! Small value types that the chunks share. A field that is a float on the wire holds the
//! float's IEEE 754 bit pattern.

use vstd::prelude::*;
use crate::bytes::{
    has_at, i16_bits, i16_from_bits, i16_of, i16_to_bits, i32_bits, in_bounds,
    lemma_has_at_concat, lemma_i16_bits, lemma_u16_round_trip, push_u16, push_u8, read_u16,
    read_u8, u16_at, u16_wire,
};

verus! {

/// Three floats.
#[derive(Clone, Copy, Debug, PartialEq, Eq, Hash)]
pub struct Vector3 {
    pub x: u32,
    pub y: u32,
    pub z: u32,
}

/// Four floats.
#[derive(Clone, Copy, Debug, PartialEq, Eq, Hash)]
pub struct Vector4 {
    pub x: u32,
    pub y: u32,
    pub z: u32,
    pub w: u32,
}

/// Three signed 16-bit values.
#[derive(Clone, Copy, Debug, PartialEq, Eq, Hash)]
pub struct Vector3Short {
    pub x: i16,
    pub y: i16,
    pub z: i16,
}

/// One signed 16-bit value.
#[derive(Clone, Copy, Debug, PartialEq, Eq, Hash)]
pub struct VectorShort {
    pub x: i16,
}

/// A frame number and three floats.
#[derive(Clone, Copy, Debug, PartialEq, Eq)]
pub struct KeyframeVector3 {
    pub frame: i32,
    pub value: Vector3,
}

/// A frame number and four floats.
#[derive(Clone, Copy, Debug, PartialEq, Eq)]
pub struct KeyframeVector4 {
    pub frame: i32,
    pub value: Vector4,
}

/// A frame number and one float.
#[derive(Clone, Copy, Debug, PartialEq, Eq)]
pub struct KeyframeFloat {
    pub frame: i32,
    pub value: u32,
}

/// Four signed 16-bit values.
#[derive(Clone, Copy, Debug, PartialEq, Eq, Hash)]
pub struct QuaternionShort {
    pub x: i16,
    pub y: i16,
    pub z: i16,
    pub w: i16,
}

/// A colour, one byte for each of red, green and blue.
#[derive(Clone, Copy, Debug, PartialEq, Eq, Hash)]
pub struct RGB {
    pub r: u8,
    pub g: u8,
    pub b: u8,
}

impl Vector3 {
    /// The three words of the vector, in wire order.
    pub open spec fn words(self) -> Seq<u32> {
        seq![self.x, self.y, self.z]
    }
}

impl Vector4 {
    /// The four words of the vector, in wire order.
    pub open spec fn words(self) -> Seq<u32> {
        seq![self.x, self.y, self.z, self.w]
    }
}

impl KeyframeVector3 {
    /// The four words of the keyframe, in wire order.
    pub open spec fn words(self) -> Seq<u32> {
        seq![i32_bits(self.frame)] + self.value.words()
    }
}

impl KeyframeVector4 {
    /// The five words of the keyframe, in wire order.
    pub open spec fn words(self) -> Seq<u32> {
        seq![i32_bits(self.frame)] + self.value.words()
    }
}

impl KeyframeFloat {
    /// The two words of the keyframe, in wire order.
    pub open spec fn words(self) -> Seq<u32> {
        seq![i32_bits(self.frame), self.value]
    }
}

impl Vector3Short {
    /// The vector that the six bytes at `pos` stand for.
    pub open spec fn at(s: Seq<u8>, pos: int) -> Vector3Short {
        Vector3Short {
            x: i16_of(u16_at(s, pos)),
            y: i16_of(u16_at(s, pos + 2)),
            z: i16_of(u16_at(s, pos + 4)),
        }
    }

    /// The six bytes the vector is written as.
    pub open spec fn wire(self) -> Seq<u8> {
        u16_wire(i16_bits(self.x)) + u16_wire(i16_bits(self.y)) + u16_wire(i16_bits(self.z))
    }

    /// Reads the vector at `pos`, if six bytes are there.
    pub fn read(data: &[u8], pos: usize) -> (r: Option<Vector3Short>)
        ensures
            r == (if in_bounds(data@, pos as int, 6) {
                Some(Vector3Short::at(data@, pos as int))
            } else {
                None
            }),
    {
        if pos > data.len() || 6 > data.len() - pos {
            return None;
        }
        let x: i16 = i16_from_bits(read_u16(data, pos).unwrap());
        let y: i16 = i16_from_bits(read_u16(data, pos + 2).unwrap());
        let z: i16 = i16_from_bits(read_u16(data, pos + 4).unwrap());
        Some(Vector3Short { x, y, z })
    }

    /// Appends the vector.
    pub fn put(&self, out: &mut Vec<u8>)
        ensures
            final(out)@ == old(out)@ + self.wire(),
    {
        push_u16(out, i16_to_bits(self.x));
        push_u16(out, i16_to_bits(self.y));
        push_u16(out, i16_to_bits(self.z));
        assert(out@ =~= old(out)@ + self.wire());
    }

    /// The vector is read back from the bytes it was written as.
    pub proof fn lemma_round_trip(self, s: Seq<u8>, pos: int)
        requires
            has_at(s, pos, self.wire()),
        ensures
            Vector3Short::at(s, pos) == self,
    {
        let a = u16_wire(i16_bits(self.x));
        let b = u16_wire(i16_bits(self.y));
        let c = u16_wire(i16_bits(self.z));
        lemma_has_at_concat(s, pos, a + b, c);
        lemma_has_at_concat(s, pos, a, b);
        lemma_u16_round_trip(s, pos, i16_bits(self.x));
        lemma_u16_round_trip(s, pos + 2, i16_bits(self.y));
        lemma_u16_round_trip(s, pos + 4, i16_bits(self.z));
        lemma_i16_bits(self.x);
        lemma_i16_bits(self.y);
        lemma_i16_bits(self.z);
    }
}

impl VectorShort {
    /// The value that the two bytes at `pos` stand for.
    pub open spec fn at(s: Seq<u8>, pos: int) -> VectorShort {
        VectorShort { x: i16_of(u16_at(s, pos)) }
    }

    /// The two bytes the value is written as.
    pub open spec fn wire(self) -> Seq<u8> {
        u16_wire(i16_bits(self.x))
    }

    /// Reads the value at `pos`, if two bytes are there.
    pub fn read(data: &[u8], pos: usize) -> (r: Option<VectorShort>)
        ensures
            r == (if in_bounds(data@, pos as int, 2) {
                Some(VectorShort::at(data@, pos as int))
            } else {
                None
            }),
    {
        match read_u16(data, pos) {
            None => None,
            Some(u) => Some(VectorShort { x: i16_from_bits(u) }),
        }
    }

    /// Appends the value.
    pub fn put(&self, out: &mut Vec<u8>)
        ensures
            final(out)@ == old(out)@ + self.wire(),
    {
        push_u16(out, i16_to_bits(self.x));
    }

    /// The value is read back from the bytes it was written as.
    pub proof fn lemma_round_trip(self, s: Seq<u8>, pos: int)
        requires
            has_at(s, pos, self.wire()),
        ensures
            VectorShort::at(s, pos) == self,
    {
        lemma_u16_round_trip(s, pos, i16_bits(self.x));
        lemma_i16_bits(self.x);
    }
}

impl QuaternionShort {
    /// The quaternion that the eight bytes at `pos` stand for.
    pub open spec fn at(s: Seq<u8>, pos: int) -> QuaternionShort {
        QuaternionShort {
            x: i16_of(u16_at(s, pos)),
            y: i16_of(u16_at(s, pos + 2)),
            z: i16_of(u16_at(s, pos + 4)),
            w: i16_of(u16_at(s, pos + 6)),
        }
    }

    /// The eight bytes the quaternion is written as.
    pub open spec fn wire(self) -> Seq<u8> {
        u16_wire(i16_bits(self.x)) + u16_wire(i16_bits(self.y)) + u16_wire(i16_bits(self.z))
            + u16_wire(i16_bits(self.w))
    }

    /// Reads the quaternion at `pos`, if eight bytes are there.
    pub fn read(data: &[u8], pos: usize) -> (r: Option<QuaternionShort>)
        ensures
            r == (if in_bounds(data@, pos as int, 8) {
                Some(QuaternionShort::at(data@, pos as int))
            } else {
                None
            }),
    {
        if pos > data.len() || 8 > data.len() - pos {
            return None;
        }
        let x: i16 = i16_from_bits(read_u16(data, pos).unwrap());
        let y: i16 = i16_from_bits(read_u16(data, pos + 2).unwrap());
        let z: i16 = i16_from_bits(read_u16(data, pos + 4).unwrap());
        let w: i16 = i16_from_bits(read_u16(data, pos + 6).unwrap());
        Some(QuaternionShort { x, y, z, w })
    }

    /// Appends the quaternion.
    pub fn put(&self, out: &mut Vec<u8>)
        ensures
            final(out)@ == old(out)@ + self.wire(),
    {
        push_u16(out, i16_to_bits(self.x));
        push_u16(out, i16_to_bits(self.y));
        push_u16(out, i16_to_bits(self.z));
        push_u16(out, i16_to_bits(self.w));
        assert(out@ =~= old(out)@ + self.wire());
    }

    /// The quaternion is read back from the bytes it was written as.
    pub proof fn lemma_round_trip(self, s: Seq<u8>, pos: int)
        requires
            has_at(s, pos, self.wire()),
        ensures
            QuaternionShort::at(s, pos) == self,
    {
        let a = u16_wire(i16_bits(self.x));
        let b = u16_wire(i16_bits(self.y));
        let c = u16_wire(i16_bits(self.z));
        let d = u16_wire(i16_bits(self.w));
        lemma_has_at_concat(s, pos, a + b + c, d);
        lemma_has_at_concat(s, pos, a + b, c);
        lemma_has_at_concat(s, pos, a, b);
        lemma_u16_round_trip(s, pos, i16_bits(self.x));
        lemma_u16_round_trip(s, pos + 2, i16_bits(self.y));
        lemma_u16_round_trip(s, pos + 4, i16_bits(self.z));
        lemma_u16_round_trip(s, pos + 6, i16_bits(self.w));
        lemma_i16_bits(self.x);
        lemma_i16_bits(self.y);
        lemma_i16_bits(self.z);
        lemma_i16_bits(self.w);
    }
}

impl RGB {
    /// The colour that the three bytes at `pos` stand for.
    pub open spec fn at(s: Seq<u8>, pos: int) -> RGB {
        RGB { r: s[pos], g: s[pos + 1], b: s[pos + 2] }
    }

    /// The three bytes the colour is written as.
    pub open spec fn wire(self) -> Seq<u8> {
        seq![self.r, self.g, self.b]
    }

    /// Reads the colour at `pos`, if three bytes are there.
    pub fn read(data: &[u8], pos: usize) -> (r: Option<RGB>)
        ensures
            r == (if in_bounds(data@, pos as int, 3) {
                Some(RGB::at(data@, pos as int))
            } else {
                None
            }),
    {
        if pos > data.len() || 3 > data.len() - pos {
            return None;
        }
        let r: u8 = read_u8(data, pos).unwrap();
        let g: u8 = read_u8(data, pos + 1).unwrap();
        let b: u8 = read_u8(data, pos + 2).unwrap();
        Some(RGB { r, g, b })
    }

    /// Appends the colour.
    pub fn put(&self, out: &mut Vec<u8>)
        ensures
            final(out)@ == old(out)@ + self.wire(),
    {
        push_u8(out, self.r);
        push_u8(out, self.g);
        push_u8(out, self.b);
        assert(out@ =~= old(out)@ + self.wire());
    }

    /// The colour is read back from the bytes it was written as.
    pub proof fn lemma_round_trip(self, s: Seq<u8>, pos: int)
        requires
            has_at(s, pos, self.wire()),
        ensures
            RGB::at(s, pos) == self,
    {
        let w = self.wire();
        assert(s.subrange(pos, pos + 3)[0] == s[pos]);
        assert(s.subrange(pos, pos + 3)[1] == s[pos + 1]);
        assert(s.subrange(pos, pos + 3)[2] == s[pos + 2]);
        assert(w[0] == self.r && w[1] == self.g && w[2] == self.b);
    }
}

} // verus!
