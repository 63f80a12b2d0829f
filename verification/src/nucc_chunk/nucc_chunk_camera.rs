//! The camera chunk: four reserved bytes and the field of view.

use vstd::prelude::*;
use crate::bytes::{
    has_at, in_bounds, lemma_has_at_concat, lemma_u32_round_trip, push_u32, push_zeros,
    read_u32, u32_at, u32_wire, zeros,
};
use crate::error::DecodeError;

verus! {

/// The camera chunk. `version` comes from the chunk's frame and is not part of the payload.
/// `fov` holds the bit pattern of the field of view, which is a 32-bit float on the wire.
#[derive(Clone, Copy, Debug, PartialEq, Eq, Default)]
pub struct NuccChunkCamera {
    pub version: u16,
    pub fov: u32,
}

/// What decoding a camera chunk's payload gives. The reserved bytes are skipped.
pub open spec fn camera_parse(s: Seq<u8>, version: u16) -> Result<NuccChunkCamera, DecodeError> {
    if !in_bounds(s, 0, 8) {
        Err(DecodeError::Truncated)
    } else {
        Ok(NuccChunkCamera { version, fov: u32_at(s, 4) })
    }
}

/// The bytes a camera chunk's payload is written as: four zero bytes, then the field of view.
pub open spec fn camera_wire(c: NuccChunkCamera) -> Seq<u8> {
    zeros(4) + u32_wire(c.fov)
}

impl NuccChunkCamera {
    /// Decodes the chunk from its payload.
    pub fn read(data: &[u8], version: u16) -> (r: Result<NuccChunkCamera, DecodeError>)
        ensures
            r == camera_parse(data@, version),
    {
        if 8 > data.len() {
            return Err(DecodeError::Truncated);
        }
        Ok(NuccChunkCamera { version, fov: read_u32(data, 4).unwrap() })
    }

    /// Encodes the chunk's payload.
    pub fn write(&self) -> (r: Vec<u8>)
        ensures
            r@ == camera_wire(*self),
    {
        let mut out: Vec<u8> = Vec::new();
        push_zeros(&mut out, 4);
        push_u32(&mut out, self.fov);
        assert(out@ =~= camera_wire(*self));
        out
    }
}

/// Decoding inverts encoding: a camera chunk is decoded, from any buffer that starts with
/// the bytes it was written as, to the chunk itself.
pub proof fn lemma_camera_round_trip(s: Seq<u8>, c: NuccChunkCamera)
    requires
        has_at(s, 0, camera_wire(c)),
    ensures
        camera_parse(s, c.version) == Ok::<NuccChunkCamera, DecodeError>(c),
{
    lemma_has_at_concat(s, 0, zeros(4), u32_wire(c.fov));
    lemma_u32_round_trip(s, 4, c.fov);
}

} // verus!
