//! The binary chunk: a length and that many raw bytes.

use vstd::prelude::*;
use crate::bytes::{
    has_at, in_bounds, lemma_has_at_concat, lemma_u32_round_trip, push_bytes, push_u32,
    read_bytes, read_u32, u32_at, u32_wire,
};
use crate::error::{DecodeError, EncodeError};
use crate::nucc_chunk::BlobView;

verus! {

/// The binary chunk. `version` comes from the chunk's frame and is not part of the payload.
/// The length field is computed from `data` when the chunk is written.
#[derive(Clone, Debug, PartialEq, Eq, Default)]
pub struct NuccChunkBinary {
    pub version: u16,
    pub data: Vec<u8>,
}

impl View for NuccChunkBinary {
    type V = BlobView;

    open spec fn view(&self) -> BlobView {
        BlobView { version: self.version, data: self.data@ }
    }
}

/// What decoding a binary chunk's payload gives: the bytes that its length field counts,
/// and an error where the payload ends before. Bytes after them are ignored.
pub open spec fn binary_parse(s: Seq<u8>, version: u16) -> Result<BlobView, DecodeError> {
    if !in_bounds(s, 0, 4) {
        Err(DecodeError::Truncated)
    } else if !in_bounds(s, 4, u32_at(s, 0) as int) {
        Err(DecodeError::Truncated)
    } else {
        Ok(BlobView { version, data: s.subrange(4, 4 + u32_at(s, 0)) })
    }
}

/// The bytes a binary chunk's payload is written as: the length of the data, then the data.
pub open spec fn binary_wire(c: BlobView) -> Seq<u8> {
    u32_wire(c.data.len() as u32) + c.data
}

/// Why a binary chunk cannot be written, if it cannot: its length does not fit 32 bits.
pub open spec fn binary_check(c: BlobView) -> Option<EncodeError> {
    if c.data.len() > 0xFFFF_FFFF {
        Some(EncodeError::TooLarge)
    } else {
        None
    }
}

impl NuccChunkBinary {
    /// Decodes the chunk from its payload.
    pub fn read(data: &[u8], version: u16) -> (r: Result<NuccChunkBinary, DecodeError>)
        ensures
            match binary_parse(data@, version) {
                Ok(c) => r matches Ok(x) && x@ == c,
                Err(e) => r matches Err(x) && x == e,
            },
    {
        let size: usize = match read_u32(data, 0) {
            None => {
                return Err(DecodeError::Truncated);
            },
            Some(n) => n as usize,
        };
        match read_bytes(data, 4, size) {
            None => Err(DecodeError::Truncated),
            Some(bytes) => Ok(NuccChunkBinary { version, data: bytes }),
        }
    }

    /// Encodes the chunk's payload.
    pub fn write(&self) -> (r: Result<Vec<u8>, EncodeError>)
        ensures
            match binary_check(self@) {
                None => r matches Ok(v) && v@ == binary_wire(self@),
                Some(e) => r matches Err(x) && x == e,
            },
    {
        if self.data.len() > 0xFFFF_FFFF {
            return Err(EncodeError::TooLarge);
        }
        let mut out: Vec<u8> = Vec::new();
        push_u32(&mut out, self.data.len() as u32);
        push_bytes(&mut out, self.data.as_slice());
        assert(out@ =~= binary_wire(self@));
        Ok(out)
    }

    /// The file extension that a binary chunk is saved under.
    pub fn extension(&self) -> (r: String)
        ensures
            r@ == ".binary"@,
    {
        ".binary".to_owned()
    }
}

/// Decoding inverts encoding: a binary chunk that can be written is decoded, from any
/// buffer that starts with the bytes it was written as, to the chunk itself.
pub proof fn lemma_binary_round_trip(s: Seq<u8>, c: BlobView)
    requires
        binary_check(c).is_none(),
        has_at(s, 0, binary_wire(c)),
    ensures
        binary_parse(s, c.version) == Ok::<BlobView, DecodeError>(c),
{
    lemma_has_at_concat(s, 0, u32_wire(c.data.len() as u32), c.data);
    lemma_u32_round_trip(s, 0, c.data.len() as u32);
}

} // verus!
