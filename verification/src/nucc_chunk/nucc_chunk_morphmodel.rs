//! The morph model chunk: a count and a block of bytes whose length follows from the count.
//!
//! The count is no field of the chunk: it is read to find the block, and computed from the
//! block when the chunk is written.

use vstd::prelude::*;
use crate::bytes::{
    has_at, in_bounds, lemma_has_at_concat, lemma_u16_round_trip, push_bytes, push_u16,
    push_zeros, read_bytes, read_u16, u16_at, u16_wire, zeros,
};
use crate::error::{DecodeError, EncodeError};
use crate::nucc_chunk::BlobView;

verus! {

/// The morph model chunk. `version` comes from the chunk's frame and is not part of the
/// payload. The block is not taken apart.
#[derive(Clone, Debug, PartialEq, Eq, Default)]
pub struct NuccChunkMorphModel {
    pub version: u16,
    pub data: Vec<u8>,
}

impl View for NuccChunkMorphModel {
    type V = BlobView;

    open spec fn view(&self) -> BlobView {
        BlobView { version: self.version, data: self.data@ }
    }
}

/// The length of the block that follows a count: eight bytes, and eight more for each
/// item that the count counts.
pub open spec fn morphmodel_block_len(count: int) -> int {
    count * 8 + 8
}

/// The count that says the length of a block.
pub open spec fn morphmodel_count(data: Seq<u8>) -> int {
    (data.len() - 8) / 8
}

/// What decoding a morph model chunk's payload gives: the count is read, two reserved
/// bytes are skipped, and the block that the count asks for is kept. Bytes after it are
/// ignored.
pub open spec fn morphmodel_parse(s: Seq<u8>, version: u16) -> Result<BlobView, DecodeError> {
    if !in_bounds(s, 0, 4) {
        Err(DecodeError::Truncated)
    } else if !in_bounds(s, 4, morphmodel_block_len(u16_at(s, 0) as int)) {
        Err(DecodeError::Truncated)
    } else {
        Ok(
            BlobView {
                version,
                data: s.subrange(4, 4 + morphmodel_block_len(u16_at(s, 0) as int)),
            },
        )
    }
}

/// The bytes a morph model chunk's payload is written as: the count that says the block's
/// length, two zero bytes, and the block as it is.
pub open spec fn morphmodel_wire(c: BlobView) -> Seq<u8> {
    u16_wire(morphmodel_count(c.data) as u16) + zeros(2) + c.data
}

/// Why a morph model chunk cannot be written, if it cannot: the length of its block is
/// not eight and a multiple of eight more, or the count that says it does not fit 16 bits.
pub open spec fn morphmodel_check(c: BlobView) -> Option<EncodeError> {
    if c.data.len() < 8 || (c.data.len() - 8) % 8 != 0 {
        Some(EncodeError::BlockLengthMismatch)
    } else if morphmodel_count(c.data) > 0xFFFF {
        Some(EncodeError::TooLarge)
    } else {
        None
    }
}

/// The count that says the length of a block, or why no count says it.
pub fn block_count(data: &Vec<u8>) -> (r: Result<u16, EncodeError>)
    ensures
        match morphmodel_check(BlobView { version: 0, data: data@ }) {
            None => r matches Ok(n) && n == morphmodel_count(data@),
            Some(e) => r matches Err(x) && x == e,
        },
{
    let len: usize = data.len();
    if len < 8 || (len - 8) % 8 != 0 {
        return Err(EncodeError::BlockLengthMismatch);
    }
    let count: usize = (len - 8) / 8;
    if count > 0xFFFF {
        return Err(EncodeError::TooLarge);
    }
    Ok(count as u16)
}

impl NuccChunkMorphModel {
    /// Decodes the chunk from its payload.
    pub fn read(data: &[u8], version: u16) -> (r: Result<NuccChunkMorphModel, DecodeError>)
        ensures
            match morphmodel_parse(data@, version) {
                Ok(c) => r matches Ok(x) && x@ == c,
                Err(e) => r matches Err(x) && x == e,
            },
    {
        if 4 > data.len() {
            return Err(DecodeError::Truncated);
        }
        let count: u16 = read_u16(data, 0).unwrap();
        let len: usize = count as usize * 8 + 8;
        match read_bytes(data, 4, len) {
            None => Err(DecodeError::Truncated),
            Some(block) => Ok(NuccChunkMorphModel { version, data: block }),
        }
    }

    /// The count that the chunk is written with: the one that says the length of its
    /// block.
    pub fn count(&self) -> (r: Result<u16, EncodeError>)
        ensures
            match morphmodel_check(self@) {
                None => r matches Ok(n) && n == morphmodel_count(self.data@),
                Some(e) => r matches Err(x) && x == e,
            },
    {
        block_count(&self.data)
    }

    /// Encodes the chunk's payload. The count is computed from the block.
    pub fn write(&self) -> (r: Result<Vec<u8>, EncodeError>)
        ensures
            match morphmodel_check(self@) {
                None => r matches Ok(v) && v@ == morphmodel_wire(self@),
                Some(e) => r matches Err(x) && x == e,
            },
    {
        let count: u16 = match block_count(&self.data) {
            Err(e) => {
                return Err(e);
            },
            Ok(n) => n,
        };
        let mut out: Vec<u8> = Vec::new();
        push_u16(&mut out, count);
        push_zeros(&mut out, 2);
        push_bytes(&mut out, self.data.as_slice());
        assert(out@ =~= morphmodel_wire(self@));
        Ok(out)
    }
}

/// A block that can be written has the length that its count asks for.
pub proof fn lemma_morphmodel_block_len(c: BlobView)
    requires
        morphmodel_check(c).is_none(),
    ensures
        0 <= morphmodel_count(c.data) <= 0xFFFF,
        morphmodel_block_len(morphmodel_count(c.data)) == c.data.len(),
{
}

/// Decoding inverts encoding: a morph model chunk that can be written is decoded, from
/// any buffer that starts with the bytes it was written as, to the chunk itself.
pub proof fn lemma_morphmodel_round_trip(s: Seq<u8>, c: BlobView)
    requires
        morphmodel_check(c).is_none(),
        has_at(s, 0, morphmodel_wire(c)),
    ensures
        morphmodel_parse(s, c.version) == Ok::<BlobView, DecodeError>(c),
{
    lemma_morphmodel_block_len(c);
    let count = morphmodel_count(c.data) as u16;
    lemma_has_at_concat(s, 0, u16_wire(count) + zeros(2), c.data);
    lemma_has_at_concat(s, 0, u16_wire(count), zeros(2));
    lemma_u16_round_trip(s, 0, count);
}

} // verus!
