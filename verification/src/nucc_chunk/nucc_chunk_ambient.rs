//! The ambient light chunk, carried as a block of 16 bytes whose fields are not taken apart.

use vstd::prelude::*;
use crate::bytes::{copy_bytes, in_bounds, read_bytes};
use crate::error::DecodeError;
use crate::nucc_chunk::BlobView;

verus! {

/// The ambient light chunk. `version` comes from the chunk's frame and is not part of the payload.
#[derive(Clone, Debug, PartialEq, Eq, Default)]
pub struct NuccChunkAmbient {
    pub version: u16,
    pub data: Vec<u8>,
}

impl View for NuccChunkAmbient {
    type V = BlobView;

    open spec fn view(&self) -> BlobView {
        BlobView { version: self.version, data: self.data@ }
    }
}

/// The number of bytes that decoding a ambient light chunk takes.
pub open spec fn ambient_size() -> int {
    16
}

/// What decoding a ambient light chunk's payload gives: its first 16 bytes, and an error where
/// there are fewer. Bytes after them are ignored.
pub open spec fn ambient_parse(s: Seq<u8>, version: u16) -> Result<BlobView, DecodeError> {
    if in_bounds(s, 0, ambient_size()) {
        Ok(BlobView { version, data: s.subrange(0, ambient_size()) })
    } else {
        Err(DecodeError::Truncated)
    }
}

/// The bytes a ambient light chunk's payload is written as: the block, unchanged.
pub open spec fn ambient_wire(c: BlobView) -> Seq<u8> {
    c.data
}

impl NuccChunkAmbient {
    /// Decodes the chunk from its payload.
    pub fn read(data: &[u8], version: u16) -> (r: Result<NuccChunkAmbient, DecodeError>)
        ensures
            match ambient_parse(data@, version) {
                Ok(c) => r matches Ok(x) && x@ == c,
                Err(e) => r matches Err(x) && x == e,
            },
    {
        match read_bytes(data, 0, 16) {
            None => Err(DecodeError::Truncated),
            Some(block) => Ok(NuccChunkAmbient { version, data: block }),
        }
    }

    /// Encodes the chunk's payload.
    pub fn write(&self) -> (r: Vec<u8>)
        ensures
            r@ == ambient_wire(self@),
    {
        copy_bytes(self.data.as_slice())
    }
}

/// Encoding inverts decoding: what was decoded from a payload is written back as the
/// payload's first 16 bytes, which is the whole payload where it has no more.
pub proof fn lemma_ambient_bytes_round_trip(s: Seq<u8>, version: u16)
    requires
        ambient_parse(s, version).is_ok(),
    ensures
        ambient_wire(ambient_parse(s, version).unwrap()) == s.subrange(0, ambient_size()),
        s.len() == ambient_size() ==> ambient_wire(ambient_parse(s, version).unwrap()) == s,
{
    if s.len() == ambient_size() {
        assert(s.subrange(0, ambient_size()) =~= s);
    }
}

} // verus!
