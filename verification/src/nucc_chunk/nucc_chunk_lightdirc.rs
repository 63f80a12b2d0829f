//! The directional light chunk, carried as a block of 64 bytes whose fields are not taken apart.

use vstd::prelude::*;
use crate::bytes::{copy_bytes, in_bounds, read_bytes};
use crate::error::DecodeError;
use crate::nucc_chunk::BlobView;

verus! {

/// The directional light chunk. `version` comes from the chunk's frame and is not part of the payload.
#[derive(Clone, Debug, PartialEq, Eq, Default)]
pub struct NuccChunkLightDirc {
    pub version: u16,
    pub data: Vec<u8>,
}

impl View for NuccChunkLightDirc {
    type V = BlobView;

    open spec fn view(&self) -> BlobView {
        BlobView { version: self.version, data: self.data@ }
    }
}

/// The number of bytes that decoding a directional light chunk takes.
pub open spec fn lightdirc_size() -> int {
    64
}

/// What decoding a directional light chunk's payload gives: its first 64 bytes, and an error where
/// there are fewer. Bytes after them are ignored.
pub open spec fn lightdirc_parse(s: Seq<u8>, version: u16) -> Result<BlobView, DecodeError> {
    if in_bounds(s, 0, lightdirc_size()) {
        Ok(BlobView { version, data: s.subrange(0, lightdirc_size()) })
    } else {
        Err(DecodeError::Truncated)
    }
}

/// The bytes a directional light chunk's payload is written as: the block, unchanged.
pub open spec fn lightdirc_wire(c: BlobView) -> Seq<u8> {
    c.data
}

impl NuccChunkLightDirc {
    /// Decodes the chunk from its payload.
    pub fn read(data: &[u8], version: u16) -> (r: Result<NuccChunkLightDirc, DecodeError>)
        ensures
            match lightdirc_parse(data@, version) {
                Ok(c) => r matches Ok(x) && x@ == c,
                Err(e) => r matches Err(x) && x == e,
            },
    {
        match read_bytes(data, 0, 64) {
            None => Err(DecodeError::Truncated),
            Some(block) => Ok(NuccChunkLightDirc { version, data: block }),
        }
    }

    /// Encodes the chunk's payload.
    pub fn write(&self) -> (r: Vec<u8>)
        ensures
            r@ == lightdirc_wire(self@),
    {
        copy_bytes(self.data.as_slice())
    }
}

/// Encoding inverts decoding: what was decoded from a payload is written back as the
/// payload's first 64 bytes, which is the whole payload where it has no more.
pub proof fn lemma_lightdirc_bytes_round_trip(s: Seq<u8>, version: u16)
    requires
        lightdirc_parse(s, version).is_ok(),
    ensures
        lightdirc_wire(lightdirc_parse(s, version).unwrap()) == s.subrange(0, lightdirc_size()),
        s.len() == lightdirc_size() ==> lightdirc_wire(lightdirc_parse(s, version).unwrap()) == s,
{
    if s.len() == lightdirc_size() {
        assert(s.subrange(0, lightdirc_size()) =~= s);
    }
}

} // verus!
