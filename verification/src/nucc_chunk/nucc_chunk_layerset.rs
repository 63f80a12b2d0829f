//! The layer set chunk, carried as a block of 466 bytes whose fields are not taken apart.

use vstd::prelude::*;
use crate::bytes::{copy_bytes, in_bounds, read_bytes};
use crate::error::DecodeError;
use crate::nucc_chunk::BlobView;

verus! {

/// The layer set chunk. `version` comes from the chunk's frame and is not part of the payload.
#[derive(Clone, Debug, PartialEq, Eq, Default)]
pub struct NuccChunkLayerSet {
    pub version: u16,
    pub data: Vec<u8>,
}

impl View for NuccChunkLayerSet {
    type V = BlobView;

    open spec fn view(&self) -> BlobView {
        BlobView { version: self.version, data: self.data@ }
    }
}

/// The number of bytes that decoding a layer set chunk takes.
pub open spec fn layerset_size() -> int {
    466
}

/// What decoding a layer set chunk's payload gives: its first 466 bytes, and an error where
/// there are fewer. Bytes after them are ignored.
pub open spec fn layerset_parse(s: Seq<u8>, version: u16) -> Result<BlobView, DecodeError> {
    if in_bounds(s, 0, layerset_size()) {
        Ok(BlobView { version, data: s.subrange(0, layerset_size()) })
    } else {
        Err(DecodeError::Truncated)
    }
}

/// The bytes a layer set chunk's payload is written as: the block, unchanged.
pub open spec fn layerset_wire(c: BlobView) -> Seq<u8> {
    c.data
}

impl NuccChunkLayerSet {
    /// Decodes the chunk from its payload.
    pub fn read(data: &[u8], version: u16) -> (r: Result<NuccChunkLayerSet, DecodeError>)
        ensures
            match layerset_parse(data@, version) {
                Ok(c) => r matches Ok(x) && x@ == c,
                Err(e) => r matches Err(x) && x == e,
            },
    {
        match read_bytes(data, 0, 466) {
            None => Err(DecodeError::Truncated),
            Some(block) => Ok(NuccChunkLayerSet { version, data: block }),
        }
    }

    /// Encodes the chunk's payload.
    pub fn write(&self) -> (r: Vec<u8>)
        ensures
            r@ == layerset_wire(self@),
    {
        copy_bytes(self.data.as_slice())
    }
}

/// Encoding inverts decoding: what was decoded from a payload is written back as the
/// payload's first 466 bytes, which is the whole payload where it has no more.
pub proof fn lemma_layerset_bytes_round_trip(s: Seq<u8>, version: u16)
    requires
        layerset_parse(s, version).is_ok(),
    ensures
        layerset_wire(layerset_parse(s, version).unwrap()) == s.subrange(0, layerset_size()),
        s.len() == layerset_size() ==> layerset_wire(layerset_parse(s, version).unwrap()) == s,
{
    if s.len() == layerset_size() {
        assert(s.subrange(0, layerset_size()) =~= s);
    }
}

} // verus!
