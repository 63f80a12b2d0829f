//! Reader and writer for the XFBIN container format and the NUCC chunks it holds.
//!
//! A container is a header, an index of deduplicated string and identity tables, and a
//! stream of type-tagged, versioned chunks. Decoding turns a buffer into pages of structs;
//! encoding turns pages back into a buffer, computing every size, count and table from the
//! pages as they are. Both work on buffers in memory, on nothing else, and either give the
//! whole result or an error.

use vstd::prelude::*;

pub mod bytes;
pub mod error;
pub mod nucc;
pub mod nucc_chunk;
pub mod round_trip;
pub mod table;
pub mod xfbin;
pub mod xfbin_file;

pub use error::{DecodeError, EncodeError};
pub use nucc::nucc_anm::{Entry, Track};
pub use nucc::{
    NuccAmbient, NuccAnm, NuccAnmStrm, NuccAnmStrmFrame, NuccBinary, NuccCamera, NuccInfo,
    NuccLayerSet, NuccLightDirc, NuccLightPoint, NuccMorphModel, NuccStruct, NuccStructInfo,
    NuccStructReference, NuccUnknown,
};
pub use nucc_chunk::anm_key::{AnmTrack, KeyShape, NuccAnmKey, NuccAnmKeyFormat, TrackHeader};
pub use nucc_chunk::nucc_chunk_anm::{AnmClump, AnmCoord, AnmEntry, CoordParent, EntryFormat};
pub use nucc_chunk::{NuccChunk, NuccChunkAnm, NuccChunkType};
pub use xfbin::{Xfbin, XfbinPage};
pub use xfbin_file::XfbinFile;

use xfbin::{file_of_xfbin, xfbin_check, xfbin_of_file, XfbinView};
use xfbin_file::{file_check, file_parse, file_wire};

verus! {

/// What decoding a buffer gives: the container is read, then its structs are grouped into
/// pages. The first error met is the result.
pub open spec fn decode(bytes: Seq<u8>) -> Result<XfbinView, DecodeError> {
    match file_parse(bytes) {
        Err(e) => Err(e),
        Ok(f) => xfbin_of_file(f),
    }
}

/// What encoding pages gives: the pages are made into a container, then the container is
/// written. The first error met is the result.
pub open spec fn encode(x: XfbinView) -> Result<Seq<u8>, EncodeError> {
    match xfbin_check(x) {
        Some(e) => Err(e),
        None => match file_check(file_of_xfbin(x)) {
            Some(e) => Err(e),
            None => Ok(file_wire(file_of_xfbin(x))),
        },
    }
}

/// Decodes a container from a buffer.
pub fn read_xfbin_buf(buf: &[u8]) -> (r: Result<Xfbin, DecodeError>)
    ensures
        match decode(buf@) {
            Ok(x) => r matches Ok(y) && y@ == x,
            Err(e) => r matches Err(y) && y == e,
        },
{
    match XfbinFile::read(buf) {
        Err(e) => Err(e),
        Ok(file) => Xfbin::from_file(&file),
    }
}

/// Encodes pages as a container in a fresh buffer.
pub fn write_xfbin_buf(xfbin: Xfbin) -> (r: Result<Vec<u8>, EncodeError>)
    ensures
        match encode(xfbin@) {
            Ok(bytes) => r matches Ok(v) && v@ == bytes,
            Err(e) => r matches Err(y) && y == e,
        },
{
    match XfbinFile::from_xfbin(xfbin) {
        Err(e) => Err(e),
        Ok(file) => file.write(),
    }
}

} // verus!
