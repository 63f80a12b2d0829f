//! The container: a header, the index with its tables, and the stream of chunk frames.
//!
//! Every field that says a size or a count is computed from the tables when the container
//! is written, and ignored or used only to find the tables when it is read. A container
//! is read whole or not at all: a buffer that ends inside any part of it is an error.

use vstd::prelude::*;
use crate::bytes::{
    has_at, in_bounds, lemma_has_at_concat, lemma_has_at_whole, lemma_u16_round_trip,
    lemma_u32_round_trip, lemma_u32s_round_trip, pad4, push_bytes, push_u16, push_u32,
    push_u32s, push_u8, push_zeros, read_bytes, read_u16, read_u32, read_u32s, u16_at, u16_wire,
    u32_at, u32_wire, u32s_at, u32s_wire, zeros,
};
use crate::error::{DecodeError, EncodeError};
use crate::nucc_chunk::{chunk_check, chunk_parse, chunk_wire, NuccChunk, NuccChunkType};

verus! {

/// The container's header. The magic tag before it and the reserved bytes after it are not
/// fields.
#[derive(Clone, Copy, Debug, PartialEq, Eq, Default)]
pub struct XfbinHeader {
    pub version: u32,
    pub encrypted: u16,
}

/// One row of the table of references: a name and the struct it points to, each by index.
#[derive(Clone, Copy, Debug, PartialEq, Eq, Default)]
pub struct XfbinChunkReference {
    pub chunk_name_index: u32,
    pub chunk_map_index: u32,
}

/// One row of the table of struct identities: the kind tag, the path and the name, each by
/// index into its string table.
#[derive(Clone, Copy, Debug, PartialEq, Eq, Default)]
pub struct XfbinChunkMap {
    pub chunk_type_index: u32,
    pub filepath_index: u32,
    pub chunk_name_index: u32,
}

/// The index: three string tables and the three tables of indices that refer to them.
#[derive(Clone, Debug, PartialEq, Eq, Default)]
pub struct XfbinIndex {
    pub min_page_size: u32,
    pub version: u16,
    pub chunk_types: Vec<Vec<u8>>,
    pub filepaths: Vec<Vec<u8>>,
    pub chunk_names: Vec<Vec<u8>>,
    pub chunk_maps: Vec<XfbinChunkMap>,
    pub chunk_references: Vec<XfbinChunkReference>,
    pub chunk_map_indices: Vec<u32>,
}

/// What an `XfbinIndex` holds.
pub struct XfbinIndexView {
    pub min_page_size: u32,
    pub version: u16,
    pub chunk_types: Seq<Seq<u8>>,
    pub filepaths: Seq<Seq<u8>>,
    pub chunk_names: Seq<Seq<u8>>,
    pub chunk_maps: Seq<XfbinChunkMap>,
    pub chunk_references: Seq<XfbinChunkReference>,
    pub chunk_map_indices: Seq<u32>,
}

/// One chunk frame: the slot of the page's identities that names the chunk, the chunk's
/// version, and its payload. The payload's size is not a field.
#[derive(Clone, Debug, PartialEq, Eq, Default)]
pub struct XfbinChunk {
    pub chunk_map_index: u32,
    pub version: u16,
    pub data: Vec<u8>,
}

/// What an `XfbinChunk` holds.
pub struct XfbinChunkView {
    pub chunk_map_index: u32,
    pub version: u16,
    pub data: Seq<u8>,
}

/// A whole container.
#[derive(Clone, Debug, PartialEq, Eq, Default)]
pub struct XfbinFile {
    pub header: XfbinHeader,
    pub index: XfbinIndex,
    pub chunks: Vec<XfbinChunk>,
}

/// What an `XfbinFile` holds.
pub struct XfbinFileView {
    pub header: XfbinHeader,
    pub index: XfbinIndexView,
    pub chunks: Seq<XfbinChunkView>,
}

/// The byte strings of a list.
pub open spec fn strings_view(v: Seq<Vec<u8>>) -> Seq<Seq<u8>> {
    v.map_values(|x: Vec<u8>| x@)
}

/// What each chunk frame of a list holds.
pub open spec fn chunks_view(v: Seq<XfbinChunk>) -> Seq<XfbinChunkView> {
    v.map_values(|c: XfbinChunk| c@)
}

impl View for XfbinIndex {
    type V = XfbinIndexView;

    open spec fn view(&self) -> XfbinIndexView {
        XfbinIndexView {
            min_page_size: self.min_page_size,
            version: self.version,
            chunk_types: strings_view(self.chunk_types@),
            filepaths: strings_view(self.filepaths@),
            chunk_names: strings_view(self.chunk_names@),
            chunk_maps: self.chunk_maps@,
            chunk_references: self.chunk_references@,
            chunk_map_indices: self.chunk_map_indices@,
        }
    }
}

impl View for XfbinChunk {
    type V = XfbinChunkView;

    open spec fn view(&self) -> XfbinChunkView {
        XfbinChunkView {
            chunk_map_index: self.chunk_map_index,
            version: self.version,
            data: self.data@,
        }
    }
}

impl View for XfbinFile {
    type V = XfbinFileView;

    open spec fn view(&self) -> XfbinFileView {
        XfbinFileView {
            header: self.header,
            index: self.index@,
            chunks: chunks_view(self.chunks@),
        }
    }
}

/// The four bytes every container starts with.
pub open spec fn magic() -> Seq<u8> {
    seq![0x4Eu8, 0x55u8, 0x43u8, 0x43u8]
}

/// The largest value a 32-bit field can say.
pub open spec fn max_u32() -> int {
    0xFFFF_FFFF
}

/// The position of the first NUL byte at or after `pos`, or the length of the buffer where
/// there is none.
pub open spec fn first_nul(s: Seq<u8>, pos: int) -> int
    decreases s.len() - pos,
{
    if pos < 0 || pos >= s.len() {
        s.len() as int
    } else if s[pos] == 0 {
        pos
    } else {
        first_nul(s, pos + 1)
    }
}

/// What reading a NUL-terminated string at `pos` gives: the bytes before the NUL and the
/// position after it, or `None` where the buffer ends before a NUL.
pub open spec fn string_parse(s: Seq<u8>, pos: int) -> Option<(Seq<u8>, int)> {
    if pos < 0 || first_nul(s, pos) >= s.len() {
        None
    } else {
        Some((s.subrange(pos, first_nul(s, pos)), first_nul(s, pos) + 1))
    }
}

/// The bytes a string is written as: its bytes and a NUL.
pub open spec fn string_wire(x: Seq<u8>) -> Seq<u8> {
    x + seq![0u8]
}

/// The string holds no NUL byte, so that it ends where its terminator stands.
pub open spec fn nul_free(x: Seq<u8>) -> bool {
    forall|i: int| 0 <= i < x.len() ==> x[i] != 0
}

/// What reading `n` strings one after the other gives.
pub open spec fn strings_parse(s: Seq<u8>, pos: int, n: nat) -> Option<(Seq<Seq<u8>>, int)>
    decreases n,
{
    if n == 0 {
        Some((Seq::empty(), pos))
    } else {
        match strings_parse(s, pos, (n - 1) as nat) {
            None => None,
            Some((head, p)) => match string_parse(s, p) {
                None => None,
                Some((x, q)) => Some((head.push(x), q)),
            },
        }
    }
}

/// The bytes a string table is written as.
pub open spec fn strings_wire(v: Seq<Seq<u8>>) -> Seq<u8>
    decreases v.len(),
{
    if v.len() == 0 {
        Seq::empty()
    } else {
        strings_wire(v.drop_last()) + string_wire(v.last())
    }
}

/// The number of bytes a string table is written as: each string and its NUL.
pub open spec fn strings_size(v: Seq<Seq<u8>>) -> int
    decreases v.len(),
{
    if v.len() == 0 {
        0
    } else {
        strings_size(v.drop_last()) + v.last().len() + 1
    }
}

/// No string of the table holds a NUL byte.
pub open spec fn strings_nul_free(v: Seq<Seq<u8>>) -> bool {
    forall|i: int| 0 <= i < v.len() ==> nul_free(#[trigger] v[i])
}

/// The row of the table of identities that the twelve bytes at `pos` stand for.
pub open spec fn chunk_map_at(s: Seq<u8>, pos: int) -> XfbinChunkMap {
    XfbinChunkMap {
        chunk_type_index: u32_at(s, pos),
        filepath_index: u32_at(s, pos + 4),
        chunk_name_index: u32_at(s, pos + 8),
    }
}

/// The twelve bytes a row of the table of identities is written as.
pub open spec fn chunk_map_wire(m: XfbinChunkMap) -> Seq<u8> {
    u32_wire(m.chunk_type_index) + u32_wire(m.filepath_index) + u32_wire(m.chunk_name_index)
}

/// The `n` rows of the table of identities that start at `pos`.
pub open spec fn chunk_maps_at(s: Seq<u8>, pos: int, n: int) -> Seq<XfbinChunkMap> {
    Seq::new(n as nat, |i: int| chunk_map_at(s, pos + 12 * i))
}

/// The bytes the table of identities is written as.
pub open spec fn chunk_maps_wire(v: Seq<XfbinChunkMap>) -> Seq<u8>
    decreases v.len(),
{
    if v.len() == 0 {
        Seq::empty()
    } else {
        chunk_maps_wire(v.drop_last()) + chunk_map_wire(v.last())
    }
}

/// The row of the table of references that the eight bytes at `pos` stand for.
pub open spec fn chunk_reference_at(s: Seq<u8>, pos: int) -> XfbinChunkReference {
    XfbinChunkReference { chunk_name_index: u32_at(s, pos), chunk_map_index: u32_at(s, pos + 4) }
}

/// The eight bytes a row of the table of references is written as.
pub open spec fn chunk_reference_wire(r: XfbinChunkReference) -> Seq<u8> {
    u32_wire(r.chunk_name_index) + u32_wire(r.chunk_map_index)
}

/// The `n` rows of the table of references that start at `pos`.
pub open spec fn chunk_references_at(s: Seq<u8>, pos: int, n: int) -> Seq<XfbinChunkReference> {
    Seq::new(n as nat, |i: int| chunk_reference_at(s, pos + 8 * i))
}

/// The bytes the table of references is written as.
pub open spec fn chunk_references_wire(v: Seq<XfbinChunkReference>) -> Seq<u8>
    decreases v.len(),
{
    if v.len() == 0 {
        Seq::empty()
    } else {
        chunk_references_wire(v.drop_last()) + chunk_reference_wire(v.last())
    }
}

/// What reading the header gives: the magic tag must be there, then the version, the
/// encryption flag and six reserved bytes.
pub open spec fn header_parse(s: Seq<u8>) -> Result<XfbinHeader, DecodeError> {
    if !in_bounds(s, 0, 4) {
        Err(DecodeError::Truncated)
    } else if s.subrange(0, 4) != magic() {
        Err(DecodeError::BadMagic)
    } else if !in_bounds(s, 0, 16) {
        Err(DecodeError::Truncated)
    } else {
        Ok(XfbinHeader { version: u32_at(s, 4), encrypted: u16_at(s, 8) })
    }
}

/// The sixteen bytes the header is written as.
pub open spec fn header_wire(h: XfbinHeader) -> Seq<u8> {
    magic() + u32_wire(h.version) + u16_wire(h.encrypted) + zeros(6)
}

/// The number of bytes of the three string tables together.
pub open spec fn index_strings_size(ix: XfbinIndexView) -> int {
    strings_size(ix.chunk_types) + strings_size(ix.filepaths) + strings_size(ix.chunk_names)
}

/// The value of the index's table size field: the ten count and size fields, the string
/// tables, four bytes less the part of the string tables past a multiple of four, the
/// table of identities and the table of slots.
pub open spec fn chunk_table_size(ix: XfbinIndexView) -> int {
    0x28 + index_strings_size(ix) + (4 - index_strings_size(ix) % 4) + 12 * ix.chunk_maps.len()
        + 4 * ix.chunk_map_indices.len()
}

/// What reading the index, which starts right after the header, gives: the index and the
/// position after it. The size fields are skipped; the count fields say how many entries
/// each table has. The table of identities starts at the next multiple of four after the
/// strings.
pub open spec fn index_parse(s: Seq<u8>) -> Result<(XfbinIndexView, int), DecodeError> {
    if !in_bounds(s, 16, 52) {
        Err(DecodeError::Truncated)
    } else {
        let type_count = u32_at(s, 28) as int;
        let path_count = u32_at(s, 36) as int;
        let name_count = u32_at(s, 44) as int;
        let map_count = u32_at(s, 52) as int;
        let slot_count = u32_at(s, 60) as int;
        let reference_count = u32_at(s, 64) as int;
        match strings_parse(s, 68, type_count as nat) {
            None => Err(DecodeError::Truncated),
            Some((chunk_types, after_types)) => match strings_parse(s, after_types, path_count as nat) {
                None => Err(DecodeError::Truncated),
                Some((filepaths, after_paths)) => match strings_parse(s, after_paths, name_count as nat) {
                    None => Err(DecodeError::Truncated),
                    Some((chunk_names, after_names)) => {
                        let tables_at = after_names + pad4(after_names);
                        if !in_bounds(
                            s,
                            tables_at,
                            12 * map_count + 8 * reference_count + 4 * slot_count,
                        ) {
                            Err(DecodeError::Truncated)
                        } else {
                            Ok(
                                (
                                    XfbinIndexView {
                                        min_page_size: u32_at(s, 20),
                                        version: u16_at(s, 24),
                                        chunk_types,
                                        filepaths,
                                        chunk_names,
                                        chunk_maps: chunk_maps_at(s, tables_at, map_count),
                                        chunk_references: chunk_references_at(
                                            s,
                                            tables_at + 12 * map_count,
                                            reference_count,
                                        ),
                                        chunk_map_indices: u32s_at(
                                            s,
                                            tables_at + 12 * map_count + 8 * reference_count,
                                            slot_count,
                                        ),
                                    },
                                    tables_at + 12 * map_count + 8 * reference_count + 4 * slot_count,
                                ),
                            )
                        }
                    },
                },
            },
        }
    }
}

/// The fixed part of the index: the table size, the smallest page size, the version with
/// two reserved bytes, and the count and size fields, all computed from the tables.
pub open spec fn index_head_wire(ix: XfbinIndexView) -> Seq<u8> {
    head_wire(
        chunk_table_size(ix) as u32,
        ix.min_page_size,
        ix.version,
        ix.chunk_types.len() as u32,
        strings_size(ix.chunk_types) as u32,
        ix.filepaths.len() as u32,
        strings_size(ix.filepaths) as u32,
        ix.chunk_names.len() as u32,
        strings_size(ix.chunk_names) as u32,
        ix.chunk_maps.len() as u32,
        (12 * ix.chunk_maps.len()) as u32,
        ix.chunk_map_indices.len() as u32,
        ix.chunk_references.len() as u32,
    )
}

/// The bytes the index is written as: the fixed part, the three string tables, zero bytes
/// up to a multiple of four, and the three tables of indices.
pub open spec fn index_wire(ix: XfbinIndexView) -> Seq<u8> {
    index_head_wire(ix) + strings_wire(ix.chunk_types) + strings_wire(ix.filepaths)
        + strings_wire(ix.chunk_names) + zeros(pad4(index_strings_size(ix))) + chunk_maps_wire(
        ix.chunk_maps,
    ) + chunk_references_wire(ix.chunk_references) + u32s_wire(ix.chunk_map_indices)
}

/// Why an index cannot be written, if it cannot: a count or a size does not fit 32 bits,
/// or a string holds a NUL byte.
pub open spec fn index_check(ix: XfbinIndexView) -> Option<EncodeError> {
    if ix.chunk_types.len() > max_u32() || ix.filepaths.len() > max_u32() || ix.chunk_names.len()
        > max_u32() || ix.chunk_references.len() > max_u32() || chunk_table_size(ix)
        > max_u32() {
        Some(EncodeError::TooLarge)
    } else if !strings_nul_free(ix.chunk_types) || !strings_nul_free(ix.filepaths)
        || !strings_nul_free(ix.chunk_names) {
        Some(EncodeError::NulInName)
    } else {
        None
    }
}

/// What reading a chunk frame at `pos` gives: the frame and the position after its payload.
pub open spec fn frame_parse(s: Seq<u8>, pos: int) -> Option<(XfbinChunkView, int)> {
    if !in_bounds(s, pos, 12) {
        None
    } else if !in_bounds(s, pos + 12, u32_at(s, pos) as int) {
        None
    } else {
        Some(
            (
                XfbinChunkView {
                    chunk_map_index: u32_at(s, pos + 4),
                    version: u16_at(s, pos + 8),
                    data: s.subrange(pos + 12, pos + 12 + u32_at(s, pos)),
                },
                pos + 12 + u32_at(s, pos),
            ),
        )
    }
}

/// The bytes a chunk frame is written as: the payload's size, the slot, the version with
/// two reserved bytes, and the payload.
pub open spec fn frame_wire(c: XfbinChunkView) -> Seq<u8> {
    u32_wire(c.data.len() as u32) + u32_wire(c.chunk_map_index) + u16_wire(c.version) + zeros(2)
        + c.data
}

/// What reading chunk frames back to back from `pos` to the end of the buffer gives. The
/// last frame must end where the buffer ends.
pub open spec fn frames_parse(s: Seq<u8>, pos: int) -> Result<Seq<XfbinChunkView>, DecodeError>
    decreases s.len() - pos,
{
    if pos >= s.len() {
        Ok(Seq::empty())
    } else if !in_bounds(s, pos, 12) || !in_bounds(s, pos + 12, u32_at(s, pos) as int) {
        Err(DecodeError::Truncated)
    } else {
        match frames_parse(s, pos + 12 + u32_at(s, pos)) {
            Err(e) => Err(e),
            Ok(rest) => Ok(seq![frame_parse(s, pos).unwrap().0] + rest),
        }
    }
}

/// The bytes a run of chunk frames is written as.
pub open spec fn frames_wire(v: Seq<XfbinChunkView>) -> Seq<u8>
    decreases v.len(),
{
    if v.len() == 0 {
        Seq::empty()
    } else {
        frames_wire(v.drop_last()) + frame_wire(v.last())
    }
}

/// Every payload of the run has a size that fits 32 bits.
pub open spec fn frames_fit(v: Seq<XfbinChunkView>) -> bool {
    forall|i: int| 0 <= i < v.len() ==> (#[trigger] v[i]).data.len() <= max_u32()
}

/// What decoding a buffer gives: header, index and chunk frames, or the first error met.
pub open spec fn file_parse(s: Seq<u8>) -> Result<XfbinFileView, DecodeError> {
    match header_parse(s) {
        Err(e) => Err(e),
        Ok(header) => match index_parse(s) {
            Err(e) => Err(e),
            Ok((index, p)) => match frames_parse(s, p) {
                Err(e) => Err(e),
                Ok(chunks) => Ok(XfbinFileView { header, index, chunks }),
            },
        },
    }
}

/// The bytes a container is written as.
pub open spec fn file_wire(f: XfbinFileView) -> Seq<u8> {
    header_wire(f.header) + index_wire(f.index) + frames_wire(f.chunks)
}

/// Why a container cannot be written, if it cannot.
pub open spec fn file_check(f: XfbinFileView) -> Option<EncodeError> {
    match index_check(f.index) {
        Some(e) => Some(e),
        None => if frames_fit(f.chunks) {
            None
        } else {
            Some(EncodeError::TooLarge)
        },
    }
}


/// The first NUL byte at or after `pos` stands at or after `pos` and inside the buffer or
/// at its end, and no byte before it is NUL.
pub proof fn lemma_first_nul(s: Seq<u8>, pos: int)
    requires
        0 <= pos <= s.len(),
    ensures
        pos <= first_nul(s, pos) <= s.len(),
        first_nul(s, pos) < s.len() ==> s[first_nul(s, pos)] == 0,
        forall|i: int| pos <= i < first_nul(s, pos) ==> s[i] != 0,
    decreases s.len() - pos,
{
    if pos < s.len() && s[pos] != 0 {
        lemma_first_nul(s, pos + 1);
    }
}

/// A string table is written as many bytes as its size says.
pub proof fn lemma_strings_wire_len(v: Seq<Seq<u8>>)
    ensures
        strings_wire(v).len() == strings_size(v),
        strings_size(v) >= v.len(),
    decreases v.len(),
{
    if v.len() > 0 {
        lemma_strings_wire_len(v.drop_last());
    }
}

/// The size of the first `k` strings of a table is at most the size of the table.
pub proof fn lemma_strings_size_prefix(v: Seq<Seq<u8>>, k: int)
    requires
        0 <= k <= v.len(),
    ensures
        0 <= strings_size(v.subrange(0, k)) <= strings_size(v),
    decreases v.len(),
{
    lemma_strings_wire_len(v.subrange(0, k));
    if k == v.len() {
        assert(v.subrange(0, k) =~= v);
    } else {
        assert(v.drop_last().subrange(0, k) =~= v.subrange(0, k));
        lemma_strings_size_prefix(v.drop_last(), k);
    }
}

/// Once reading a run of strings has failed, reading a longer run fails too.
pub proof fn lemma_strings_parse_none(s: Seq<u8>, pos: int, k: nat, n: nat)
    requires
        k <= n,
        strings_parse(s, pos, k).is_none(),
    ensures
        strings_parse(s, pos, n).is_none(),
    decreases n,
{
    if k < n {
        lemma_strings_parse_none(s, pos, k, (n - 1) as nat);
    }
}

/// Reads the NUL-terminated string at `pos`. Returns its bytes, without the NUL, and the
/// position after the NUL.
pub fn read_string(data: &[u8], pos: usize) -> (r: Option<(Vec<u8>, usize)>)
    ensures
        match string_parse(data@, pos as int) {
            Some((x, next)) => r matches Some((v, n)) && v@ == x && n == next && pos < n
                <= data@.len(),
            None => r.is_none(),
        },
{
    if pos > data.len() {
        return None;
    }
    let mut i: usize = pos;
    while i < data.len() && data[i] != 0
        invariant
            pos <= i <= data@.len(),
            first_nul(data@, pos as int) == first_nul(data@, i as int),
        decreases data@.len() - i,
    {
        i += 1;
    }
    if i >= data.len() {
        return None;
    }
    let bytes = read_bytes(data, pos, i - pos).unwrap();
    Some((bytes, i + 1))
}

/// Reads `n` NUL-terminated strings one after the other.
pub fn read_strings(data: &[u8], pos: usize, n: usize) -> (r: Option<(Vec<Vec<u8>>, usize)>)
    ensures
        match strings_parse(data@, pos as int, n as nat) {
            Some((v, next)) => r matches Some((x, m)) && strings_view(x@) == v && m == next
                && pos <= m && (pos <= data@.len() ==> m <= data@.len()),
            None => r.is_none(),
        },
{
    let mut out: Vec<Vec<u8>> = Vec::new();
    let mut p: usize = pos;
    let mut i: usize = 0;
    assert(strings_view(out@) =~= Seq::<Seq<u8>>::empty());
    while i < n
        invariant
            i <= n,
            pos <= p,
            pos <= data@.len() ==> p <= data@.len(),
            strings_parse(data@, pos as int, i as nat) == Some((strings_view(out@), p as int)),
        decreases n - i,
    {
        match read_string(data, p) {
            None => {
                proof {
                    lemma_strings_parse_none(data@, pos as int, (i + 1) as nat, n as nat);
                }
                return None;
            },
            Some((x, q)) => {
                let ghost before = out@;
                out.push(x);
                assert(strings_view(out@) =~= strings_view(before).push(x@));
                p = q;
            },
        }
        i += 1;
    }
    Some((out, p))
}

/// Appends a string table: each string and its NUL.
pub fn put_strings(v: &Vec<Vec<u8>>, out: &mut Vec<u8>)
    ensures
        final(out)@ == old(out)@ + strings_wire(strings_view(v@)),
{
    let mut i: usize = 0;
    let ghost all = strings_view(v@);
    assert(strings_wire(all.subrange(0, 0)) =~= Seq::<u8>::empty());
    while i < v.len()
        invariant
            i <= v@.len(),
            all == strings_view(v@),
            out@ == old(out)@ + strings_wire(all.subrange(0, i as int)),
        decreases v@.len() - i,
    {
        let ghost before = out@;
        push_bytes(out, v[i].as_slice());
        push_u8(out, 0);
        proof {
            let next = all.subrange(0, i + 1);
            assert(next.drop_last() =~= all.subrange(0, i as int));
            assert(next.last() == v@[i as int]@);
            assert(out@ =~= before + string_wire(v@[i as int]@));
            assert(out@ =~= old(out)@ + strings_wire(next));
        }
        i += 1;
    }
    assert(all.subrange(0, all.len() as int) =~= all);
}

/// The number of bytes a string table is written as, if it fits 32 bits.
pub fn strings_byte_size(v: &Vec<Vec<u8>>) -> (r: Option<u32>)
    ensures
        match r {
            Some(n) => n == strings_size(strings_view(v@)),
            None => strings_size(strings_view(v@)) > max_u32(),
        },
{
    let ghost all = strings_view(v@);
    let mut total: u64 = 0;
    let mut i: usize = 0;
    assert(all.subrange(0, 0) =~= Seq::<Seq<u8>>::empty());
    while i < v.len()
        invariant
            i <= v@.len(),
            all == strings_view(v@),
            total == strings_size(all.subrange(0, i as int)),
            total <= max_u32(),
        decreases v@.len() - i,
    {
        let len: usize = v[i].len();
        proof {
            let next = all.subrange(0, i + 1);
            assert(next.drop_last() =~= all.subrange(0, i as int));
            assert(next.last() == v@[i as int]@);
            lemma_strings_size_prefix(all, i + 1);
        }
        if len > 0xFFFF_FFFF {
            return None;
        }
        let next_total: u64 = total + len as u64 + 1;
        if next_total > 0xFFFF_FFFF {
            return None;
        }
        total = next_total;
        i += 1;
    }
    assert(all.subrange(0, all.len() as int) =~= all);
    Some(total as u32)
}

/// Says whether no string of a table holds a NUL byte.
pub fn check_nul_free(v: &Vec<Vec<u8>>) -> (r: bool)
    ensures
        r == strings_nul_free(strings_view(v@)),
{
    let mut i: usize = 0;
    while i < v.len()
        invariant
            i <= v@.len(),
            forall|k: int| 0 <= k < i ==> nul_free(#[trigger] strings_view(v@)[k]),
        decreases v@.len() - i,
    {
        let mut j: usize = 0;
        while j < v[i].len()
            invariant
                i < v@.len(),
                j <= v@[i as int]@.len(),
                forall|k: int| 0 <= k < j ==> v@[i as int]@[k] != 0,
            decreases v@[i as int]@.len() - j,
        {
            if v[i][j] == 0 {
                assert(!nul_free(strings_view(v@)[i as int]));
                return false;
            }
            j += 1;
        }
        assert(nul_free(strings_view(v@)[i as int]));
        i += 1;
    }
    true
}

/// Reads `n` rows of the table of identities starting at `pos`, if they are there.
pub fn read_chunk_maps(data: &[u8], pos: usize, n: usize) -> (r: Option<Vec<XfbinChunkMap>>)
    ensures
        in_bounds(data@, pos as int, 12 * n) ==> r.is_some() && r.unwrap()@ == chunk_maps_at(
            data@,
            pos as int,
            n as int,
        ),
        !in_bounds(data@, pos as int, 12 * n) ==> r.is_none(),
{
    if pos > data.len() || n > (data.len() - pos) / 12 {
        return None;
    }
    let mut out: Vec<XfbinChunkMap> = Vec::new();
    let mut i: usize = 0;
    while i < n
        invariant
            i <= n,
            pos + 12 * n <= data@.len() <= usize::MAX,
            out@ == chunk_maps_at(data@, pos as int, i as int),
        decreases n - i,
    {
        let chunk_type_index: u32 = read_u32(data, pos + 12 * i).unwrap();
        let filepath_index: u32 = read_u32(data, pos + 12 * i + 4).unwrap();
        let chunk_name_index: u32 = read_u32(data, pos + 12 * i + 8).unwrap();
        out.push(XfbinChunkMap { chunk_type_index, filepath_index, chunk_name_index });
        i += 1;
        assert(out@ =~= chunk_maps_at(data@, pos as int, i as int));
    }
    Some(out)
}

/// Appends the table of identities.
pub fn put_chunk_maps(v: &Vec<XfbinChunkMap>, out: &mut Vec<u8>)
    ensures
        final(out)@ == old(out)@ + chunk_maps_wire(v@),
{
    let mut i: usize = 0;
    assert(chunk_maps_wire(v@.subrange(0, 0)) =~= Seq::<u8>::empty());
    while i < v.len()
        invariant
            i <= v@.len(),
            out@ == old(out)@ + chunk_maps_wire(v@.subrange(0, i as int)),
        decreases v@.len() - i,
    {
        let ghost before = out@;
        push_u32(out, v[i].chunk_type_index);
        push_u32(out, v[i].filepath_index);
        push_u32(out, v[i].chunk_name_index);
        proof {
            let next = v@.subrange(0, i + 1);
            assert(next.drop_last() =~= v@.subrange(0, i as int));
            assert(next.last() == v@[i as int]);
            assert(out@ =~= before + chunk_map_wire(v@[i as int]));
            assert(out@ =~= old(out)@ + chunk_maps_wire(next));
        }
        i += 1;
    }
    assert(v@.subrange(0, v@.len() as int) =~= v@);
}

/// Reads `n` rows of the table of references starting at `pos`, if they are there.
pub fn read_chunk_references(data: &[u8], pos: usize, n: usize) -> (r: Option<
    Vec<XfbinChunkReference>,
>)
    ensures
        in_bounds(data@, pos as int, 8 * n) ==> r.is_some() && r.unwrap()@ == chunk_references_at(
            data@,
            pos as int,
            n as int,
        ),
        !in_bounds(data@, pos as int, 8 * n) ==> r.is_none(),
{
    if pos > data.len() || n > (data.len() - pos) / 8 {
        return None;
    }
    let mut out: Vec<XfbinChunkReference> = Vec::new();
    let mut i: usize = 0;
    while i < n
        invariant
            i <= n,
            pos + 8 * n <= data@.len() <= usize::MAX,
            out@ == chunk_references_at(data@, pos as int, i as int),
        decreases n - i,
    {
        let chunk_name_index: u32 = read_u32(data, pos + 8 * i).unwrap();
        let chunk_map_index: u32 = read_u32(data, pos + 8 * i + 4).unwrap();
        out.push(XfbinChunkReference { chunk_name_index, chunk_map_index });
        i += 1;
        assert(out@ =~= chunk_references_at(data@, pos as int, i as int));
    }
    Some(out)
}

/// Appends the table of references.
pub fn put_chunk_references(v: &Vec<XfbinChunkReference>, out: &mut Vec<u8>)
    ensures
        final(out)@ == old(out)@ + chunk_references_wire(v@),
{
    let mut i: usize = 0;
    assert(chunk_references_wire(v@.subrange(0, 0)) =~= Seq::<u8>::empty());
    while i < v.len()
        invariant
            i <= v@.len(),
            out@ == old(out)@ + chunk_references_wire(v@.subrange(0, i as int)),
        decreases v@.len() - i,
    {
        let ghost before = out@;
        push_u32(out, v[i].chunk_name_index);
        push_u32(out, v[i].chunk_map_index);
        proof {
            let next = v@.subrange(0, i + 1);
            assert(next.drop_last() =~= v@.subrange(0, i as int));
            assert(next.last() == v@[i as int]);
            assert(out@ =~= before + chunk_reference_wire(v@[i as int]));
            assert(out@ =~= old(out)@ + chunk_references_wire(next));
        }
        i += 1;
    }
    assert(v@.subrange(0, v@.len() as int) =~= v@);
}

impl XfbinHeader {
    /// Reads the header from the start of a buffer.
    pub fn read(data: &[u8]) -> (r: Result<XfbinHeader, DecodeError>)
        ensures
            r == header_parse(data@),
    {
        if data.len() < 4 {
            return Err(DecodeError::Truncated);
        }
        if data[0] != 0x4E || data[1] != 0x55 || data[2] != 0x43 || data[3] != 0x43 {
            assert(data@.subrange(0, 4)[0] == data@[0]);
            assert(data@.subrange(0, 4)[1] == data@[1]);
            assert(data@.subrange(0, 4)[2] == data@[2]);
            assert(data@.subrange(0, 4)[3] == data@[3]);
            return Err(DecodeError::BadMagic);
        }
        assert(data@.subrange(0, 4) =~= magic());
        if data.len() < 16 {
            return Err(DecodeError::Truncated);
        }
        Ok(XfbinHeader { version: read_u32(data, 4).unwrap(), encrypted: read_u16(data, 8).unwrap() })
    }

    /// Appends the header.
    pub fn put(&self, out: &mut Vec<u8>)
        ensures
            final(out)@ == old(out)@ + header_wire(*self),
    {
        push_u8(out, 0x4E);
        push_u8(out, 0x55);
        push_u8(out, 0x43);
        push_u8(out, 0x43);
        push_u32(out, self.version);
        push_u16(out, self.encrypted);
        push_zeros(out, 6);
        assert(out@ =~= old(out)@ + header_wire(*self));
    }
}

impl XfbinIndex {
    /// The value of the table size field, if it fits 32 bits.
    #[verifier::rlimit(50)]
    pub fn get_chunk_table_size(&self) -> (r: Option<u32>)
        ensures
            match r {
                Some(n) => n == chunk_table_size(self@),
                None => chunk_table_size(self@) > max_u32(),
            },
    {
        proof {
            lemma_strings_wire_len(self@.chunk_types);
            lemma_strings_wire_len(self@.filepaths);
            lemma_strings_wire_len(self@.chunk_names);
        }
        let types: u64 = match strings_byte_size(&self.chunk_types) {
            None => {
                return None;
            },
            Some(n) => n as u64,
        };
        let paths: u64 = match strings_byte_size(&self.filepaths) {
            None => {
                return None;
            },
            Some(n) => n as u64,
        };
        let names: u64 = match strings_byte_size(&self.chunk_names) {
            None => {
                return None;
            },
            Some(n) => n as u64,
        };
        if self.chunk_maps.len() > 0xFFFF_FFFF || self.chunk_map_indices.len() > 0xFFFF_FFFF {
            return None;
        }
        let strings: u64 = types + paths + names;
        let total: u64 = 0x28 + strings + (4 - strings % 4) + 12 * (self.chunk_maps.len() as u64)
            + 4 * (self.chunk_map_indices.len() as u64);
        if total > 0xFFFF_FFFF {
            return None;
        }
        Some(total as u32)
    }

    /// Says whether the index can be written, and why not if it cannot.
    pub fn check(&self) -> (r: Result<(), EncodeError>)
        ensures
            match index_check(self@) {
                None => r.is_ok(),
                Some(e) => r == Err::<(), EncodeError>(e),
            },
    {
        if self.chunk_types.len() > 0xFFFF_FFFF || self.filepaths.len() > 0xFFFF_FFFF
            || self.chunk_names.len() > 0xFFFF_FFFF || self.chunk_references.len()
            > 0xFFFF_FFFF {
            return Err(EncodeError::TooLarge);
        }
        if self.get_chunk_table_size().is_none() {
            return Err(EncodeError::TooLarge);
        }
        if !check_nul_free(&self.chunk_types) || !check_nul_free(&self.filepaths)
            || !check_nul_free(&self.chunk_names) {
            return Err(EncodeError::NulInName);
        }
        Ok(())
    }

    /// Appends the fixed part of an index that can be written.
    #[verifier::rlimit(50)]
    fn put_head(&self, out: &mut Vec<u8>)
        requires
            index_check(self@).is_none(),
        ensures
            final(out)@ == old(out)@ + index_head_wire(self@),
    {
        proof {
            lemma_strings_wire_len(self@.chunk_types);
            lemma_strings_wire_len(self@.filepaths);
            lemma_strings_wire_len(self@.chunk_names);
        }
        let table_size: u32 = self.get_chunk_table_size().unwrap();
        let types: u32 = strings_byte_size(&self.chunk_types).unwrap();
        let paths: u32 = strings_byte_size(&self.filepaths).unwrap();
        let names: u32 = strings_byte_size(&self.chunk_names).unwrap();
        let type_count: u32 = self.chunk_types.len() as u32;
        let path_count: u32 = self.filepaths.len() as u32;
        let name_count: u32 = self.chunk_names.len() as u32;
        let map_count: u32 = self.chunk_maps.len() as u32;
        let map_size: u32 = (12 * self.chunk_maps.len()) as u32;
        let slot_count: u32 = self.chunk_map_indices.len() as u32;
        let reference_count: u32 = self.chunk_references.len() as u32;
        let mut head: Vec<u8> = Vec::new();
        push_u32(&mut head, table_size);
        push_u32(&mut head, self.min_page_size);
        push_u16(&mut head, self.version);
        push_zeros(&mut head, 2);
        push_u32(&mut head, type_count);
        push_u32(&mut head, types);
        push_u32(&mut head, path_count);
        push_u32(&mut head, paths);
        push_u32(&mut head, name_count);
        push_u32(&mut head, names);
        push_u32(&mut head, map_count);
        push_u32(&mut head, map_size);
        push_u32(&mut head, slot_count);
        push_u32(&mut head, reference_count);
        push_bytes(out, head.as_slice());
    }

    /// Appends an index that can be written.
    #[verifier::rlimit(50)]
    pub(crate) fn put(&self, out: &mut Vec<u8>)
        requires
            index_check(self@).is_none(),
        ensures
            final(out)@ == old(out)@ + index_wire(self@),
    {
        proof {
            lemma_strings_wire_len(self@.chunk_types);
            lemma_strings_wire_len(self@.filepaths);
            lemma_strings_wire_len(self@.chunk_names);
        }
        let types: u32 = strings_byte_size(&self.chunk_types).unwrap();
        let paths: u32 = strings_byte_size(&self.filepaths).unwrap();
        let names: u32 = strings_byte_size(&self.chunk_names).unwrap();
        let strings: u64 = types as u64 + paths as u64 + names as u64;
        let pad: usize = ((4 - strings % 4) % 4) as usize;
        assert(pad == pad4(index_strings_size(self@)));
        let mut body: Vec<u8> = Vec::new();
        self.put_head(&mut body);
        put_strings(&self.chunk_types, &mut body);
        put_strings(&self.filepaths, &mut body);
        put_strings(&self.chunk_names, &mut body);
        push_zeros(&mut body, pad);
        put_chunk_maps(&self.chunk_maps, &mut body);
        put_chunk_references(&self.chunk_references, &mut body);
        push_u32s(&mut body, self.chunk_map_indices.as_slice());
        push_bytes(out, body.as_slice());
    }

    /// Reads the index, which starts right after the header. Returns it with the position
    /// after it.
    #[verifier::rlimit(50)]
    pub fn read(data: &[u8]) -> (r: Result<(XfbinIndex, usize), DecodeError>)
        ensures
            match index_parse(data@) {
                Ok((ix, next)) => r matches Ok((x, n)) && x@ == ix && n == next && n
                    <= data@.len(),
                Err(e) => r matches Err(x) && x == e,
            },
    {
        if data.len() < 68 {
            return Err(DecodeError::Truncated);
        }
        let min_page_size: u32 = read_u32(data, 20).unwrap();
        let version: u16 = read_u16(data, 24).unwrap();
        let type_count: usize = read_u32(data, 28).unwrap() as usize;
        let path_count: usize = read_u32(data, 36).unwrap() as usize;
        let name_count: usize = read_u32(data, 44).unwrap() as usize;
        let map_count: usize = read_u32(data, 52).unwrap() as usize;
        let slot_count: usize = read_u32(data, 60).unwrap() as usize;
        let reference_count: usize = read_u32(data, 64).unwrap() as usize;
        let (chunk_types, after_types) = match read_strings(data, 68, type_count) {
            None => {
                return Err(DecodeError::Truncated);
            },
            Some(x) => x,
        };
        let (filepaths, after_paths) = match read_strings(data, after_types, path_count) {
            None => {
                return Err(DecodeError::Truncated);
            },
            Some(x) => x,
        };
        let (chunk_names, after_names) = match read_strings(data, after_paths, name_count) {
            None => {
                return Err(DecodeError::Truncated);
            },
            Some(x) => x,
        };
        let pad: usize = (4 - after_names % 4) % 4;
        if pad > data.len() - after_names {
            return Err(DecodeError::Truncated);
        }
        let tables_at: usize = after_names + pad;
        let chunk_maps = match read_chunk_maps(data, tables_at, map_count) {
            None => {
                return Err(DecodeError::Truncated);
            },
            Some(x) => x,
        };
        let references_at: usize = tables_at + 12 * map_count;
        let chunk_references = match read_chunk_references(data, references_at, reference_count) {
            None => {
                return Err(DecodeError::Truncated);
            },
            Some(x) => x,
        };
        let slots_at: usize = references_at + 8 * reference_count;
        let chunk_map_indices = match read_u32s(data, slots_at, slot_count) {
            None => {
                return Err(DecodeError::Truncated);
            },
            Some(x) => x,
        };
        Ok(
            (
                XfbinIndex {
                    min_page_size,
                    version,
                    chunk_types,
                    filepaths,
                    chunk_names,
                    chunk_maps,
                    chunk_references,
                    chunk_map_indices,
                },
                slots_at + 4 * slot_count,
            ),
        )
    }
}


/// The frames read so far, followed by what reading the rest gives.
pub open spec fn frames_after(head: Seq<XfbinChunkView>, rest: Result<
    Seq<XfbinChunkView>,
    DecodeError,
>) -> Result<Seq<XfbinChunkView>, DecodeError> {
    match rest {
        Ok(tail) => Ok(head + tail),
        Err(e) => Err(e),
    }
}

/// Reads chunk frames back to back from `pos` to the end of the buffer.
#[verifier::rlimit(50)]
pub fn read_frames(data: &[u8], pos: usize) -> (r: Result<Vec<XfbinChunk>, DecodeError>)
    ensures
        match frames_parse(data@, pos as int) {
            Ok(v) => r matches Ok(x) && chunks_view(x@) == v,
            Err(e) => r matches Err(x) && x == e,
        },
{
    let mut out: Vec<XfbinChunk> = Vec::new();
    let mut p: usize = pos;
    assert(chunks_view(out@) =~= Seq::<XfbinChunkView>::empty());
    assert(frames_after(chunks_view(out@), frames_parse(data@, p as int)) == frames_parse(
        data@,
        pos as int,
    )) by {
        match frames_parse(data@, p as int) {
            Ok(tail) => {
                assert(chunks_view(out@) + tail =~= tail);
            },
            Err(e) => {},
        }
    }
    while p < data.len()
        invariant
            pos <= p,
            frames_parse(data@, pos as int) == frames_after(
                chunks_view(out@),
                frames_parse(data@, p as int),
            ),
        decreases data@.len() - p,
    {
        if 12 > data.len() - p {
            return Err(DecodeError::Truncated);
        }
        let size: usize = read_u32(data, p).unwrap() as usize;
        let chunk_map_index: u32 = read_u32(data, p + 4).unwrap();
        let version: u16 = read_u16(data, p + 8).unwrap();
        let payload = match read_bytes(data, p + 12, size) {
            None => {
                return Err(DecodeError::Truncated);
            },
            Some(b) => b,
        };
        let ghost before = out@;
        let ghost next = p + 12 + size;
        let frame = XfbinChunk { chunk_map_index, version, data: payload };
        out.push(frame);
        proof {
            assert(chunks_view(out@) =~= chunks_view(before).push(frame@));
            match frames_parse(data@, next as int) {
                Ok(tail) => {
                    assert(chunks_view(before) + (seq![frame@] + tail) =~= chunks_view(out@)
                        + tail);
                },
                Err(e) => {},
            }
        }
        p = p + 12 + size;
    }
    assert(chunks_view(out@) + Seq::<XfbinChunkView>::empty() =~= chunks_view(out@));
    Ok(out)
}

/// Says whether every payload of a run of frames has a size that fits 32 bits.
pub fn check_frames(v: &Vec<XfbinChunk>) -> (r: bool)
    ensures
        r == frames_fit(chunks_view(v@)),
{
    let mut i: usize = 0;
    while i < v.len()
        invariant
            i <= v@.len(),
            forall|j: int| 0 <= j < i ==> (#[trigger] chunks_view(v@)[j]).data.len() <= max_u32(),
        decreases v@.len() - i,
    {
        if v[i].data.len() > 0xFFFF_FFFF {
            assert(chunks_view(v@)[i as int].data.len() > max_u32());
            return false;
        }
        i += 1;
    }
    true
}

/// Appends a run of chunk frames whose payloads fit.
pub(crate) fn put_frames(v: &Vec<XfbinChunk>, out: &mut Vec<u8>)
    requires
        frames_fit(chunks_view(v@)),
    ensures
        final(out)@ == old(out)@ + frames_wire(chunks_view(v@)),
{
    let mut i: usize = 0;
    let ghost all = chunks_view(v@);
    assert(frames_wire(all.subrange(0, 0)) =~= Seq::<u8>::empty());
    while i < v.len()
        invariant
            i <= v@.len(),
            all == chunks_view(v@),
            frames_fit(all),
            out@ == old(out)@ + frames_wire(all.subrange(0, i as int)),
        decreases v@.len() - i,
    {
        let ghost before = out@;
        assert(all[i as int].data.len() <= max_u32());
        push_u32(out, v[i].data.len() as u32);
        push_u32(out, v[i].chunk_map_index);
        push_u16(out, v[i].version);
        push_zeros(out, 2);
        push_bytes(out, v[i].data.as_slice());
        proof {
            let next = all.subrange(0, i + 1);
            assert(next.drop_last() =~= all.subrange(0, i as int));
            assert(next.last() == v@[i as int]@);
            assert(out@ =~= before + frame_wire(v@[i as int]@));
            assert(out@ =~= old(out)@ + frames_wire(next));
        }
        i += 1;
    }
    assert(all.subrange(0, all.len() as int) =~= all);
}

impl XfbinChunk {
    /// Decodes the frame's payload as a chunk of the kind that the tag `chunk_type` names.
    /// The frame's version is handed to the chunk.
    pub fn unpack(&self, chunk_type: &[u8]) -> (r: Result<NuccChunk, DecodeError>)
        ensures
            match chunk_parse(self.data@, chunk_type@, self.version) {
                Ok(c) => r matches Ok(x) && x@ == c,
                Err(e) => r matches Err(x) && x == e,
            },
    {
        NuccChunkType::read_data(self.data.as_slice(), chunk_type, self.version)
    }

    /// Frames a chunk: the payload is the chunk's encoding, the version the chunk's own,
    /// and the slot is 0 until the chunk is given its place in a page.
    pub fn repack(chunk: &NuccChunk) -> (r: Result<XfbinChunk, EncodeError>)
        ensures
            match chunk_check(chunk@) {
                None => r matches Ok(x) && x@ == (XfbinChunkView {
                    chunk_map_index: 0,
                    version: chunk@.version(),
                    data: chunk_wire(chunk@),
                }),
                Some(e) => r matches Err(x) && x == e,
            },
    {
        match NuccChunkType::write_data(chunk) {
            Err(e) => Err(e),
            Ok(data) => Ok(XfbinChunk { chunk_map_index: 0, version: chunk.version(), data }),
        }
    }
}

impl XfbinFile {
    /// Decodes a whole container. Any malformed or truncated part is an error, and nothing
    /// is returned of a container that is not read to its end.
    pub fn read(data: &[u8]) -> (r: Result<XfbinFile, DecodeError>)
        ensures
            match file_parse(data@) {
                Ok(f) => r matches Ok(x) && x@ == f,
                Err(e) => r matches Err(x) && x == e,
            },
    {
        let header = match XfbinHeader::read(data) {
            Err(e) => {
                return Err(e);
            },
            Ok(h) => h,
        };
        let (index, p) = match XfbinIndex::read(data) {
            Err(e) => {
                return Err(e);
            },
            Ok(x) => x,
        };
        let chunks = match read_frames(data, p) {
            Err(e) => {
                return Err(e);
            },
            Ok(c) => c,
        };
        Ok(XfbinFile { header, index, chunks })
    }

    /// Encodes a whole container. Every size and count field is computed from the tables
    /// and payloads as they are.
    pub fn write(&self) -> (r: Result<Vec<u8>, EncodeError>)
        ensures
            match file_check(self@) {
                None => r matches Ok(v) && v@ == file_wire(self@),
                Some(e) => r matches Err(x) && x == e,
            },
    {
        match self.index.check() {
            Err(e) => {
                return Err(e);
            },
            Ok(()) => {},
        }
        if !check_frames(&self.chunks) {
            return Err(EncodeError::TooLarge);
        }
        let mut out: Vec<u8> = Vec::new();
        self.header.put(&mut out);
        self.index.put(&mut out);
        put_frames(&self.chunks, &mut out);
        assert(out@ =~= file_wire(self@));
        Ok(out)
    }
}


/// The header is read back from the bytes it was written as.
pub proof fn lemma_header_round_trip(s: Seq<u8>, h: XfbinHeader)
    requires
        has_at(s, 0, header_wire(h)),
    ensures
        header_parse(s) == Ok::<XfbinHeader, DecodeError>(h),
{
    let a = magic();
    let b = u32_wire(h.version);
    let c = u16_wire(h.encrypted);
    lemma_has_at_concat(s, 0, a + b + c, zeros(6));
    lemma_has_at_concat(s, 0, a + b, c);
    lemma_has_at_concat(s, 0, a, b);
    lemma_u32_round_trip(s, 4, h.version);
    lemma_u16_round_trip(s, 8, h.encrypted);
}

/// Before the NUL that ends a string without NUL bytes, the first NUL is that NUL.
pub proof fn lemma_first_nul_of_string(s: Seq<u8>, pos: int, x: Seq<u8>, k: int)
    requires
        nul_free(x),
        has_at(s, pos, string_wire(x)),
        0 <= k <= x.len(),
    ensures
        first_nul(s, pos + k) == pos + x.len(),
    decreases x.len() - k,
{
    let w = string_wire(x);
    assert(s.subrange(pos, pos + w.len())[k] == s[pos + k]);
    if k < x.len() {
        assert(w[k] == x[k]);
        lemma_first_nul_of_string(s, pos, x, k + 1);
    } else {
        assert(w[k] == 0);
    }
}

/// A string without NUL bytes is read back from the bytes it was written as.
pub proof fn lemma_string_round_trip(s: Seq<u8>, pos: int, x: Seq<u8>)
    requires
        nul_free(x),
        has_at(s, pos, string_wire(x)),
    ensures
        string_parse(s, pos) == Some((x, pos + x.len() + 1)),
{
    lemma_first_nul_of_string(s, pos, x, 0);
    lemma_has_at_concat(s, pos, x, seq![0u8]);
}

/// The first `k` strings of a table without NUL bytes are read back from the bytes they
/// were written as.
pub proof fn lemma_strings_round_trip(s: Seq<u8>, pos: int, v: Seq<Seq<u8>>, k: nat)
    requires
        k <= v.len(),
        strings_nul_free(v),
        has_at(s, pos, strings_wire(v.subrange(0, k as int))),
    ensures
        strings_parse(s, pos, k) == Some(
            (v.subrange(0, k as int), pos + strings_wire(v.subrange(0, k as int)).len()),
        ),
    decreases k,
{
    let cur = v.subrange(0, k as int);
    if k == 0 {
        assert(cur =~= Seq::<Seq<u8>>::empty());
    } else {
        let head = v.subrange(0, k - 1);
        assert(cur.drop_last() =~= head);
        assert(cur.last() == v[k - 1]);
        lemma_has_at_concat(s, pos, strings_wire(head), string_wire(v[k - 1]));
        lemma_strings_round_trip(s, pos, v, (k - 1) as nat);
        lemma_string_round_trip(s, pos + strings_wire(head).len(), v[k - 1]);
        assert(head.push(v[k - 1]) =~= cur);
    }
}

/// The table of identities is read back from the bytes it was written as.
pub proof fn lemma_chunk_maps_round_trip(s: Seq<u8>, pos: int, v: Seq<XfbinChunkMap>)
    requires
        has_at(s, pos, chunk_maps_wire(v)),
    ensures
        chunk_maps_at(s, pos, v.len() as int) == v,
        chunk_maps_wire(v).len() == 12 * v.len(),
    decreases v.len(),
{
    if v.len() > 0 {
        let head = v.drop_last();
        let last = v.last();
        lemma_has_at_concat(s, pos, chunk_maps_wire(head), chunk_map_wire(last));
        lemma_chunk_maps_round_trip(s, pos, head);
        let p = pos + 12 * head.len();
        lemma_has_at_concat(
            s,
            p,
            u32_wire(last.chunk_type_index) + u32_wire(last.filepath_index),
            u32_wire(last.chunk_name_index),
        );
        lemma_has_at_concat(s, p, u32_wire(last.chunk_type_index), u32_wire(last.filepath_index));
        lemma_u32_round_trip(s, p, last.chunk_type_index);
        lemma_u32_round_trip(s, p + 4, last.filepath_index);
        lemma_u32_round_trip(s, p + 8, last.chunk_name_index);
        assert forall|i: int| 0 <= i < v.len() implies chunk_maps_at(s, pos, v.len() as int)[i]
            == v[i] by {
            if i < head.len() {
                assert(chunk_maps_at(s, pos, head.len() as int)[i] == head[i]);
            }
        }
    }
    assert(chunk_maps_at(s, pos, v.len() as int) =~= v);
}

/// The table of references is read back from the bytes it was written as.
pub proof fn lemma_chunk_references_round_trip(s: Seq<u8>, pos: int, v: Seq<XfbinChunkReference>)
    requires
        has_at(s, pos, chunk_references_wire(v)),
    ensures
        chunk_references_at(s, pos, v.len() as int) == v,
        chunk_references_wire(v).len() == 8 * v.len(),
    decreases v.len(),
{
    if v.len() > 0 {
        let head = v.drop_last();
        let last = v.last();
        lemma_has_at_concat(s, pos, chunk_references_wire(head), chunk_reference_wire(last));
        lemma_chunk_references_round_trip(s, pos, head);
        let p = pos + 8 * head.len();
        lemma_has_at_concat(s, p, u32_wire(last.chunk_name_index), u32_wire(last.chunk_map_index));
        lemma_u32_round_trip(s, p, last.chunk_name_index);
        lemma_u32_round_trip(s, p + 4, last.chunk_map_index);
        assert forall|i: int| 0 <= i < v.len() implies chunk_references_at(
            s,
            pos,
            v.len() as int,
        )[i] == v[i] by {
            if i < head.len() {
                assert(chunk_references_at(s, pos, head.len() as int)[i] == head[i]);
            }
        }
    }
    assert(chunk_references_at(s, pos, v.len() as int) =~= v);
}

/// The bytes of the fixed part of an index with the given field values.
pub open spec fn head_wire(
    table_size: u32,
    min_page_size: u32,
    version: u16,
    type_count: u32,
    type_size: u32,
    path_count: u32,
    path_size: u32,
    name_count: u32,
    name_size: u32,
    map_count: u32,
    map_size: u32,
    slot_count: u32,
    reference_count: u32,
) -> Seq<u8> {
    u32_wire(table_size) + u32_wire(min_page_size) + u16_wire(version) + zeros(2) + u32_wire(
        type_count,
    ) + u32_wire(type_size) + u32_wire(path_count) + u32_wire(path_size) + u32_wire(name_count)
        + u32_wire(name_size) + u32_wire(map_count) + u32_wire(map_size) + u32_wire(slot_count)
        + u32_wire(reference_count)
}

/// Where the fields of the fixed part of an index stand.
#[verifier::rlimit(40)]
pub proof fn lemma_head_places(
    s: Seq<u8>,
    table_size: u32,
    min_page_size: u32,
    version: u16,
    type_count: u32,
    type_size: u32,
    path_count: u32,
    path_size: u32,
    name_count: u32,
    name_size: u32,
    map_count: u32,
    map_size: u32,
    slot_count: u32,
    reference_count: u32,
)
    requires
        has_at(
            s,
            16,
            head_wire(
                table_size,
                min_page_size,
                version,
                type_count,
                type_size,
                path_count,
                path_size,
                name_count,
                name_size,
                map_count,
                map_size,
                slot_count,
                reference_count,
            ),
        ),
    ensures
        has_at(s, 20, u32_wire(min_page_size)),
        has_at(s, 24, u16_wire(version)),
        has_at(s, 28, u32_wire(type_count)),
        has_at(s, 36, u32_wire(path_count)),
        has_at(s, 44, u32_wire(name_count)),
        has_at(s, 52, u32_wire(map_count)),
        has_at(s, 60, u32_wire(slot_count)),
        has_at(s, 64, u32_wire(reference_count)),
        in_bounds(s, 16, 52),
{
    let w0 = u32_wire(table_size);
    let w1 = u32_wire(min_page_size);
    let w2 = u16_wire(version);
    let w3 = zeros(2);
    let w4 = u32_wire(type_count);
    let w5 = u32_wire(type_size);
    let w6 = u32_wire(path_count);
    let w7 = u32_wire(path_size);
    let w8 = u32_wire(name_count);
    let w9 = u32_wire(name_size);
    let w10 = u32_wire(map_count);
    let w11 = u32_wire(map_size);
    let w12 = u32_wire(slot_count);
    let w13 = u32_wire(reference_count);
    assert(w0.len() == 4 && w1.len() == 4 && w2.len() == 2 && w3.len() == 2 && w4.len() == 4
        && w5.len() == 4 && w6.len() == 4);
    assert(w7.len() == 4 && w8.len() == 4 && w9.len() == 4 && w10.len() == 4 && w11.len() == 4
        && w12.len() == 4 && w13.len() == 4);
    lemma_has_at_concat(s, 16, w0 + w1 + w2 + w3 + w4 + w5 + w6 + w7 + w8 + w9 + w10 + w11 + w12, w13);
    lemma_has_at_concat(s, 16, w0 + w1 + w2 + w3 + w4 + w5 + w6 + w7 + w8 + w9 + w10 + w11, w12);
    lemma_has_at_concat(s, 16, w0 + w1 + w2 + w3 + w4 + w5 + w6 + w7 + w8 + w9 + w10, w11);
    lemma_has_at_concat(s, 16, w0 + w1 + w2 + w3 + w4 + w5 + w6 + w7 + w8 + w9, w10);
    lemma_has_at_concat(s, 16, w0 + w1 + w2 + w3 + w4 + w5 + w6 + w7 + w8, w9);
    lemma_has_at_concat(s, 16, w0 + w1 + w2 + w3 + w4 + w5 + w6 + w7, w8);
    lemma_has_at_concat(s, 16, w0 + w1 + w2 + w3 + w4 + w5 + w6, w7);
    lemma_has_at_concat(s, 16, w0 + w1 + w2 + w3 + w4 + w5, w6);
    lemma_has_at_concat(s, 16, w0 + w1 + w2 + w3 + w4, w5);
    lemma_has_at_concat(s, 16, w0 + w1 + w2 + w3, w4);
    lemma_has_at_concat(s, 16, w0 + w1 + w2, w3);
    lemma_has_at_concat(s, 16, w0 + w1, w2);
    lemma_has_at_concat(s, 16, w0, w1);
}

/// The fields of the fixed part of an index are read back from the bytes they were
/// written as.
pub proof fn lemma_head_fields(
    s: Seq<u8>,
    table_size: u32,
    min_page_size: u32,
    version: u16,
    type_count: u32,
    type_size: u32,
    path_count: u32,
    path_size: u32,
    name_count: u32,
    name_size: u32,
    map_count: u32,
    map_size: u32,
    slot_count: u32,
    reference_count: u32,
)
    requires
        has_at(
            s,
            16,
            head_wire(
                table_size,
                min_page_size,
                version,
                type_count,
                type_size,
                path_count,
                path_size,
                name_count,
                name_size,
                map_count,
                map_size,
                slot_count,
                reference_count,
            ),
        ),
    ensures
        in_bounds(s, 16, 52),
        u32_at(s, 20) == min_page_size,
        u16_at(s, 24) == version,
        u32_at(s, 28) == type_count,
        u32_at(s, 36) == path_count,
        u32_at(s, 44) == name_count,
        u32_at(s, 52) == map_count,
        u32_at(s, 60) == slot_count,
        u32_at(s, 64) == reference_count,
{
    lemma_head_places(
        s,
        table_size,
        min_page_size,
        version,
        type_count,
        type_size,
        path_count,
        path_size,
        name_count,
        name_size,
        map_count,
        map_size,
        slot_count,
        reference_count,
    );
    lemma_u32_round_trip(s, 20, min_page_size);
    lemma_u16_round_trip(s, 24, version);
    lemma_u32_round_trip(s, 28, type_count);
    lemma_u32_round_trip(s, 36, path_count);
    lemma_u32_round_trip(s, 44, name_count);
    lemma_u32_round_trip(s, 52, map_count);
    lemma_u32_round_trip(s, 60, slot_count);
    lemma_u32_round_trip(s, 64, reference_count);
}

/// Where each part of an index that is written at position 16 stands.
#[verifier::rlimit(50)]
pub proof fn lemma_index_parts(s: Seq<u8>, ix: XfbinIndexView)
    requires
        has_at(s, 16, index_wire(ix)),
        index_head_wire(ix).len() == 52,
    ensures
        has_at(s, 16, index_head_wire(ix)),
        has_at(s, 68, strings_wire(ix.chunk_types)),
        has_at(s, 68 + strings_wire(ix.chunk_types).len() as int, strings_wire(ix.filepaths)),
        has_at(
            s,
            68 + strings_wire(ix.chunk_types).len() + strings_wire(ix.filepaths).len() as int,
            strings_wire(ix.chunk_names),
        ),
        has_at(
            s,
            68 + strings_wire(ix.chunk_types).len() + strings_wire(ix.filepaths).len()
                + strings_wire(ix.chunk_names).len() + pad4(index_strings_size(ix)),
            chunk_maps_wire(ix.chunk_maps),
        ),
        has_at(
            s,
            68 + strings_wire(ix.chunk_types).len() + strings_wire(ix.filepaths).len()
                + strings_wire(ix.chunk_names).len() + pad4(index_strings_size(ix))
                + chunk_maps_wire(ix.chunk_maps).len(),
            chunk_references_wire(ix.chunk_references),
        ),
        has_at(
            s,
            68 + strings_wire(ix.chunk_types).len() + strings_wire(ix.filepaths).len()
                + strings_wire(ix.chunk_names).len() + pad4(index_strings_size(ix))
                + chunk_maps_wire(ix.chunk_maps).len() + chunk_references_wire(
                ix.chunk_references,
            ).len(),
            u32s_wire(ix.chunk_map_indices),
        ),
        index_wire(ix).len() == 52 + strings_wire(ix.chunk_types).len() + strings_wire(
            ix.filepaths,
        ).len() + strings_wire(ix.chunk_names).len() + pad4(index_strings_size(ix))
            + chunk_maps_wire(ix.chunk_maps).len() + chunk_references_wire(
            ix.chunk_references,
        ).len() + u32s_wire(ix.chunk_map_indices).len(),
{
    let h = index_head_wire(ix);
    let t = strings_wire(ix.chunk_types);
    let f = strings_wire(ix.filepaths);
    let n = strings_wire(ix.chunk_names);
    let z = zeros(pad4(index_strings_size(ix)));
    let m = chunk_maps_wire(ix.chunk_maps);
    let r = chunk_references_wire(ix.chunk_references);
    let c = u32s_wire(ix.chunk_map_indices);
    lemma_has_at_concat(s, 16, h + t + f + n + z + m + r, c);
    lemma_has_at_concat(s, 16, h + t + f + n + z + m, r);
    lemma_has_at_concat(s, 16, h + t + f + n + z, m);
    lemma_has_at_concat(s, 16, h + t + f + n, z);
    lemma_has_at_concat(s, 16, h + t + f, n);
    lemma_has_at_concat(s, 16, h + t, f);
    lemma_has_at_concat(s, 16, h, t);
}

/// The value of each count of the fixed part of an index that can be written.
pub proof fn lemma_index_counts(s: Seq<u8>, ix: XfbinIndexView)
    requires
        index_check(ix).is_none(),
        has_at(s, 16, index_head_wire(ix)),
    ensures
        in_bounds(s, 16, 52),
        u32_at(s, 20) == ix.min_page_size,
        u16_at(s, 24) == ix.version,
        u32_at(s, 28) == ix.chunk_types.len(),
        u32_at(s, 36) == ix.filepaths.len(),
        u32_at(s, 44) == ix.chunk_names.len(),
        u32_at(s, 52) == ix.chunk_maps.len(),
        u32_at(s, 60) == ix.chunk_map_indices.len(),
        u32_at(s, 64) == ix.chunk_references.len(),
{
    lemma_strings_wire_len(ix.chunk_types);
    lemma_strings_wire_len(ix.filepaths);
    lemma_strings_wire_len(ix.chunk_names);
    lemma_head_fields(
        s,
        chunk_table_size(ix) as u32,
        ix.min_page_size,
        ix.version,
        ix.chunk_types.len() as u32,
        strings_size(ix.chunk_types) as u32,
        ix.filepaths.len() as u32,
        strings_size(ix.filepaths) as u32,
        ix.chunk_names.len() as u32,
        strings_size(ix.chunk_names) as u32,
        ix.chunk_maps.len() as u32,
        (12 * ix.chunk_maps.len()) as u32,
        ix.chunk_map_indices.len() as u32,
        ix.chunk_references.len() as u32,
    );
}

/// The fixed part of an index is 52 bytes, whatever its fields are.
pub proof fn lemma_head_len(
    table_size: u32,
    min_page_size: u32,
    version: u16,
    type_count: u32,
    type_size: u32,
    path_count: u32,
    path_size: u32,
    name_count: u32,
    name_size: u32,
    map_count: u32,
    map_size: u32,
    slot_count: u32,
    reference_count: u32,
)
    ensures
        head_wire(
            table_size,
            min_page_size,
            version,
            type_count,
            type_size,
            path_count,
            path_size,
            name_count,
            name_size,
            map_count,
            map_size,
            slot_count,
            reference_count,
        ).len() == 52,
{
}

/// The fixed part of every index is 52 bytes.
pub proof fn lemma_index_head_len(ix: XfbinIndexView)
    ensures
        index_head_wire(ix).len() == 52,
{
    lemma_head_len(
        chunk_table_size(ix) as u32,
        ix.min_page_size,
        ix.version,
        ix.chunk_types.len() as u32,
        strings_size(ix.chunk_types) as u32,
        ix.filepaths.len() as u32,
        strings_size(ix.filepaths) as u32,
        ix.chunk_names.len() as u32,
        strings_size(ix.chunk_names) as u32,
        ix.chunk_maps.len() as u32,
        (12 * ix.chunk_maps.len()) as u32,
        ix.chunk_map_indices.len() as u32,
        ix.chunk_references.len() as u32,
    );
}

/// An index is what is read from a buffer in which its fields and tables stand where the
/// counts before them say.
#[verifier::rlimit(50)]
pub proof fn lemma_index_read(s: Seq<u8>, ix: XfbinIndexView, after_types: int, after_paths: int, after_names: int, tables_at: int)
    requires
        in_bounds(s, 16, 52),
        u32_at(s, 20) == ix.min_page_size,
        u16_at(s, 24) == ix.version,
        u32_at(s, 28) == ix.chunk_types.len(),
        u32_at(s, 36) == ix.filepaths.len(),
        u32_at(s, 44) == ix.chunk_names.len(),
        u32_at(s, 52) == ix.chunk_maps.len(),
        u32_at(s, 60) == ix.chunk_map_indices.len(),
        u32_at(s, 64) == ix.chunk_references.len(),
        strings_parse(s, 68, ix.chunk_types.len()) == Some((ix.chunk_types, after_types)),
        strings_parse(s, after_types, ix.filepaths.len()) == Some((ix.filepaths, after_paths)),
        strings_parse(s, after_paths, ix.chunk_names.len()) == Some((ix.chunk_names, after_names)),
        tables_at == after_names + pad4(after_names),
        in_bounds(
            s,
            tables_at,
            12 * ix.chunk_maps.len() + 8 * ix.chunk_references.len() + 4
                * ix.chunk_map_indices.len() as int,
        ),
        chunk_maps_at(s, tables_at, ix.chunk_maps.len() as int) == ix.chunk_maps,
        chunk_references_at(
            s,
            tables_at + 12 * ix.chunk_maps.len(),
            ix.chunk_references.len() as int,
        ) == ix.chunk_references,
        u32s_at(
            s,
            tables_at + 12 * ix.chunk_maps.len() + 8 * ix.chunk_references.len(),
            ix.chunk_map_indices.len() as int,
        ) == ix.chunk_map_indices,
    ensures
        index_parse(s) == Ok::<(XfbinIndexView, int), DecodeError>(
            (
                ix,
                tables_at + 12 * ix.chunk_maps.len() + 8 * ix.chunk_references.len() + 4
                    * ix.chunk_map_indices.len(),
            ),
        ),
{
}

/// The padding after strings that start at position 68 is the padding of their size.
pub proof fn lemma_pad_after_strings(size: int)
    requires
        size >= 0,
    ensures
        pad4(68 + size) == pad4(size),
{
}

/// The tables of an index are read back from the places where they were written.
#[verifier::rlimit(50)]
pub proof fn lemma_index_tables(s: Seq<u8>, ix: XfbinIndexView, after_types: int, after_paths: int, after_names: int, tables_at: int)
    requires
        strings_nul_free(ix.chunk_types),
        strings_nul_free(ix.filepaths),
        strings_nul_free(ix.chunk_names),
        after_types == 68 + strings_wire(ix.chunk_types).len(),
        after_paths == after_types + strings_wire(ix.filepaths).len(),
        after_names == after_paths + strings_wire(ix.chunk_names).len(),
        tables_at == after_names + pad4(after_names),
        has_at(s, 68, strings_wire(ix.chunk_types)),
        has_at(s, after_types, strings_wire(ix.filepaths)),
        has_at(s, after_paths, strings_wire(ix.chunk_names)),
        has_at(s, tables_at, chunk_maps_wire(ix.chunk_maps)),
        has_at(
            s,
            tables_at + chunk_maps_wire(ix.chunk_maps).len(),
            chunk_references_wire(ix.chunk_references),
        ),
        has_at(
            s,
            tables_at + chunk_maps_wire(ix.chunk_maps).len() + chunk_references_wire(
                ix.chunk_references,
            ).len(),
            u32s_wire(ix.chunk_map_indices),
        ),
    ensures
        strings_parse(s, 68, ix.chunk_types.len()) == Some((ix.chunk_types, after_types)),
        strings_parse(s, after_types, ix.filepaths.len()) == Some((ix.filepaths, after_paths)),
        strings_parse(s, after_paths, ix.chunk_names.len()) == Some((ix.chunk_names, after_names)),
        chunk_maps_wire(ix.chunk_maps).len() == 12 * ix.chunk_maps.len(),
        chunk_references_wire(ix.chunk_references).len() == 8 * ix.chunk_references.len(),
        u32s_wire(ix.chunk_map_indices).len() == 4 * ix.chunk_map_indices.len(),
        in_bounds(
            s,
            tables_at,
            12 * ix.chunk_maps.len() + 8 * ix.chunk_references.len() + 4
                * ix.chunk_map_indices.len() as int,
        ),
        chunk_maps_at(s, tables_at, ix.chunk_maps.len() as int) == ix.chunk_maps,
        chunk_references_at(
            s,
            tables_at + 12 * ix.chunk_maps.len(),
            ix.chunk_references.len() as int,
        ) == ix.chunk_references,
        u32s_at(
            s,
            tables_at + 12 * ix.chunk_maps.len() + 8 * ix.chunk_references.len(),
            ix.chunk_map_indices.len() as int,
        ) == ix.chunk_map_indices,
{
    assert(ix.chunk_types.subrange(0, ix.chunk_types.len() as int) =~= ix.chunk_types);
    assert(ix.filepaths.subrange(0, ix.filepaths.len() as int) =~= ix.filepaths);
    assert(ix.chunk_names.subrange(0, ix.chunk_names.len() as int) =~= ix.chunk_names);
    lemma_strings_round_trip(s, 68, ix.chunk_types, ix.chunk_types.len());
    lemma_strings_round_trip(s, after_types, ix.filepaths, ix.filepaths.len());
    lemma_strings_round_trip(s, after_paths, ix.chunk_names, ix.chunk_names.len());
    lemma_chunk_maps_round_trip(s, tables_at, ix.chunk_maps);
    lemma_chunk_references_round_trip(
        s,
        tables_at + chunk_maps_wire(ix.chunk_maps).len(),
        ix.chunk_references,
    );
    lemma_u32s_round_trip(
        s,
        tables_at + chunk_maps_wire(ix.chunk_maps).len() + chunk_references_wire(
            ix.chunk_references,
        ).len(),
        ix.chunk_map_indices,
    );
}

/// An index that can be written is read back from the bytes it was written as, and
/// reading stops right after them.
#[verifier::rlimit(50)]
pub proof fn lemma_index_round_trip(s: Seq<u8>, ix: XfbinIndexView)
    requires
        index_check(ix).is_none(),
        has_at(s, 16, index_wire(ix)),
    ensures
        index_parse(s) == Ok::<(XfbinIndexView, int), DecodeError>(
            (ix, 16 + index_wire(ix).len() as int),
        ),
{
    lemma_index_head_len(ix);
    lemma_index_parts(s, ix);
    lemma_index_counts(s, ix);
    lemma_strings_wire_len(ix.chunk_types);
    lemma_strings_wire_len(ix.filepaths);
    lemma_strings_wire_len(ix.chunk_names);
    let after_types: int = 68 + strings_wire(ix.chunk_types).len() as int;
    let after_paths: int = after_types + strings_wire(ix.filepaths).len() as int;
    let after_names: int = after_paths + strings_wire(ix.chunk_names).len() as int;
    lemma_pad_after_strings(index_strings_size(ix));
    let tables_at: int = after_names + pad4(after_names);
    lemma_index_tables(s, ix, after_types, after_paths, after_names, tables_at);
    lemma_index_read(s, ix, after_types, after_paths, after_names, tables_at);
}

/// A chunk frame whose payload fits is read back from the bytes it was written as.
pub proof fn lemma_frame_round_trip(s: Seq<u8>, pos: int, c: XfbinChunkView)
    requires
        c.data.len() <= max_u32(),
        has_at(s, pos, frame_wire(c)),
    ensures
        frame_parse(s, pos) == Some((c, pos + frame_wire(c).len())),
        frame_wire(c).len() == 12 + c.data.len(),
{
    let a = u32_wire(c.data.len() as u32);
    let b = u32_wire(c.chunk_map_index);
    let v = u16_wire(c.version);
    lemma_has_at_concat(s, pos, a + b + v + zeros(2), c.data);
    lemma_has_at_concat(s, pos, a + b + v, zeros(2));
    lemma_has_at_concat(s, pos, a + b, v);
    lemma_has_at_concat(s, pos, a, b);
    lemma_u32_round_trip(s, pos, c.data.len() as u32);
    lemma_u32_round_trip(s, pos + 4, c.chunk_map_index);
    lemma_u16_round_trip(s, pos + 8, c.version);
}

/// A run of chunk frames is written as its first frame and then the others.
pub proof fn lemma_frames_wire_front(v: Seq<XfbinChunkView>)
    requires
        v.len() > 0,
    ensures
        frames_wire(v) == frame_wire(v[0]) + frames_wire(v.subrange(1, v.len() as int)),
    decreases v.len(),
{
    let rest = v.subrange(1, v.len() as int);
    if v.len() == 1 {
        assert(v.drop_last() =~= Seq::<XfbinChunkView>::empty());
        assert(rest =~= Seq::<XfbinChunkView>::empty());
        assert(frames_wire(v) =~= frame_wire(v[0]) + frames_wire(rest));
    } else {
        let head = v.drop_last();
        lemma_frames_wire_front(head);
        assert(head.subrange(1, head.len() as int) =~= rest.drop_last());
        assert(rest.last() == v.last());
        assert(head[0] == v[0]);
        assert(frames_wire(v) =~= frame_wire(v[0]) + frames_wire(rest));
    }
}

/// A run of chunk frames whose payloads fit is read back from the bytes it was written
/// as, where the buffer ends with them.
pub proof fn lemma_frames_round_trip(s: Seq<u8>, pos: int, v: Seq<XfbinChunkView>)
    requires
        frames_fit(v),
        has_at(s, pos, frames_wire(v)),
        pos + frames_wire(v).len() == s.len(),
    ensures
        frames_parse(s, pos) == Ok::<Seq<XfbinChunkView>, DecodeError>(v),
    decreases v.len(),
{
    if v.len() == 0 {
        assert(v =~= Seq::<XfbinChunkView>::empty());
    } else {
        let rest = v.subrange(1, v.len() as int);
        lemma_frames_wire_front(v);
        lemma_has_at_concat(s, pos, frame_wire(v[0]), frames_wire(rest));
        lemma_frame_round_trip(s, pos, v[0]);
        assert forall|i: int| 0 <= i < rest.len() implies (#[trigger] rest[i]).data.len()
            <= max_u32() by {
            assert(rest[i] == v[i + 1]);
        }
        lemma_frames_round_trip(s, pos + frame_wire(v[0]).len(), rest);
        assert(seq![v[0]] + rest =~= v);
    }
}

/// Where each of three parts of a buffer stands.
pub proof fn lemma_three_parts(a: Seq<u8>, b: Seq<u8>, c: Seq<u8>)
    ensures
        has_at(a + b + c, 0, a),
        has_at(a + b + c, a.len() as int, b),
        has_at(a + b + c, a.len() + b.len() as int, c),
        (a + b + c).len() == a.len() + b.len() + c.len(),
{
    let s = a + b + c;
    lemma_has_at_whole(s);
    lemma_has_at_concat(s, 0, a + b, c);
    lemma_has_at_concat(s, 0, a, b);
}

/// Every header is 16 bytes.
pub proof fn lemma_header_len(h: XfbinHeader)
    ensures
        header_wire(h).len() == 16,
{
}

/// Decoding inverts encoding: a container that can be written is decoded from the bytes
/// it was written as to the container itself.
pub proof fn lemma_file_round_trip(f: XfbinFileView)
    requires
        file_check(f).is_none(),
    ensures
        file_parse(file_wire(f)) == Ok::<XfbinFileView, DecodeError>(f),
{
    lemma_three_parts(header_wire(f.header), index_wire(f.index), frames_wire(f.chunks));
    lemma_header_len(f.header);
    lemma_file_parts(file_wire(f), f);
}

/// A container that can be written is decoded from a buffer that is made of the bytes of
/// its header, its index and its chunk frames.
proof fn lemma_file_parts(s: Seq<u8>, f: XfbinFileView)
    requires
        file_check(f).is_none(),
        has_at(s, 0, header_wire(f.header)),
        has_at(s, 16, index_wire(f.index)),
        has_at(s, 16 + index_wire(f.index).len() as int, frames_wire(f.chunks)),
        16 + index_wire(f.index).len() + frames_wire(f.chunks).len() == s.len(),
    ensures
        file_parse(s) == Ok::<XfbinFileView, DecodeError>(f),
{
    lemma_header_round_trip(s, f.header);
    lemma_index_round_trip(s, f.index);
    lemma_frames_round_trip(s, 16 + index_wire(f.index).len() as int, f.chunks);
}

} // verus!
