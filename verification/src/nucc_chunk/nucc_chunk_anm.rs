//! The animation chunk: clumps, coordinate parents and entries, each entry with its track
//! headers and the tracks they describe.
//!
//! Every count that governs a list is computed from the list when the chunk is written and
//! is not a field of the chunk. An entry's tracks are followed by zero bytes up to a
//! multiple of four of the entry's length. Every part of the chunk before an entry has a
//! length that is a multiple of four, so each entry starts and ends four-byte aligned in
//! the payload.

use vstd::prelude::*;
use crate::bytes::{
    has_at, i16_bits, i16_from_bits, i16_of, i16_to_bits, in_bounds, lemma_has_at_concat,
    lemma_i16_bits, lemma_pad4, lemma_sum_aligned, lemma_u16_round_trip, lemma_u32_round_trip, lemma_u32s_round_trip,
    lemma_u32s_wire_len, pad4, push_u16, push_u32, push_u32s, push_zeros, read_u16, read_u32,
    read_u32s, u16_at, u16_wire, u32_at, u32_wire, u32s_at, u32s_wire, zeros,
};
use crate::error::{DecodeError, EncodeError};
use crate::nucc_chunk::anm_key::{
    check_track, keys_wire, lemma_track_header_round_trip, lemma_track_round_trip, put_keys,
    put_track_header, read_track_data, read_track_header, track_check, track_header_at,
    track_header_wire, track_parse, AnmTrack, NuccAnmKey, TrackHeader,
};

verus! {

/// A coordinate: a clump of the chunk and a bone or material within it.
#[derive(Clone, Copy, Debug, PartialEq, Eq)]
pub struct AnmCoord {
    pub clump_index: i16,
    pub coord_index: u16,
}

/// A parent coordinate and the child attached to it.
#[derive(Clone, Copy, Debug, PartialEq, Eq)]
pub struct CoordParent {
    pub parent: AnmCoord,
    pub child: AnmCoord,
}

/// What an entry animates.
#[derive(Clone, Copy, Debug, PartialEq, Eq, Structural)]
pub enum EntryFormat {
    Coord,
    Camera,
    Material,
    LightDirc,
    LightPoint,
    Ambient,
    MorphModel,
    Unknown,
}

/// A clump: the bones, materials and models that the coordinates of a chunk refer to.
#[derive(Clone, Debug, PartialEq, Eq)]
pub struct AnmClump {
    pub clump_index: u32,
    pub bone_material_indices: Vec<u32>,
    pub model_indices: Vec<u32>,
}

/// What an `AnmClump` holds.
pub struct AnmClumpView {
    pub clump_index: u32,
    pub bone_material_indices: Seq<u32>,
    pub model_indices: Seq<u32>,
}

/// One entry: a coordinate, what is animated, and the tracks with their headers. Headers
/// and tracks stand side by side: the track at an index is the one its header describes.
#[derive(Clone, Debug, PartialEq, Eq)]
pub struct AnmEntry {
    pub coord: AnmCoord,
    pub entry_format: EntryFormat,
    pub track_headers: Vec<TrackHeader>,
    pub tracks: Vec<AnmTrack>,
}

/// What an `AnmEntry` holds.
pub struct AnmEntryView {
    pub coord: AnmCoord,
    pub entry_format: EntryFormat,
    pub track_headers: Seq<TrackHeader>,
    pub tracks: Seq<Seq<NuccAnmKey>>,
}

/// The animation chunk. `version` comes from the chunk's frame and is not part of the
/// payload.
#[derive(Clone, Debug, PartialEq, Eq)]
pub struct NuccChunkAnm {
    pub version: u16,
    pub frame_count: u32,
    pub is_looped: u16,
    pub clumps: Vec<AnmClump>,
    pub other_entries_indices: Vec<u32>,
    pub unk_entry_indices: Vec<u32>,
    pub coord_parents: Vec<CoordParent>,
    pub entries: Vec<AnmEntry>,
}

/// What a `NuccChunkAnm` holds.
pub struct NuccChunkAnmView {
    pub version: u16,
    pub frame_count: u32,
    pub is_looped: u16,
    pub clumps: Seq<AnmClumpView>,
    pub other_entries_indices: Seq<u32>,
    pub unk_entry_indices: Seq<u32>,
    pub coord_parents: Seq<CoordParent>,
    pub entries: Seq<AnmEntryView>,
}

impl View for AnmClump {
    type V = AnmClumpView;

    open spec fn view(&self) -> AnmClumpView {
        AnmClumpView {
            clump_index: self.clump_index,
            bone_material_indices: self.bone_material_indices@,
            model_indices: self.model_indices@,
        }
    }
}

impl View for AnmEntry {
    type V = AnmEntryView;

    open spec fn view(&self) -> AnmEntryView {
        AnmEntryView {
            coord: self.coord,
            entry_format: self.entry_format,
            track_headers: self.track_headers@,
            tracks: tracks_view(self.tracks@),
        }
    }
}

impl View for NuccChunkAnm {
    type V = NuccChunkAnmView;

    open spec fn view(&self) -> NuccChunkAnmView {
        NuccChunkAnmView {
            version: self.version,
            frame_count: self.frame_count,
            is_looped: self.is_looped,
            clumps: clumps_view(self.clumps@),
            other_entries_indices: self.other_entries_indices@,
            unk_entry_indices: self.unk_entry_indices@,
            coord_parents: self.coord_parents@,
            entries: entries_view(self.entries@),
        }
    }
}

/// The keys of each track of a list.
pub open spec fn tracks_view(v: Seq<AnmTrack>) -> Seq<Seq<NuccAnmKey>> {
    v.map_values(|t: AnmTrack| t@)
}

/// What each clump of a list holds.
pub open spec fn clumps_view(v: Seq<AnmClump>) -> Seq<AnmClumpView> {
    v.map_values(|c: AnmClump| c@)
}

/// What each entry of a list holds.
pub open spec fn entries_view(v: Seq<AnmEntry>) -> Seq<AnmEntryView> {
    v.map_values(|e: AnmEntry| e@)
}

impl EntryFormat {
    /// The number an entry format is written as.
    pub open spec fn code(self) -> u16 {
        match self {
            EntryFormat::Coord => 1,
            EntryFormat::Camera => 2,
            EntryFormat::Material => 4,
            EntryFormat::LightDirc => 5,
            EntryFormat::LightPoint => 6,
            EntryFormat::Ambient => 8,
            EntryFormat::MorphModel => 9,
            EntryFormat::Unknown => 10,
        }
    }

    /// The entry format a number stands for; a number that names none stands for `Unknown`.
    pub open spec fn of_code(v: u16) -> EntryFormat {
        if v == 1 {
            EntryFormat::Coord
        } else if v == 2 {
            EntryFormat::Camera
        } else if v == 4 {
            EntryFormat::Material
        } else if v == 5 {
            EntryFormat::LightDirc
        } else if v == 6 {
            EntryFormat::LightPoint
        } else if v == 8 {
            EntryFormat::Ambient
        } else if v == 9 {
            EntryFormat::MorphModel
        } else {
            EntryFormat::Unknown
        }
    }

    /// The number this format is written as.
    pub fn to_u16(&self) -> (r: u16)
        ensures
            r == self.code(),
    {
        match self {
            EntryFormat::Coord => 1,
            EntryFormat::Camera => 2,
            EntryFormat::Material => 4,
            EntryFormat::LightDirc => 5,
            EntryFormat::LightPoint => 6,
            EntryFormat::Ambient => 8,
            EntryFormat::MorphModel => 9,
            EntryFormat::Unknown => 10,
        }
    }

    /// The entry format that `v` stands for; `Unknown` where it names none.
    pub fn from_u16(v: u16) -> (r: EntryFormat)
        ensures
            r == EntryFormat::of_code(v),
    {
        match v {
            1 => EntryFormat::Coord,
            2 => EntryFormat::Camera,
            4 => EntryFormat::Material,
            5 => EntryFormat::LightDirc,
            6 => EntryFormat::LightPoint,
            8 => EntryFormat::Ambient,
            9 => EntryFormat::MorphModel,
            _ => EntryFormat::Unknown,
        }
    }
}

impl Default for EntryFormat {
    fn default() -> (r: EntryFormat)
        ensures
            r == EntryFormat::Unknown,
    {
        EntryFormat::Unknown
    }
}

/// The coordinate that the four bytes at `pos` stand for.
pub open spec fn coord_at(s: Seq<u8>, pos: int) -> AnmCoord {
    AnmCoord { clump_index: i16_of(u16_at(s, pos)), coord_index: u16_at(s, pos + 2) }
}

/// The four bytes a coordinate is written as.
pub open spec fn coord_wire(c: AnmCoord) -> Seq<u8> {
    u16_wire(i16_bits(c.clump_index)) + u16_wire(c.coord_index)
}

/// The coordinate pair that the eight bytes at `pos` stand for.
pub open spec fn coord_parent_at(s: Seq<u8>, pos: int) -> CoordParent {
    CoordParent { parent: coord_at(s, pos), child: coord_at(s, pos + 4) }
}

/// The eight bytes a coordinate pair is written as.
pub open spec fn coord_parent_wire(c: CoordParent) -> Seq<u8> {
    coord_wire(c.parent) + coord_wire(c.child)
}

/// The `n` coordinate pairs that start at `pos`.
pub open spec fn coord_parents_at(s: Seq<u8>, pos: int, n: int) -> Seq<CoordParent> {
    Seq::new(n as nat, |i: int| coord_parent_at(s, pos + 8 * i))
}

/// The bytes a run of coordinate pairs is written as.
pub open spec fn coord_parents_wire(v: Seq<CoordParent>) -> Seq<u8>
    decreases v.len(),
{
    if v.len() == 0 {
        Seq::empty()
    } else {
        coord_parents_wire(v.drop_last()) + coord_parent_wire(v.last())
    }
}

/// The `n` track headers that start at `pos`.
pub open spec fn track_headers_at(s: Seq<u8>, pos: int, n: int) -> Seq<TrackHeader> {
    Seq::new(n as nat, |i: int| track_header_at(s, pos + 8 * i))
}

/// The bytes a run of track headers is written as.
pub open spec fn track_headers_wire(v: Seq<TrackHeader>) -> Seq<u8>
    decreases v.len(),
{
    if v.len() == 0 {
        Seq::empty()
    } else {
        track_headers_wire(v.drop_last()) + track_header_wire(v.last())
    }
}

/// What reading a clump at `pos` gives: the clump and the position after it, or `None`
/// where the buffer ends before.
pub open spec fn clump_parse(s: Seq<u8>, pos: int) -> Option<(AnmClumpView, int)> {
    if !in_bounds(s, pos, 8) {
        None
    } else {
        let bones = u16_at(s, pos + 4) as int;
        let models = u16_at(s, pos + 6) as int;
        if !in_bounds(s, pos + 8, 4 * bones + 4 * models) {
            None
        } else {
            Some(
                (
                    AnmClumpView {
                        clump_index: u32_at(s, pos),
                        bone_material_indices: u32s_at(s, pos + 8, bones),
                        model_indices: u32s_at(s, pos + 8 + 4 * bones, models),
                    },
                    pos + 8 + 4 * bones + 4 * models,
                ),
            )
        }
    }
}

/// The bytes a clump is written as: its index, the two counts, the two lists.
pub open spec fn clump_wire(c: AnmClumpView) -> Seq<u8> {
    u32_wire(c.clump_index) + u16_wire(c.bone_material_indices.len() as u16) + u16_wire(
        c.model_indices.len() as u16,
    ) + u32s_wire(c.bone_material_indices) + u32s_wire(c.model_indices)
}

/// A clump can be written if each of its lists has a length that fits 16 bits.
pub open spec fn clump_fits(c: AnmClumpView) -> bool {
    c.bone_material_indices.len() <= 0xFFFF && c.model_indices.len() <= 0xFFFF
}

/// What reading `n` clumps one after the other gives.
pub open spec fn clumps_parse(s: Seq<u8>, pos: int, n: nat) -> Option<(Seq<AnmClumpView>, int)>
    decreases n,
{
    if n == 0 {
        Some((Seq::empty(), pos))
    } else {
        match clumps_parse(s, pos, (n - 1) as nat) {
            None => None,
            Some((head, p)) => match clump_parse(s, p) {
                None => None,
                Some((c, q)) => Some((head.push(c), q)),
            },
        }
    }
}

/// The bytes a run of clumps is written as.
pub open spec fn clumps_wire(v: Seq<AnmClumpView>) -> Seq<u8>
    decreases v.len(),
{
    if v.len() == 0 {
        Seq::empty()
    } else {
        clumps_wire(v.drop_last()) + clump_wire(v.last())
    }
}

/// Every clump of the run can be written.
pub open spec fn clumps_fit(v: Seq<AnmClumpView>) -> bool {
    forall|i: int| 0 <= i < v.len() ==> clump_fits(#[trigger] v[i])
}

/// What reading the tracks of the first `n` headers gives: each track is read under its
/// own header, right after the one before.
pub open spec fn tracks_parse(s: Seq<u8>, pos: int, headers: Seq<TrackHeader>, n: nat) -> Result<
    (Seq<Seq<NuccAnmKey>>, int),
    DecodeError,
>
    decreases n,
{
    if n == 0 {
        Ok((Seq::empty(), pos))
    } else {
        match tracks_parse(s, pos, headers, (n - 1) as nat) {
            Err(e) => Err(e),
            Ok((head, p)) => match track_parse(s, p, headers[n - 1]) {
                Err(e) => Err(e),
                Ok((keys, q)) => Ok((head.push(keys), q)),
            },
        }
    }
}

/// The bytes a run of tracks is written as.
pub open spec fn tracks_wire(v: Seq<Seq<NuccAnmKey>>) -> Seq<u8>
    decreases v.len(),
{
    if v.len() == 0 {
        Seq::empty()
    } else {
        tracks_wire(v.drop_last()) + keys_wire(v.last())
    }
}

/// Why the first `n` tracks cannot be written under their headers, if they cannot: the
/// reason of the first track that cannot.
pub open spec fn tracks_check(
    headers: Seq<TrackHeader>,
    tracks: Seq<Seq<NuccAnmKey>>,
    n: nat,
) -> Option<EncodeError>
    decreases n,
{
    if n == 0 {
        None
    } else {
        match tracks_check(headers, tracks, (n - 1) as nat) {
            Some(e) => Some(e),
            None => track_check(headers[n - 1], tracks[n - 1]),
        }
    }
}

/// What reading an entry at `pos` gives: the entry and the position after its padding.
pub open spec fn entry_parse(s: Seq<u8>, pos: int) -> Result<(AnmEntryView, int), DecodeError> {
    if !in_bounds(s, pos, 8) {
        Err(DecodeError::Truncated)
    } else {
        let n = u16_at(s, pos + 6) as int;
        if !in_bounds(s, pos + 8, 8 * n) {
            Err(DecodeError::Truncated)
        } else {
            let headers = track_headers_at(s, pos + 8, n);
            match tracks_parse(s, pos + 8 + 8 * n, headers, n as nat) {
                Err(e) => Err(e),
                Ok((tracks, p)) => {
                    let end = p + pad4(p - pos);
                    if end > s.len() {
                        Err(DecodeError::Truncated)
                    } else {
                        Ok(
                            (
                                AnmEntryView {
                                    coord: coord_at(s, pos),
                                    entry_format: EntryFormat::of_code(u16_at(s, pos + 4)),
                                    track_headers: headers,
                                    tracks,
                                },
                                end,
                            ),
                        )
                    }
                },
            }
        }
    }
}

/// The bytes of an entry before its padding.
pub open spec fn entry_body(e: AnmEntryView) -> Seq<u8> {
    coord_wire(e.coord) + u16_wire(e.entry_format.code()) + u16_wire(
        e.track_headers.len() as u16,
    ) + track_headers_wire(e.track_headers) + tracks_wire(e.tracks)
}

/// The bytes an entry is written as: its body, then zero bytes up to a multiple of four.
pub open spec fn entry_wire(e: AnmEntryView) -> Seq<u8> {
    entry_body(e) + zeros(pad4(entry_body(e).len() as int))
}

/// Why an entry cannot be written, if it cannot.
pub open spec fn entry_check(e: AnmEntryView) -> Option<EncodeError> {
    if e.track_headers.len() > 0xFFFF {
        Some(EncodeError::TooLarge)
    } else if e.tracks.len() != e.track_headers.len() {
        Some(EncodeError::TrackCountMismatch)
    } else {
        tracks_check(e.track_headers, e.tracks, e.tracks.len())
    }
}

/// What reading `n` entries one after the other gives.
pub open spec fn entries_parse(s: Seq<u8>, pos: int, n: nat) -> Result<
    (Seq<AnmEntryView>, int),
    DecodeError,
>
    decreases n,
{
    if n == 0 {
        Ok((Seq::empty(), pos))
    } else {
        match entries_parse(s, pos, (n - 1) as nat) {
            Err(e) => Err(e),
            Ok((head, p)) => match entry_parse(s, p) {
                Err(e) => Err(e),
                Ok((entry, q)) => Ok((head.push(entry), q)),
            },
        }
    }
}

/// The bytes a run of entries is written as.
pub open spec fn entries_wire(v: Seq<AnmEntryView>) -> Seq<u8>
    decreases v.len(),
{
    if v.len() == 0 {
        Seq::empty()
    } else {
        entries_wire(v.drop_last()) + entry_wire(v.last())
    }
}

/// Why the first `n` entries cannot be written, if they cannot: the reason of the first
/// entry that cannot.
pub open spec fn entries_check(v: Seq<AnmEntryView>, n: nat) -> Option<EncodeError>
    decreases n,
{
    if n == 0 {
        None
    } else {
        match entries_check(v, (n - 1) as nat) {
            Some(e) => Some(e),
            None => entry_check(v[n - 1]),
        }
    }
}

/// What decoding an animation chunk's payload gives. The frame size field is skipped, the
/// counts are used and not kept, and bytes after the last entry are ignored.
pub open spec fn anm_parse(s: Seq<u8>, version: u16) -> Result<NuccChunkAnmView, DecodeError> {
    if !in_bounds(s, 0, 20) {
        Err(DecodeError::Truncated)
    } else {
        let entry_count = u16_at(s, 8) as int;
        let clump_count = u16_at(s, 12) as int;
        let other_count = u16_at(s, 14) as int;
        let unk_count = u16_at(s, 16) as int;
        let coord_count = u16_at(s, 18) as int;
        match clumps_parse(s, 20, clump_count as nat) {
            None => Err(DecodeError::Truncated),
            Some((clumps, p)) => {
                if !in_bounds(s, p, 4 * other_count + 4 * unk_count + 8 * coord_count) {
                    Err(DecodeError::Truncated)
                } else {
                    let q = p + 4 * other_count + 4 * unk_count + 8 * coord_count;
                    match entries_parse(s, q, entry_count as nat) {
                        Err(e) => Err(e),
                        Ok((entries, end)) => Ok(
                            NuccChunkAnmView {
                                version,
                                frame_count: u32_at(s, 0),
                                is_looped: u16_at(s, 10),
                                clumps,
                                other_entries_indices: u32s_at(s, p, other_count),
                                unk_entry_indices: u32s_at(s, p + 4 * other_count, unk_count),
                                coord_parents: coord_parents_at(
                                    s,
                                    p + 4 * other_count + 4 * unk_count,
                                    coord_count,
                                ),
                                entries,
                            },
                        ),
                    }
                }
            },
        }
    }
}

/// The frame size that every animation chunk is written with.
pub open spec fn anm_frame_size() -> u32 {
    100
}

/// The bytes of an animation chunk's payload before its entries: the counts, the clumps,
/// the two index lists and the coordinate parents.
pub open spec fn anm_head_wire(a: NuccChunkAnmView) -> Seq<u8> {
    u32_wire(a.frame_count) + u32_wire(anm_frame_size()) + u16_wire(a.entries.len() as u16)
        + u16_wire(a.is_looped) + u16_wire(a.clumps.len() as u16) + u16_wire(
        a.other_entries_indices.len() as u16,
    ) + u16_wire(a.unk_entry_indices.len() as u16) + u16_wire(a.coord_parents.len() as u16)
        + clumps_wire(a.clumps) + u32s_wire(a.other_entries_indices) + u32s_wire(
        a.unk_entry_indices,
    ) + coord_parents_wire(a.coord_parents)
}

/// The bytes an animation chunk's payload is written as.
pub open spec fn anm_wire(a: NuccChunkAnmView) -> Seq<u8> {
    anm_head_wire(a) + entries_wire(a.entries)
}

/// Why an animation chunk cannot be written, if it cannot: a list is longer than its
/// 16-bit count can say, or an entry cannot be written.
pub open spec fn anm_check(a: NuccChunkAnmView) -> Option<EncodeError> {
    if a.entries.len() > 0xFFFF || a.clumps.len() > 0xFFFF || a.other_entries_indices.len()
        > 0xFFFF || a.unk_entry_indices.len() > 0xFFFF || a.coord_parents.len() > 0xFFFF
        || !clumps_fit(a.clumps) {
        Some(EncodeError::TooLarge)
    } else {
        entries_check(a.entries, a.entries.len())
    }
}

/// Reads the coordinate at `pos`, if four bytes are there.
pub fn read_coord(data: &[u8], pos: usize) -> (r: Option<AnmCoord>)
    ensures
        r == (if in_bounds(data@, pos as int, 4) {
            Some(coord_at(data@, pos as int))
        } else {
            None
        }),
{
    if pos > data.len() || 4 > data.len() - pos {
        return None;
    }
    let clump_index: i16 = i16_from_bits(read_u16(data, pos).unwrap());
    let coord_index: u16 = read_u16(data, pos + 2).unwrap();
    Some(AnmCoord { clump_index, coord_index })
}

/// Appends a coordinate.
pub fn put_coord(c: &AnmCoord, out: &mut Vec<u8>)
    ensures
        final(out)@ == old(out)@ + coord_wire(*c),
{
    push_u16(out, i16_to_bits(c.clump_index));
    push_u16(out, c.coord_index);
    assert(out@ =~= old(out)@ + coord_wire(*c));
}

/// Reads `n` coordinate pairs starting at `pos`, if they are there.
pub fn read_coord_parents(data: &[u8], pos: usize, n: usize) -> (r: Option<Vec<CoordParent>>)
    ensures
        in_bounds(data@, pos as int, 8 * n) ==> r.is_some() && r.unwrap()@ == coord_parents_at(
            data@,
            pos as int,
            n as int,
        ),
        !in_bounds(data@, pos as int, 8 * n) ==> r.is_none(),
{
    if pos > data.len() || n > (data.len() - pos) / 8 {
        return None;
    }
    let mut out: Vec<CoordParent> = Vec::new();
    let mut i: usize = 0;
    while i < n
        invariant
            i <= n,
            pos + 8 * n <= data@.len() <= usize::MAX,
            out@ == coord_parents_at(data@, pos as int, i as int),
        decreases n - i,
    {
        let parent = read_coord(data, pos + 8 * i).unwrap();
        let child = read_coord(data, pos + 8 * i + 4).unwrap();
        out.push(CoordParent { parent, child });
        i += 1;
        assert(out@ =~= coord_parents_at(data@, pos as int, i as int));
    }
    Some(out)
}

/// Appends a run of coordinate pairs.
pub fn put_coord_parents(v: &Vec<CoordParent>, out: &mut Vec<u8>)
    ensures
        final(out)@ == old(out)@ + coord_parents_wire(v@),
{
    let mut i: usize = 0;
    assert(coord_parents_wire(v@.subrange(0, 0)) =~= Seq::<u8>::empty());
    while i < v.len()
        invariant
            i <= v@.len(),
            out@ == old(out)@ + coord_parents_wire(v@.subrange(0, i as int)),
        decreases v@.len() - i,
    {
        let ghost before = out@;
        put_coord(&v[i].parent, out);
        put_coord(&v[i].child, out);
        proof {
            let next = v@.subrange(0, i + 1);
            assert(next.drop_last() =~= v@.subrange(0, i as int));
            assert(next.last() == v@[i as int]);
            assert(out@ =~= before + coord_parent_wire(v@[i as int]));
            assert(out@ =~= old(out)@ + coord_parents_wire(next));
        }
        i += 1;
    }
    assert(v@.subrange(0, v@.len() as int) =~= v@);
}

/// Reads `n` track headers starting at `pos`, if they are there.
pub fn read_track_headers(data: &[u8], pos: usize, n: usize) -> (r: Option<Vec<TrackHeader>>)
    ensures
        in_bounds(data@, pos as int, 8 * n) ==> r.is_some() && r.unwrap()@ == track_headers_at(
            data@,
            pos as int,
            n as int,
        ),
        !in_bounds(data@, pos as int, 8 * n) ==> r.is_none(),
{
    if pos > data.len() || n > (data.len() - pos) / 8 {
        return None;
    }
    let mut out: Vec<TrackHeader> = Vec::new();
    let mut i: usize = 0;
    while i < n
        invariant
            i <= n,
            pos + 8 * n <= data@.len() <= usize::MAX,
            out@ == track_headers_at(data@, pos as int, i as int),
        decreases n - i,
    {
        let h = read_track_header(data, pos + 8 * i).unwrap();
        out.push(h);
        i += 1;
        assert(out@ =~= track_headers_at(data@, pos as int, i as int));
    }
    Some(out)
}

/// Appends a run of track headers.
pub fn put_track_headers(v: &Vec<TrackHeader>, out: &mut Vec<u8>)
    ensures
        final(out)@ == old(out)@ + track_headers_wire(v@),
{
    let mut i: usize = 0;
    assert(track_headers_wire(v@.subrange(0, 0)) =~= Seq::<u8>::empty());
    while i < v.len()
        invariant
            i <= v@.len(),
            out@ == old(out)@ + track_headers_wire(v@.subrange(0, i as int)),
        decreases v@.len() - i,
    {
        put_track_header(&v[i], out);
        proof {
            let next = v@.subrange(0, i + 1);
            assert(next.drop_last() =~= v@.subrange(0, i as int));
            assert(next.last() == v@[i as int]);
            assert(out@ =~= old(out)@ + track_headers_wire(next));
        }
        i += 1;
    }
    assert(v@.subrange(0, v@.len() as int) =~= v@);
}

/// Reads the clump at `pos`. Returns it with the position after it, or `None` where the
/// buffer ends before.
pub fn read_clump(data: &[u8], pos: usize) -> (r: Option<(AnmClump, usize)>)
    ensures
        match clump_parse(data@, pos as int) {
            Some((c, next)) => r matches Some((x, n)) && x@ == c && n == next,
            None => r.is_none(),
        },
{
    if pos > data.len() || 8 > data.len() - pos {
        return None;
    }
    let clump_index: u32 = read_u32(data, pos).unwrap();
    let bones: usize = read_u16(data, pos + 4).unwrap() as usize;
    let models: usize = read_u16(data, pos + 6).unwrap() as usize;
    let start: usize = pos + 8;
    if 4 * bones + 4 * models > data.len() - start {
        return None;
    }
    let bone_material_indices = read_u32s(data, start, bones).unwrap();
    let model_indices = read_u32s(data, start + 4 * bones, models).unwrap();
    Some(
        (
            AnmClump { clump_index, bone_material_indices, model_indices },
            start + 4 * bones + 4 * models,
        ),
    )
}

/// Appends a clump whose lists fit their counts.
pub(crate) fn put_clump(c: &AnmClump, out: &mut Vec<u8>)
    requires
        clump_fits(c@),
    ensures
        final(out)@ == old(out)@ + clump_wire(c@),
{
    push_u32(out, c.clump_index);
    push_u16(out, c.bone_material_indices.len() as u16);
    push_u16(out, c.model_indices.len() as u16);
    push_u32s(out, c.bone_material_indices.as_slice());
    push_u32s(out, c.model_indices.as_slice());
    assert(out@ =~= old(out)@ + clump_wire(c@));
}

/// Reads `n` clumps one after the other.
pub fn read_clumps(data: &[u8], pos: usize, n: usize) -> (r: Option<(Vec<AnmClump>, usize)>)
    ensures
        match clumps_parse(data@, pos as int, n as nat) {
            Some((v, next)) => r matches Some((x, m)) && clumps_view(x@) == v && m == next,
            None => r.is_none(),
        },
{
    let mut out: Vec<AnmClump> = Vec::new();
    let mut p: usize = pos;
    let mut i: usize = 0;
    assert(clumps_view(out@) =~= Seq::<AnmClumpView>::empty());
    while i < n
        invariant
            i <= n,
            clumps_parse(data@, pos as int, i as nat) == Some((clumps_view(out@), p as int)),
        decreases n - i,
    {
        match read_clump(data, p) {
            None => {
                proof {
                    lemma_clumps_parse_none(data@, pos as int, (i + 1) as nat, n as nat);
                }
                return None;
            },
            Some((c, q)) => {
                let ghost before = out@;
                out.push(c);
                assert(clumps_view(out@) =~= clumps_view(before).push(c@));
                p = q;
            },
        }
        i += 1;
    }
    Some((out, p))
}

/// Once reading a run of clumps has failed, reading a longer run fails too.
pub proof fn lemma_clumps_parse_none(s: Seq<u8>, pos: int, k: nat, n: nat)
    requires
        k <= n,
        clumps_parse(s, pos, k).is_none(),
    ensures
        clumps_parse(s, pos, n).is_none(),
    decreases n,
{
    if k < n {
        lemma_clumps_parse_none(s, pos, k, (n - 1) as nat);
    }
}

/// Says whether every clump of a list can be written.
pub fn check_clumps(v: &Vec<AnmClump>) -> (r: bool)
    ensures
        r == clumps_fit(clumps_view(v@)),
{
    let mut i: usize = 0;
    while i < v.len()
        invariant
            i <= v@.len(),
            forall|j: int| 0 <= j < i ==> clump_fits(#[trigger] clumps_view(v@)[j]),
        decreases v@.len() - i,
    {
        if v[i].bone_material_indices.len() > 0xFFFF || v[i].model_indices.len() > 0xFFFF {
            assert(!clump_fits(clumps_view(v@)[i as int]));
            return false;
        }
        i += 1;
    }
    true
}

/// Appends a run of clumps that can all be written.
pub(crate) fn put_clumps(v: &Vec<AnmClump>, out: &mut Vec<u8>)
    requires
        clumps_fit(clumps_view(v@)),
    ensures
        final(out)@ == old(out)@ + clumps_wire(clumps_view(v@)),
{
    let mut i: usize = 0;
    let ghost all = clumps_view(v@);
    assert(clumps_wire(all.subrange(0, 0)) =~= Seq::<u8>::empty());
    while i < v.len()
        invariant
            i <= v@.len(),
            all == clumps_view(v@),
            clumps_fit(all),
            out@ == old(out)@ + clumps_wire(all.subrange(0, i as int)),
        decreases v@.len() - i,
    {
        assert(clump_fits(all[i as int]));
        put_clump(&v[i], out);
        proof {
            let next = all.subrange(0, i + 1);
            assert(next.drop_last() =~= all.subrange(0, i as int));
            assert(next.last() == v@[i as int]@);
            assert(out@ =~= old(out)@ + clumps_wire(next));
        }
        i += 1;
    }
    assert(all.subrange(0, all.len() as int) =~= all);
}


/// Once reading a run of tracks has failed, reading a longer run fails in the same way.
pub proof fn lemma_tracks_parse_err(s: Seq<u8>, pos: int, headers: Seq<TrackHeader>, k: nat, n: nat)
    requires
        k <= n,
        tracks_parse(s, pos, headers, k).is_err(),
    ensures
        tracks_parse(s, pos, headers, n) == tracks_parse(s, pos, headers, k),
    decreases n,
{
    if k < n {
        lemma_tracks_parse_err(s, pos, headers, k, (n - 1) as nat);
    }
}

/// Once a track of a run cannot be written, the run cannot, for the same reason.
pub proof fn lemma_tracks_check_some(
    headers: Seq<TrackHeader>,
    tracks: Seq<Seq<NuccAnmKey>>,
    k: nat,
    n: nat,
)
    requires
        k <= n,
        tracks_check(headers, tracks, k).is_some(),
    ensures
        tracks_check(headers, tracks, n) == tracks_check(headers, tracks, k),
    decreases n,
{
    if k < n {
        lemma_tracks_check_some(headers, tracks, k, (n - 1) as nat);
    }
}

/// Once reading a run of entries has failed, reading a longer run fails in the same way.
pub proof fn lemma_entries_parse_err(s: Seq<u8>, pos: int, k: nat, n: nat)
    requires
        k <= n,
        entries_parse(s, pos, k).is_err(),
    ensures
        entries_parse(s, pos, n) == entries_parse(s, pos, k),
    decreases n,
{
    if k < n {
        lemma_entries_parse_err(s, pos, k, (n - 1) as nat);
    }
}

/// Once an entry of a run cannot be written, the run cannot, for the same reason.
pub proof fn lemma_entries_check_some(v: Seq<AnmEntryView>, k: nat, n: nat)
    requires
        k <= n,
        entries_check(v, k).is_some(),
    ensures
        entries_check(v, n) == entries_check(v, k),
    decreases n,
{
    if k < n {
        lemma_entries_check_some(v, k, (n - 1) as nat);
    }
}

/// Reads the entry at `pos`: coordinate, format, track headers, then each track under its
/// header, then the padding. Returns the entry and the position after the padding.
#[verifier::rlimit(50)]
pub fn read_entry(data: &[u8], pos: usize) -> (r: Result<(AnmEntry, usize), DecodeError>)
    ensures
        match entry_parse(data@, pos as int) {
            Ok((e, next)) => r matches Ok((x, n)) && x@ == e && n == next,
            Err(e) => r matches Err(x) && x == e,
        },
{
    if pos > data.len() || 8 > data.len() - pos {
        return Err(DecodeError::Truncated);
    }
    let coord = read_coord(data, pos).unwrap();
    let entry_format = EntryFormat::from_u16(read_u16(data, pos + 4).unwrap());
    let n: usize = read_u16(data, pos + 6).unwrap() as usize;
    let track_headers = match read_track_headers(data, pos + 8, n) {
        None => {
            return Err(DecodeError::Truncated);
        },
        Some(h) => h,
    };
    let start: usize = pos + 8 + 8 * n;
    let mut tracks: Vec<AnmTrack> = Vec::new();
    let mut p: usize = start;
    let mut i: usize = 0;
    assert(tracks_view(tracks@) =~= Seq::<Seq<NuccAnmKey>>::empty());
    while i < n
        invariant
            i <= n,
            n == track_headers@.len(),
            start <= p <= data@.len(),
            in_bounds(data@, pos as int, 8),
            n == u16_at(data@, pos + 6),
            in_bounds(data@, pos + 8, 8 * n),
            start == pos + 8 + 8 * n,
            track_headers@ == track_headers_at(data@, pos + 8, n as int),
            tracks_parse(data@, start as int, track_headers@, i as nat) == Ok::<
                (Seq<Seq<NuccAnmKey>>, int),
                DecodeError,
            >((tracks_view(tracks@), p as int)),
        decreases n - i,
    {
        match read_track_data(data, p, &track_headers[i]) {
            Err(e) => {
                proof {
                    lemma_tracks_parse_err(
                        data@,
                        start as int,
                        track_headers@,
                        (i + 1) as nat,
                        n as nat,
                    );
                }
                return Err(e);
            },
            Ok((keys, q)) => {
                let ghost before = tracks@;
                tracks.push(AnmTrack { keys });
                assert(tracks_view(tracks@) =~= tracks_view(before).push(keys@));
                p = q;
            },
        }
        i += 1;
    }
    let len: usize = p - pos;
    let pad: usize = (4 - len % 4) % 4;
    if pad > data.len() - p {
        return Err(DecodeError::Truncated);
    }
    Ok((AnmEntry { coord, entry_format, track_headers, tracks }, p + pad))
}

/// Says whether an entry can be written, and why not if it cannot.
pub fn check_entry(e: &AnmEntry) -> (r: Result<(), EncodeError>)
    ensures
        match entry_check(e@) {
            None => r.is_ok(),
            Some(err) => r == Err::<(), EncodeError>(err),
        },
{
    if e.track_headers.len() > 0xFFFF {
        return Err(EncodeError::TooLarge);
    }
    if e.tracks.len() != e.track_headers.len() {
        return Err(EncodeError::TrackCountMismatch);
    }
    let n: usize = e.tracks.len();
    let mut i: usize = 0;
    while i < n
        invariant
            i <= n,
            n <= 0xFFFF,
            n == e.tracks@.len(),
            n == e.track_headers@.len(),
            tracks_check(e@.track_headers, e@.tracks, i as nat).is_none(),
        decreases n - i,
    {
        assert(e@.tracks[i as int] == e.tracks@[i as int]@);
        match check_track(&e.track_headers[i], &e.tracks[i].keys) {
            Err(err) => {
                proof {
                    lemma_tracks_check_some(
                        e@.track_headers,
                        e@.tracks,
                        (i + 1) as nat,
                        n as nat,
                    );
                }
                return Err(err);
            },
            Ok(()) => {},
        }
        i += 1;
    }
    Ok(())
}

/// Appends the keys of every track of a list, track after track.
pub fn put_tracks(v: &Vec<AnmTrack>, out: &mut Vec<u8>)
    ensures
        final(out)@ == old(out)@ + tracks_wire(tracks_view(v@)),
{
    let mut i: usize = 0;
    let ghost all = tracks_view(v@);
    assert(tracks_wire(all.subrange(0, 0)) =~= Seq::<u8>::empty());
    while i < v.len()
        invariant
            i <= v@.len(),
            all == tracks_view(v@),
            out@ == old(out)@ + tracks_wire(all.subrange(0, i as int)),
        decreases v@.len() - i,
    {
        put_keys(&v[i].keys, out);
        proof {
            let next = all.subrange(0, i + 1);
            assert(next.drop_last() =~= all.subrange(0, i as int));
            assert(next.last() == v@[i as int]@);
            assert(out@ =~= old(out)@ + tracks_wire(next));
        }
        i += 1;
    }
    assert(all.subrange(0, all.len() as int) =~= all);
}

/// Appends an entry that can be written: its body, then the padding.
pub(crate) fn put_entry(e: &AnmEntry, out: &mut Vec<u8>)
    requires
        entry_check(e@).is_none(),
    ensures
        final(out)@ == old(out)@ + entry_wire(e@),
{
    let mut body: Vec<u8> = Vec::new();
    put_coord(&e.coord, &mut body);
    push_u16(&mut body, e.entry_format.to_u16());
    push_u16(&mut body, e.track_headers.len() as u16);
    put_track_headers(&e.track_headers, &mut body);
    put_tracks(&e.tracks, &mut body);
    assert(body@ =~= entry_body(e@));
    let pad: usize = (4 - body.len() % 4) % 4;
    push_bytes_of(out, &body);
    push_zeros(out, pad);
    assert(out@ =~= old(out)@ + entry_wire(e@));
}

/// Appends the bytes of `body`.
fn push_bytes_of(out: &mut Vec<u8>, body: &Vec<u8>)
    ensures
        final(out)@ == old(out)@ + body@,
{
    crate::bytes::push_bytes(out, body.as_slice());
}

/// Reads `n` entries one after the other.
pub fn read_entries(data: &[u8], pos: usize, n: usize) -> (r: Result<
    (Vec<AnmEntry>, usize),
    DecodeError,
>)
    ensures
        match entries_parse(data@, pos as int, n as nat) {
            Ok((v, next)) => r matches Ok((x, m)) && entries_view(x@) == v && m == next,
            Err(e) => r matches Err(x) && x == e,
        },
{
    let mut out: Vec<AnmEntry> = Vec::new();
    let mut p: usize = pos;
    let mut i: usize = 0;
    assert(entries_view(out@) =~= Seq::<AnmEntryView>::empty());
    while i < n
        invariant
            i <= n,
            entries_parse(data@, pos as int, i as nat) == Ok::<(Seq<AnmEntryView>, int), DecodeError>(
                (entries_view(out@), p as int),
            ),
        decreases n - i,
    {
        match read_entry(data, p) {
            Err(e) => {
                proof {
                    lemma_entries_parse_err(data@, pos as int, (i + 1) as nat, n as nat);
                }
                return Err(e);
            },
            Ok((entry, q)) => {
                let ghost before = out@;
                out.push(entry);
                assert(entries_view(out@) =~= entries_view(before).push(entry@));
                p = q;
            },
        }
        i += 1;
    }
    Ok((out, p))
}

/// Says whether every entry of a list can be written, and why the first that cannot, cannot.
pub fn check_entries(v: &Vec<AnmEntry>) -> (r: Result<(), EncodeError>)
    ensures
        match entries_check(entries_view(v@), v@.len()) {
            None => r.is_ok(),
            Some(err) => r == Err::<(), EncodeError>(err),
        },
{
    let n: usize = v.len();
    let mut i: usize = 0;
    while i < n
        invariant
            i <= n,
            n == v@.len(),
            entries_check(entries_view(v@), i as nat).is_none(),
        decreases n - i,
    {
        assert(entries_view(v@)[i as int] == v@[i as int]@);
        match check_entry(&v[i]) {
            Err(err) => {
                proof {
                    lemma_entries_check_some(entries_view(v@), (i + 1) as nat, n as nat);
                }
                return Err(err);
            },
            Ok(()) => {},
        }
        i += 1;
    }
    Ok(())
}

/// Every entry of a run that can be written can be written.
pub proof fn lemma_entries_check_each(v: Seq<AnmEntryView>, n: nat, i: int)
    requires
        entries_check(v, n).is_none(),
        0 <= i < n,
    ensures
        entry_check(v[i]).is_none(),
    decreases n,
{
    if i < n - 1 {
        lemma_entries_check_each(v, (n - 1) as nat, i);
    }
}

/// Appends a run of entries that can all be written.
pub(crate) fn put_entries(v: &Vec<AnmEntry>, out: &mut Vec<u8>)
    requires
        entries_check(entries_view(v@), v@.len()).is_none(),
    ensures
        final(out)@ == old(out)@ + entries_wire(entries_view(v@)),
{
    let mut i: usize = 0;
    let ghost all = entries_view(v@);
    assert(entries_wire(all.subrange(0, 0)) =~= Seq::<u8>::empty());
    while i < v.len()
        invariant
            i <= v@.len(),
            all == entries_view(v@),
            entries_check(all, v@.len()).is_none(),
            out@ == old(out)@ + entries_wire(all.subrange(0, i as int)),
        decreases v@.len() - i,
    {
        proof {
            lemma_entries_check_each(all, v@.len(), i as int);
        }
        put_entry(&v[i], out);
        proof {
            let next = all.subrange(0, i + 1);
            assert(next.drop_last() =~= all.subrange(0, i as int));
            assert(next.last() == v@[i as int]@);
            assert(out@ =~= old(out)@ + entries_wire(next));
        }
        i += 1;
    }
    assert(all.subrange(0, all.len() as int) =~= all);
}

impl NuccChunkAnm {
    /// Decodes an animation chunk from its payload. `version` is the version of the chunk's
    /// frame, which the payload does not hold.
    #[verifier::rlimit(50)]
    pub fn read(data: &[u8], version: u16) -> (r: Result<NuccChunkAnm, DecodeError>)
        ensures
            match anm_parse(data@, version) {
                Ok(a) => r matches Ok(x) && x@ == a,
                Err(e) => r matches Err(x) && x == e,
            },
    {
        if 20 > data.len() {
            return Err(DecodeError::Truncated);
        }
        let frame_count: u32 = read_u32(data, 0).unwrap();
        let entry_count: usize = read_u16(data, 8).unwrap() as usize;
        let is_looped: u16 = read_u16(data, 10).unwrap();
        let clump_count: usize = read_u16(data, 12).unwrap() as usize;
        let other_count: usize = read_u16(data, 14).unwrap() as usize;
        let unk_count: usize = read_u16(data, 16).unwrap() as usize;
        let coord_count: usize = read_u16(data, 18).unwrap() as usize;
        let (clumps, p) = match read_clumps(data, 20, clump_count) {
            None => {
                return Err(DecodeError::Truncated);
            },
            Some(x) => x,
        };
        proof {
            lemma_clumps_parse_bounds(data@, 20, clump_count as nat);
        }
        if 4 * other_count + 4 * unk_count + 8 * coord_count > data.len() - p {
            return Err(DecodeError::Truncated);
        }
        let other_entries_indices = read_u32s(data, p, other_count).unwrap();
        let unk_entry_indices = read_u32s(data, p + 4 * other_count, unk_count).unwrap();
        let coord_parents = read_coord_parents(
            data,
            p + 4 * other_count + 4 * unk_count,
            coord_count,
        ).unwrap();
        let q: usize = p + 4 * other_count + 4 * unk_count + 8 * coord_count;
        let (entries, _end) = match read_entries(data, q, entry_count) {
            Err(e) => {
                return Err(e);
            },
            Ok(x) => x,
        };
        Ok(
            NuccChunkAnm {
                version,
                frame_count,
                is_looped,
                clumps,
                other_entries_indices,
                unk_entry_indices,
                coord_parents,
                entries,
            },
        )
    }

    /// Says whether the chunk can be written, and why not if it cannot.
    pub fn check(&self) -> (r: Result<(), EncodeError>)
        ensures
            match anm_check(self@) {
                None => r.is_ok(),
                Some(err) => r == Err::<(), EncodeError>(err),
            },
    {
        if self.entries.len() > 0xFFFF || self.clumps.len() > 0xFFFF
            || self.other_entries_indices.len() > 0xFFFF || self.unk_entry_indices.len() > 0xFFFF
            || self.coord_parents.len() > 0xFFFF {
            return Err(EncodeError::TooLarge);
        }
        if !check_clumps(&self.clumps) {
            return Err(EncodeError::TooLarge);
        }
        check_entries(&self.entries)
    }

    /// Encodes the chunk's payload. Every count is computed from the list it governs, and
    /// the frame size is written as its fixed value.
    #[verifier::rlimit(50)]
    pub fn write(&self) -> (r: Result<Vec<u8>, EncodeError>)
        ensures
            match anm_check(self@) {
                None => r matches Ok(v) && v@ == anm_wire(self@),
                Some(err) => r matches Err(x) && x == err,
            },
    {
        match self.check() {
            Err(e) => {
                return Err(e);
            },
            Ok(()) => {},
        }
        let mut out: Vec<u8> = Vec::new();
        push_u32(&mut out, self.frame_count);
        push_u32(&mut out, 100);
        push_u16(&mut out, self.entries.len() as u16);
        push_u16(&mut out, self.is_looped);
        push_u16(&mut out, self.clumps.len() as u16);
        push_u16(&mut out, self.other_entries_indices.len() as u16);
        push_u16(&mut out, self.unk_entry_indices.len() as u16);
        push_u16(&mut out, self.coord_parents.len() as u16);
        put_clumps(&self.clumps, &mut out);
        push_u32s(&mut out, self.other_entries_indices.as_slice());
        push_u32s(&mut out, self.unk_entry_indices.as_slice());
        put_coord_parents(&self.coord_parents, &mut out);
        put_entries(&self.entries, &mut out);
        assert(out@ =~= anm_wire(self@));
        Ok(out)
    }
}

/// A run of clumps that is read ends inside the buffer, at or after the place it starts.
pub proof fn lemma_clumps_parse_bounds(s: Seq<u8>, pos: int, n: nat)
    requires
        0 <= pos <= s.len(),
    ensures
        clumps_parse(s, pos, n) matches Some((v, next)) ==> pos <= next <= s.len() && v.len() == n,
    decreases n,
{
    if n > 0 {
        lemma_clumps_parse_bounds(s, pos, (n - 1) as nat);
    }
}


/// A coordinate is read back from the bytes it was written as.
pub proof fn lemma_coord_round_trip(s: Seq<u8>, pos: int, c: AnmCoord)
    requires
        has_at(s, pos, coord_wire(c)),
    ensures
        coord_at(s, pos) == c,
{
    lemma_has_at_concat(s, pos, u16_wire(i16_bits(c.clump_index)), u16_wire(c.coord_index));
    lemma_u16_round_trip(s, pos, i16_bits(c.clump_index));
    lemma_u16_round_trip(s, pos + 2, c.coord_index);
    lemma_i16_bits(c.clump_index);
}

/// A run of coordinate pairs is read back from the bytes it was written as.
pub proof fn lemma_coord_parents_round_trip(s: Seq<u8>, pos: int, v: Seq<CoordParent>)
    requires
        has_at(s, pos, coord_parents_wire(v)),
    ensures
        coord_parents_at(s, pos, v.len() as int) == v,
        coord_parents_wire(v).len() == 8 * v.len(),
    decreases v.len(),
{
    if v.len() > 0 {
        let head = v.drop_last();
        let last = v.last();
        lemma_has_at_concat(s, pos, coord_parents_wire(head), coord_parent_wire(last));
        lemma_coord_parents_round_trip(s, pos, head);
        let p = pos + 8 * head.len();
        lemma_has_at_concat(s, p, coord_wire(last.parent), coord_wire(last.child));
        lemma_coord_round_trip(s, p, last.parent);
        lemma_coord_round_trip(s, p + 4, last.child);
        assert forall|i: int| 0 <= i < v.len() implies coord_parents_at(s, pos, v.len() as int)[i]
            == v[i] by {
            if i < head.len() {
                assert(coord_parents_at(s, pos, head.len() as int)[i] == head[i]);
            }
        }
    }
    assert(coord_parents_at(s, pos, v.len() as int) =~= v);
}

/// A run of track headers is read back from the bytes it was written as.
pub proof fn lemma_track_headers_round_trip(s: Seq<u8>, pos: int, v: Seq<TrackHeader>)
    requires
        has_at(s, pos, track_headers_wire(v)),
    ensures
        track_headers_at(s, pos, v.len() as int) == v,
        track_headers_wire(v).len() == 8 * v.len(),
    decreases v.len(),
{
    if v.len() > 0 {
        let head = v.drop_last();
        lemma_has_at_concat(s, pos, track_headers_wire(head), track_header_wire(v.last()));
        lemma_track_headers_round_trip(s, pos, head);
        lemma_track_header_round_trip(s, pos + 8 * head.len(), v.last());
        assert forall|i: int| 0 <= i < v.len() implies track_headers_at(s, pos, v.len() as int)[i]
            == v[i] by {
            if i < head.len() {
                assert(track_headers_at(s, pos, head.len() as int)[i] == head[i]);
            }
        }
    }
    assert(track_headers_at(s, pos, v.len() as int) =~= v);
}

/// A clump that can be written is read back from the bytes it was written as.
pub proof fn lemma_clump_round_trip(s: Seq<u8>, pos: int, c: AnmClumpView)
    requires
        clump_fits(c),
        has_at(s, pos, clump_wire(c)),
    ensures
        clump_parse(s, pos) == Some((c, pos + clump_wire(c).len())),
{
    let a = u32_wire(c.clump_index);
    let b = u16_wire(c.bone_material_indices.len() as u16);
    let m = u16_wire(c.model_indices.len() as u16);
    let bones = u32s_wire(c.bone_material_indices);
    let models = u32s_wire(c.model_indices);
    lemma_u32s_wire_len(c.bone_material_indices);
    lemma_u32s_wire_len(c.model_indices);
    lemma_has_at_concat(s, pos, a + b + m + bones, models);
    lemma_has_at_concat(s, pos, a + b + m, bones);
    lemma_has_at_concat(s, pos, a + b, m);
    lemma_has_at_concat(s, pos, a, b);
    lemma_u32_round_trip(s, pos, c.clump_index);
    lemma_u16_round_trip(s, pos + 4, c.bone_material_indices.len() as u16);
    lemma_u16_round_trip(s, pos + 6, c.model_indices.len() as u16);
    lemma_u32s_round_trip(s, pos + 8, c.bone_material_indices);
    lemma_u32s_round_trip(s, pos + 8 + 4 * c.bone_material_indices.len(), c.model_indices);
}

/// The first `k` clumps of a run that can be written are read back from the bytes they
/// were written as.
pub proof fn lemma_clumps_round_trip(s: Seq<u8>, pos: int, v: Seq<AnmClumpView>, k: nat)
    requires
        k <= v.len(),
        clumps_fit(v),
        has_at(s, pos, clumps_wire(v.subrange(0, k as int))),
    ensures
        clumps_parse(s, pos, k) == Some(
            (v.subrange(0, k as int), pos + clumps_wire(v.subrange(0, k as int)).len()),
        ),
    decreases k,
{
    let cur = v.subrange(0, k as int);
    if k == 0 {
        assert(cur =~= Seq::<AnmClumpView>::empty());
    } else {
        let head = v.subrange(0, k - 1);
        assert(cur.drop_last() =~= head);
        assert(cur.last() == v[k - 1]);
        lemma_has_at_concat(s, pos, clumps_wire(head), clump_wire(v[k - 1]));
        lemma_clumps_round_trip(s, pos, v, (k - 1) as nat);
        lemma_clump_round_trip(s, pos + clumps_wire(head).len(), v[k - 1]);
        assert(head.push(v[k - 1]) =~= cur);
    }
}

/// The first `k` tracks of a run that can be written under its headers are read back,
/// under the same headers, from the bytes they were written as.
pub proof fn lemma_tracks_round_trip(
    s: Seq<u8>,
    pos: int,
    headers: Seq<TrackHeader>,
    tracks: Seq<Seq<NuccAnmKey>>,
    k: nat,
)
    requires
        k <= tracks.len() <= headers.len(),
        tracks_check(headers, tracks, k).is_none(),
        has_at(s, pos, tracks_wire(tracks.subrange(0, k as int))),
    ensures
        tracks_parse(s, pos, headers, k) == Ok::<(Seq<Seq<NuccAnmKey>>, int), DecodeError>(
            (tracks.subrange(0, k as int), pos + tracks_wire(tracks.subrange(0, k as int)).len()),
        ),
    decreases k,
{
    let cur = tracks.subrange(0, k as int);
    if k == 0 {
        assert(cur =~= Seq::<Seq<NuccAnmKey>>::empty());
    } else {
        let head = tracks.subrange(0, k - 1);
        assert(cur.drop_last() =~= head);
        assert(cur.last() == tracks[k - 1]);
        lemma_has_at_concat(s, pos, tracks_wire(head), keys_wire(tracks[k - 1]));
        lemma_tracks_round_trip(s, pos, headers, tracks, (k - 1) as nat);
        lemma_track_round_trip(s, pos + tracks_wire(head).len(), headers[k - 1], tracks[k - 1]);
        assert(head.push(tracks[k - 1]) =~= cur);
    }
}

/// An entry that can be written is read back from the bytes it was written as, and
/// reading stops right after its padding.
#[verifier::rlimit(50)]
pub proof fn lemma_entry_round_trip(s: Seq<u8>, pos: int, e: AnmEntryView)
    requires
        entry_check(e).is_none(),
        has_at(s, pos, entry_wire(e)),
    ensures
        entry_parse(s, pos) == Ok::<(AnmEntryView, int), DecodeError>(
            (e, pos + entry_wire(e).len()),
        ),
{
    let c = coord_wire(e.coord);
    let f = u16_wire(e.entry_format.code());
    let n = u16_wire(e.track_headers.len() as u16);
    let h = track_headers_wire(e.track_headers);
    let t = tracks_wire(e.tracks);
    let body = entry_body(e);
    lemma_has_at_concat(s, pos, body, zeros(pad4(body.len() as int)));
    lemma_has_at_concat(s, pos, c + f + n + h, t);
    lemma_has_at_concat(s, pos, c + f + n, h);
    lemma_has_at_concat(s, pos, c + f, n);
    lemma_has_at_concat(s, pos, c, f);
    lemma_coord_round_trip(s, pos, e.coord);
    lemma_u16_round_trip(s, pos + 4, e.entry_format.code());
    lemma_u16_round_trip(s, pos + 6, e.track_headers.len() as u16);
    lemma_track_headers_round_trip(s, pos + 8, e.track_headers);
    assert(e.tracks.subrange(0, e.tracks.len() as int) =~= e.tracks);
    lemma_tracks_round_trip(
        s,
        pos + 8 + 8 * e.track_headers.len(),
        e.track_headers,
        e.tracks,
        e.tracks.len(),
    );
}

/// The first `k` entries of a run that can be written are read back from the bytes they
/// were written as.
pub proof fn lemma_entries_round_trip(s: Seq<u8>, pos: int, v: Seq<AnmEntryView>, k: nat)
    requires
        k <= v.len(),
        entries_check(v, k).is_none(),
        has_at(s, pos, entries_wire(v.subrange(0, k as int))),
    ensures
        entries_parse(s, pos, k) == Ok::<(Seq<AnmEntryView>, int), DecodeError>(
            (v.subrange(0, k as int), pos + entries_wire(v.subrange(0, k as int)).len()),
        ),
    decreases k,
{
    let cur = v.subrange(0, k as int);
    if k == 0 {
        assert(cur =~= Seq::<AnmEntryView>::empty());
    } else {
        let head = v.subrange(0, k - 1);
        assert(cur.drop_last() =~= head);
        assert(cur.last() == v[k - 1]);
        lemma_has_at_concat(s, pos, entries_wire(head), entry_wire(v[k - 1]));
        lemma_entries_round_trip(s, pos, v, (k - 1) as nat);
        lemma_entry_round_trip(s, pos + entries_wire(head).len(), v[k - 1]);
        assert(head.push(v[k - 1]) =~= cur);
    }
}

/// Decoding inverts encoding: an animation chunk that can be written is decoded, from any
/// buffer that starts with the bytes it was written as, to the chunk itself.
#[verifier::rlimit(50)]
pub proof fn lemma_anm_round_trip(s: Seq<u8>, a: NuccChunkAnmView)
    requires
        anm_check(a).is_none(),
        has_at(s, 0, anm_wire(a)),
    ensures
        anm_parse(s, a.version) == Ok::<NuccChunkAnmView, DecodeError>(a),
{
    let w0 = u32_wire(a.frame_count);
    let w1 = u32_wire(anm_frame_size());
    let w2 = u16_wire(a.entries.len() as u16);
    let w3 = u16_wire(a.is_looped);
    let w4 = u16_wire(a.clumps.len() as u16);
    let w5 = u16_wire(a.other_entries_indices.len() as u16);
    let w6 = u16_wire(a.unk_entry_indices.len() as u16);
    let w7 = u16_wire(a.coord_parents.len() as u16);
    let w8 = clumps_wire(a.clumps);
    let w9 = u32s_wire(a.other_entries_indices);
    let w10 = u32s_wire(a.unk_entry_indices);
    let w11 = coord_parents_wire(a.coord_parents);
    let w12 = entries_wire(a.entries);
    lemma_has_at_concat(s, 0, w0 + w1 + w2 + w3 + w4 + w5 + w6 + w7 + w8 + w9 + w10 + w11, w12);
    lemma_has_at_concat(s, 0, w0 + w1 + w2 + w3 + w4 + w5 + w6 + w7 + w8 + w9 + w10, w11);
    lemma_has_at_concat(s, 0, w0 + w1 + w2 + w3 + w4 + w5 + w6 + w7 + w8 + w9, w10);
    lemma_has_at_concat(s, 0, w0 + w1 + w2 + w3 + w4 + w5 + w6 + w7 + w8, w9);
    lemma_has_at_concat(s, 0, w0 + w1 + w2 + w3 + w4 + w5 + w6 + w7, w8);
    lemma_has_at_concat(s, 0, w0 + w1 + w2 + w3 + w4 + w5 + w6, w7);
    lemma_has_at_concat(s, 0, w0 + w1 + w2 + w3 + w4 + w5, w6);
    lemma_has_at_concat(s, 0, w0 + w1 + w2 + w3 + w4, w5);
    lemma_has_at_concat(s, 0, w0 + w1 + w2 + w3, w4);
    lemma_has_at_concat(s, 0, w0 + w1 + w2, w3);
    lemma_has_at_concat(s, 0, w0 + w1, w2);
    lemma_has_at_concat(s, 0, w0, w1);
    lemma_u32_round_trip(s, 0, a.frame_count);
    lemma_u16_round_trip(s, 8, a.entries.len() as u16);
    lemma_u16_round_trip(s, 10, a.is_looped);
    lemma_u16_round_trip(s, 12, a.clumps.len() as u16);
    lemma_u16_round_trip(s, 14, a.other_entries_indices.len() as u16);
    lemma_u16_round_trip(s, 16, a.unk_entry_indices.len() as u16);
    lemma_u16_round_trip(s, 18, a.coord_parents.len() as u16);
    assert(a.clumps.subrange(0, a.clumps.len() as int) =~= a.clumps);
    lemma_clumps_round_trip(s, 20, a.clumps, a.clumps.len());
    let p: int = 20 + w8.len() as int;
    lemma_u32s_round_trip(s, p, a.other_entries_indices);
    lemma_u32s_round_trip(s, p + w9.len(), a.unk_entry_indices);
    lemma_coord_parents_round_trip(s, p + w9.len() + w10.len(), a.coord_parents);
    assert(a.entries.subrange(0, a.entries.len() as int) =~= a.entries);
    lemma_entries_round_trip(s, p + w9.len() + w10.len() + w11.len(), a.entries, a.entries.len());
}


/// A run of clumps is written as a multiple of four bytes.
pub proof fn lemma_clumps_wire_aligned(v: Seq<AnmClumpView>)
    ensures
        clumps_wire(v).len() % 4 == 0,
    decreases v.len(),
{
    if v.len() > 0 {
        lemma_clumps_wire_aligned(v.drop_last());
        lemma_u32s_wire_len(v.last().bone_material_indices);
        lemma_u32s_wire_len(v.last().model_indices);
    }
}

/// A run of coordinate pairs is written as eight bytes for each.
pub proof fn lemma_coord_parents_wire_len(v: Seq<CoordParent>)
    ensures
        coord_parents_wire(v).len() == 8 * v.len(),
    decreases v.len(),
{
    if v.len() > 0 {
        lemma_coord_parents_wire_len(v.drop_last());
    }
}

/// An entry is written as a multiple of four bytes.
pub proof fn lemma_entry_wire_aligned(e: AnmEntryView)
    ensures
        entry_wire(e).len() % 4 == 0,
{
    let body = entry_body(e);
    lemma_pad4(body.len() as int);
    assert(entry_wire(e).len() == body.len() + pad4(body.len() as int));
}

/// A run of entries is written as a multiple of four bytes: each entry is padded to one.
pub proof fn lemma_entries_wire_aligned(v: Seq<AnmEntryView>)
    ensures
        entries_wire(v).len() % 4 == 0,
    decreases v.len(),
{
    if v.len() > 0 {
        lemma_entries_wire_aligned(v.drop_last());
        lemma_entry_wire_aligned(v.last());
        lemma_sum_aligned(
            entries_wire(v.drop_last()).len() as int,
            entry_wire(v.last()).len() as int,
        );
    }
}

/// The number of bytes of an animation chunk's payload before its entries.
pub proof fn lemma_anm_head_len(a: NuccChunkAnmView)
    ensures
        anm_head_wire(a).len() == 20 + clumps_wire(a.clumps).len() + u32s_wire(
            a.other_entries_indices,
        ).len() + u32s_wire(a.unk_entry_indices).len() + coord_parents_wire(a.coord_parents).len(),
{
}

/// Every entry of an animation chunk starts at a multiple of four bytes of the payload,
/// so that padding an entry's length to a multiple of four is padding its end to one.
pub proof fn lemma_entries_start_aligned(a: NuccChunkAnmView, k: int)
    requires
        0 <= k <= a.entries.len(),
    ensures
        (anm_head_wire(a).len() + entries_wire(a.entries.subrange(0, k)).len()) % 4 == 0,
{
    lemma_anm_head_len(a);
    lemma_clumps_wire_aligned(a.clumps);
    lemma_u32s_wire_len(a.other_entries_indices);
    lemma_u32s_wire_len(a.unk_entry_indices);
    lemma_coord_parents_wire_len(a.coord_parents);
    lemma_entries_wire_aligned(a.entries.subrange(0, k));
    let lists: int = 4 * a.other_entries_indices.len() + 4 * a.unk_entry_indices.len() + 8
        * a.coord_parents.len() as int;
    lemma_sum_aligned(20 + lists, clumps_wire(a.clumps).len() as int);
    lemma_sum_aligned(
        20 + lists + clumps_wire(a.clumps).len() as int,
        entries_wire(a.entries.subrange(0, k)).len() as int,
    );
}

} // verus!
