//! The animation stream chunk of the previous generation: clumps, coordinate parents and
//! one frame record for each frame chunk of the stream.

use vstd::prelude::*;
use crate::bytes::{
    has_at, in_bounds, lemma_has_at_concat, lemma_u16_round_trip, lemma_u32_round_trip,
    lemma_u32s_round_trip, lemma_u32s_wire_len, push_u16, push_u32, push_u32s, push_zeros,
    read_u16, read_u32, read_u32s, u16_at, u16_wire, u32_at, u32_wire, u32s_at, u32s_wire,
    zeros,
};
use crate::error::{DecodeError, EncodeError};
use crate::nucc_chunk::nucc_chunk_anm::{
    anm_frame_size, clump_fits, coord_parents_at, coord_parents_wire,
    lemma_coord_parents_round_trip, put_coord_parents, read_coord_parents, AnmClumpView,
    CoordParent,
};

verus! {

/// A clump of a stream. On the wire its model list is followed by as many reserved words.
#[derive(Clone, Debug, PartialEq, Eq)]
pub struct AnmStrmClump {
    pub clump_index: u32,
    pub bone_material_indices: Vec<u32>,
    pub model_indices: Vec<u32>,
}

impl View for AnmStrmClump {
    type V = AnmClumpView;

    open spec fn view(&self) -> AnmClumpView {
        AnmClumpView {
            clump_index: self.clump_index,
            bone_material_indices: self.bone_material_indices@,
            model_indices: self.model_indices@,
        }
    }
}

/// Where one frame of the stream is found.
#[derive(Clone, Copy, Debug, PartialEq, Eq)]
pub struct AnmStrmFrameInfo {
    pub unknown: u16,
    pub frame_offset: u16,
    pub frame_number: u32,
}

/// The animation stream chunk. `version` comes from the chunk's frame and is not part of
/// the payload. `unk_entry_count` is a stored field: it says how many of the indices, at
/// the end of the index list, belong to unknown entries. The count written before it is
/// the number of the others, so that the two together are the length of the list.
#[derive(Clone, Debug, PartialEq, Eq)]
pub struct NuccChunkAnmStrm {
    pub version: u16,
    pub frame_count: u32,
    pub is_looped: u16,
    pub unk_entry_count: u16,
    pub clumps: Vec<AnmStrmClump>,
    pub other_entry_indices: Vec<u32>,
    pub coord_parents: Vec<CoordParent>,
    pub entries: Vec<AnmStrmFrameInfo>,
}

/// What a `NuccChunkAnmStrm` holds.
pub struct NuccChunkAnmStrmView {
    pub version: u16,
    pub frame_count: u32,
    pub is_looped: u16,
    pub unk_entry_count: u16,
    pub clumps: Seq<AnmClumpView>,
    pub other_entry_indices: Seq<u32>,
    pub coord_parents: Seq<CoordParent>,
    pub entries: Seq<AnmStrmFrameInfo>,
}

/// What each clump of a list holds.
pub open spec fn strm_clumps_view(v: Seq<AnmStrmClump>) -> Seq<AnmClumpView> {
    v.map_values(|c: AnmStrmClump| c@)
}

impl View for NuccChunkAnmStrm {
    type V = NuccChunkAnmStrmView;

    open spec fn view(&self) -> NuccChunkAnmStrmView {
        NuccChunkAnmStrmView {
            version: self.version,
            frame_count: self.frame_count,
            is_looped: self.is_looped,
            unk_entry_count: self.unk_entry_count,
            clumps: strm_clumps_view(self.clumps@),
            other_entry_indices: self.other_entry_indices@,
            coord_parents: self.coord_parents@,
            entries: self.entries@,
        }
    }
}

/// What reading a stream clump at `pos` gives: the clump and the position after the
/// reserved words that follow its model list, or `None` where the buffer ends before.
pub open spec fn strm_clump_parse(s: Seq<u8>, pos: int) -> Option<(AnmClumpView, int)> {
    if !in_bounds(s, pos, 8) {
        None
    } else {
        let bones = u16_at(s, pos + 4) as int;
        let models = u16_at(s, pos + 6) as int;
        if !in_bounds(s, pos + 8, 4 * bones + 8 * models) {
            None
        } else {
            Some(
                (
                    AnmClumpView {
                        clump_index: u32_at(s, pos),
                        bone_material_indices: u32s_at(s, pos + 8, bones),
                        model_indices: u32s_at(s, pos + 8 + 4 * bones, models),
                    },
                    pos + 8 + 4 * bones + 8 * models,
                ),
            )
        }
    }
}

/// The bytes a stream clump is written as: its index, the two counts, the two lists, and
/// one zero word for each model.
pub open spec fn strm_clump_wire(c: AnmClumpView) -> Seq<u8> {
    u32_wire(c.clump_index) + u16_wire(c.bone_material_indices.len() as u16) + u16_wire(
        c.model_indices.len() as u16,
    ) + u32s_wire(c.bone_material_indices) + u32s_wire(c.model_indices) + zeros(
        4 * c.model_indices.len() as int,
    )
}

/// What reading `n` stream clumps one after the other gives.
pub open spec fn strm_clumps_parse(s: Seq<u8>, pos: int, n: nat) -> Option<
    (Seq<AnmClumpView>, int),
>
    decreases n,
{
    if n == 0 {
        Some((Seq::empty(), pos))
    } else {
        match strm_clumps_parse(s, pos, (n - 1) as nat) {
            None => None,
            Some((head, p)) => match strm_clump_parse(s, p) {
                None => None,
                Some((c, q)) => Some((head.push(c), q)),
            },
        }
    }
}

/// The bytes a run of stream clumps is written as.
pub open spec fn strm_clumps_wire(v: Seq<AnmClumpView>) -> Seq<u8>
    decreases v.len(),
{
    if v.len() == 0 {
        Seq::empty()
    } else {
        strm_clumps_wire(v.drop_last()) + strm_clump_wire(v.last())
    }
}

/// Every clump of the run can be written.
pub open spec fn strm_clumps_fit(v: Seq<AnmClumpView>) -> bool {
    forall|i: int| 0 <= i < v.len() ==> clump_fits(#[trigger] v[i])
}

/// The frame record that the eight bytes at `pos` stand for.
pub open spec fn frame_info_at(s: Seq<u8>, pos: int) -> AnmStrmFrameInfo {
    AnmStrmFrameInfo {
        unknown: u16_at(s, pos),
        frame_offset: u16_at(s, pos + 2),
        frame_number: u32_at(s, pos + 4),
    }
}

/// The eight bytes a frame record is written as.
pub open spec fn frame_info_wire(f: AnmStrmFrameInfo) -> Seq<u8> {
    u16_wire(f.unknown) + u16_wire(f.frame_offset) + u32_wire(f.frame_number)
}

/// The `n` frame records that start at `pos`.
pub open spec fn frame_infos_at(s: Seq<u8>, pos: int, n: int) -> Seq<AnmStrmFrameInfo> {
    Seq::new(n as nat, |i: int| frame_info_at(s, pos + 8 * i))
}

/// The bytes a run of frame records is written as.
pub open spec fn frame_infos_wire(v: Seq<AnmStrmFrameInfo>) -> Seq<u8>
    decreases v.len(),
{
    if v.len() == 0 {
        Seq::empty()
    } else {
        frame_infos_wire(v.drop_last()) + frame_info_wire(v.last())
    }
}

/// What decoding an animation stream chunk's payload gives. The frame size field is
/// skipped; the index list has as many elements as the two counts before it say together.
/// Bytes after the last frame record are ignored.
pub open spec fn anmstrm_parse(s: Seq<u8>, version: u16) -> Result<
    NuccChunkAnmStrmView,
    DecodeError,
> {
    if !in_bounds(s, 0, 20) {
        Err(DecodeError::Truncated)
    } else {
        let entry_count = u16_at(s, 8) as int;
        let clump_count = u16_at(s, 12) as int;
        let index_count = u16_at(s, 14) as int + u16_at(s, 16) as int;
        let coord_count = u16_at(s, 18) as int;
        match strm_clumps_parse(s, 20, clump_count as nat) {
            None => Err(DecodeError::Truncated),
            Some((clumps, p)) => {
                if !in_bounds(s, p, 4 * index_count + 8 * coord_count + 8 * entry_count) {
                    Err(DecodeError::Truncated)
                } else {
                    Ok(
                        NuccChunkAnmStrmView {
                            version,
                            frame_count: u32_at(s, 0),
                            is_looped: u16_at(s, 10),
                            unk_entry_count: u16_at(s, 16),
                            clumps,
                            other_entry_indices: u32s_at(s, p, index_count),
                            coord_parents: coord_parents_at(s, p + 4 * index_count, coord_count),
                            entries: frame_infos_at(
                                s,
                                p + 4 * index_count + 8 * coord_count,
                                entry_count,
                            ),
                        },
                    )
                }
            },
        }
    }
}

/// The bytes an animation stream chunk's payload is written as. The count before
/// `unk_entry_count` is the length of the index list less `unk_entry_count`.
pub open spec fn anmstrm_wire(a: NuccChunkAnmStrmView) -> Seq<u8> {
    u32_wire(a.frame_count) + u32_wire(anm_frame_size()) + u16_wire(a.entries.len() as u16)
        + u16_wire(a.is_looped) + u16_wire(a.clumps.len() as u16) + u16_wire(
        (a.other_entry_indices.len() - a.unk_entry_count) as u16,
    ) + u16_wire(a.unk_entry_count) + u16_wire(a.coord_parents.len() as u16) + strm_clumps_wire(
        a.clumps,
    ) + u32s_wire(a.other_entry_indices) + coord_parents_wire(a.coord_parents)
        + frame_infos_wire(a.entries)
}

/// Why an animation stream chunk cannot be written, if it cannot: a list is longer than
/// its 16-bit count can say, or `unk_entry_count` is more than the index list holds.
pub open spec fn anmstrm_check(a: NuccChunkAnmStrmView) -> Option<EncodeError> {
    if a.entries.len() > 0xFFFF || a.clumps.len() > 0xFFFF || a.other_entry_indices.len()
        > 0xFFFF || a.coord_parents.len() > 0xFFFF || !strm_clumps_fit(a.clumps) {
        Some(EncodeError::TooLarge)
    } else if a.unk_entry_count > a.other_entry_indices.len() {
        Some(EncodeError::EntryCountMismatch)
    } else {
        None
    }
}

/// Reads the stream clump at `pos`.
pub fn read_strm_clump(data: &[u8], pos: usize) -> (r: Option<(AnmStrmClump, usize)>)
    ensures
        match strm_clump_parse(data@, pos as int) {
            Some((c, next)) => r matches Some((x, n)) && x@ == c && n == next,
            None => r.is_none(),
        },
{
    if pos > data.len() || 8 > data.len() - pos {
        return None;
    }
    let clump_index: u32 = read_u32(data, pos).unwrap();
    let bones: usize = read_u16(data, pos + 4).unwrap() as usize;
    let models: usize = read_u16(data, pos + 6).unwrap() as usize;
    let start: usize = pos + 8;
    if 4 * bones + 8 * models > data.len() - start {
        return None;
    }
    let bone_material_indices = read_u32s(data, start, bones).unwrap();
    let model_indices = read_u32s(data, start + 4 * bones, models).unwrap();
    Some(
        (
            AnmStrmClump { clump_index, bone_material_indices, model_indices },
            start + 4 * bones + 8 * models,
        ),
    )
}

/// Appends a stream clump whose lists fit their counts.
pub(crate) fn put_strm_clump(c: &AnmStrmClump, out: &mut Vec<u8>)
    requires
        clump_fits(c@),
    ensures
        final(out)@ == old(out)@ + strm_clump_wire(c@),
{
    push_u32(out, c.clump_index);
    push_u16(out, c.bone_material_indices.len() as u16);
    push_u16(out, c.model_indices.len() as u16);
    push_u32s(out, c.bone_material_indices.as_slice());
    push_u32s(out, c.model_indices.as_slice());
    push_zeros(out, 4 * c.model_indices.len());
    assert(out@ =~= old(out)@ + strm_clump_wire(c@));
}

/// Once reading a run of stream clumps has failed, reading a longer run fails too.
pub proof fn lemma_strm_clumps_parse_none(s: Seq<u8>, pos: int, k: nat, n: nat)
    requires
        k <= n,
        strm_clumps_parse(s, pos, k).is_none(),
    ensures
        strm_clumps_parse(s, pos, n).is_none(),
    decreases n,
{
    if k < n {
        lemma_strm_clumps_parse_none(s, pos, k, (n - 1) as nat);
    }
}

/// A run of stream clumps that is read ends inside the buffer.
pub proof fn lemma_strm_clumps_parse_bounds(s: Seq<u8>, pos: int, n: nat)
    requires
        0 <= pos <= s.len(),
    ensures
        strm_clumps_parse(s, pos, n) matches Some((v, next)) ==> pos <= next <= s.len()
            && v.len() == n,
    decreases n,
{
    if n > 0 {
        lemma_strm_clumps_parse_bounds(s, pos, (n - 1) as nat);
    }
}

/// Reads `n` stream clumps one after the other.
pub fn read_strm_clumps(data: &[u8], pos: usize, n: usize) -> (r: Option<
    (Vec<AnmStrmClump>, usize),
>)
    ensures
        match strm_clumps_parse(data@, pos as int, n as nat) {
            Some((v, next)) => r matches Some((x, m)) && strm_clumps_view(x@) == v && m == next,
            None => r.is_none(),
        },
{
    let mut out: Vec<AnmStrmClump> = Vec::new();
    let mut p: usize = pos;
    let mut i: usize = 0;
    assert(strm_clumps_view(out@) =~= Seq::<AnmClumpView>::empty());
    while i < n
        invariant
            i <= n,
            strm_clumps_parse(data@, pos as int, i as nat) == Some(
                (strm_clumps_view(out@), p as int),
            ),
        decreases n - i,
    {
        match read_strm_clump(data, p) {
            None => {
                proof {
                    lemma_strm_clumps_parse_none(data@, pos as int, (i + 1) as nat, n as nat);
                }
                return None;
            },
            Some((c, q)) => {
                let ghost before = out@;
                out.push(c);
                assert(strm_clumps_view(out@) =~= strm_clumps_view(before).push(c@));
                p = q;
            },
        }
        i += 1;
    }
    Some((out, p))
}

/// Says whether every stream clump of a list can be written.
pub fn check_strm_clumps(v: &Vec<AnmStrmClump>) -> (r: bool)
    ensures
        r == strm_clumps_fit(strm_clumps_view(v@)),
{
    let mut i: usize = 0;
    while i < v.len()
        invariant
            i <= v@.len(),
            forall|j: int| 0 <= j < i ==> clump_fits(#[trigger] strm_clumps_view(v@)[j]),
        decreases v@.len() - i,
    {
        if v[i].bone_material_indices.len() > 0xFFFF || v[i].model_indices.len() > 0xFFFF {
            assert(!clump_fits(strm_clumps_view(v@)[i as int]));
            return false;
        }
        i += 1;
    }
    true
}

/// Appends a run of stream clumps that can all be written.
pub(crate) fn put_strm_clumps(v: &Vec<AnmStrmClump>, out: &mut Vec<u8>)
    requires
        strm_clumps_fit(strm_clumps_view(v@)),
    ensures
        final(out)@ == old(out)@ + strm_clumps_wire(strm_clumps_view(v@)),
{
    let mut i: usize = 0;
    let ghost all = strm_clumps_view(v@);
    assert(strm_clumps_wire(all.subrange(0, 0)) =~= Seq::<u8>::empty());
    while i < v.len()
        invariant
            i <= v@.len(),
            all == strm_clumps_view(v@),
            strm_clumps_fit(all),
            out@ == old(out)@ + strm_clumps_wire(all.subrange(0, i as int)),
        decreases v@.len() - i,
    {
        assert(clump_fits(all[i as int]));
        put_strm_clump(&v[i], out);
        proof {
            let next = all.subrange(0, i + 1);
            assert(next.drop_last() =~= all.subrange(0, i as int));
            assert(next.last() == v@[i as int]@);
            assert(out@ =~= old(out)@ + strm_clumps_wire(next));
        }
        i += 1;
    }
    assert(all.subrange(0, all.len() as int) =~= all);
}

/// Reads `n` frame records starting at `pos`, if they are there.
pub fn read_frame_infos(data: &[u8], pos: usize, n: usize) -> (r: Option<Vec<AnmStrmFrameInfo>>)
    ensures
        in_bounds(data@, pos as int, 8 * n) ==> r.is_some() && r.unwrap()@ == frame_infos_at(
            data@,
            pos as int,
            n as int,
        ),
        !in_bounds(data@, pos as int, 8 * n) ==> r.is_none(),
{
    if pos > data.len() || n > (data.len() - pos) / 8 {
        return None;
    }
    let mut out: Vec<AnmStrmFrameInfo> = Vec::new();
    let mut i: usize = 0;
    while i < n
        invariant
            i <= n,
            pos + 8 * n <= data@.len() <= usize::MAX,
            out@ == frame_infos_at(data@, pos as int, i as int),
        decreases n - i,
    {
        let unknown: u16 = read_u16(data, pos + 8 * i).unwrap();
        let frame_offset: u16 = read_u16(data, pos + 8 * i + 2).unwrap();
        let frame_number: u32 = read_u32(data, pos + 8 * i + 4).unwrap();
        out.push(AnmStrmFrameInfo { unknown, frame_offset, frame_number });
        i += 1;
        assert(out@ =~= frame_infos_at(data@, pos as int, i as int));
    }
    Some(out)
}

/// Appends a run of frame records.
pub fn put_frame_infos(v: &Vec<AnmStrmFrameInfo>, out: &mut Vec<u8>)
    ensures
        final(out)@ == old(out)@ + frame_infos_wire(v@),
{
    let mut i: usize = 0;
    assert(frame_infos_wire(v@.subrange(0, 0)) =~= Seq::<u8>::empty());
    while i < v.len()
        invariant
            i <= v@.len(),
            out@ == old(out)@ + frame_infos_wire(v@.subrange(0, i as int)),
        decreases v@.len() - i,
    {
        let ghost before = out@;
        push_u16(out, v[i].unknown);
        push_u16(out, v[i].frame_offset);
        push_u32(out, v[i].frame_number);
        proof {
            let next = v@.subrange(0, i + 1);
            assert(next.drop_last() =~= v@.subrange(0, i as int));
            assert(next.last() == v@[i as int]);
            assert(out@ =~= before + frame_info_wire(v@[i as int]));
            assert(out@ =~= old(out)@ + frame_infos_wire(next));
        }
        i += 1;
    }
    assert(v@.subrange(0, v@.len() as int) =~= v@);
}

impl NuccChunkAnmStrm {
    /// Decodes an animation stream chunk from its payload.
    #[verifier::rlimit(50)]
    pub fn read(data: &[u8], version: u16) -> (r: Result<NuccChunkAnmStrm, DecodeError>)
        ensures
            match anmstrm_parse(data@, version) {
                Ok(a) => r matches Ok(x) && x@ == a,
                Err(e) => r matches Err(x) && x == e,
            },
    {
        if 20 > data.len() {
            return Err(DecodeError::Truncated);
        }
        let frame_count: u32 = read_u32(data, 0).unwrap();
        let entry_count: usize = read_u16(data, 8).unwrap() as usize;
        let is_looped: u16 = read_u16(data, 10).unwrap();
        let clump_count: usize = read_u16(data, 12).unwrap() as usize;
        let other_count: usize = read_u16(data, 14).unwrap() as usize;
        let unk_entry_count: u16 = read_u16(data, 16).unwrap();
        let coord_count: usize = read_u16(data, 18).unwrap() as usize;
        let index_count: usize = other_count + unk_entry_count as usize;
        let (clumps, p) = match read_strm_clumps(data, 20, clump_count) {
            None => {
                return Err(DecodeError::Truncated);
            },
            Some(x) => x,
        };
        proof {
            lemma_strm_clumps_parse_bounds(data@, 20, clump_count as nat);
        }
        if 4 * index_count + 8 * coord_count + 8 * entry_count > data.len() - p {
            return Err(DecodeError::Truncated);
        }
        let other_entry_indices = read_u32s(data, p, index_count).unwrap();
        let coord_parents = read_coord_parents(data, p + 4 * index_count, coord_count).unwrap();
        let entries = read_frame_infos(
            data,
            p + 4 * index_count + 8 * coord_count,
            entry_count,
        ).unwrap();
        Ok(
            NuccChunkAnmStrm {
                version,
                frame_count,
                is_looped,
                unk_entry_count,
                clumps,
                other_entry_indices,
                coord_parents,
                entries,
            },
        )
    }

    /// Encodes the chunk's payload. Every count but `unk_entry_count` is computed from the
    /// list it governs; the count before it is the rest of the index list.
    #[verifier::rlimit(50)]
    pub fn write(&self) -> (r: Result<Vec<u8>, EncodeError>)
        ensures
            match anmstrm_check(self@) {
                None => r matches Ok(v) && v@ == anmstrm_wire(self@),
                Some(err) => r matches Err(x) && x == err,
            },
    {
        if self.entries.len() > 0xFFFF || self.clumps.len() > 0xFFFF
            || self.other_entry_indices.len() > 0xFFFF || self.coord_parents.len() > 0xFFFF {
            return Err(EncodeError::TooLarge);
        }
        if !check_strm_clumps(&self.clumps) {
            return Err(EncodeError::TooLarge);
        }
        if self.unk_entry_count as usize > self.other_entry_indices.len() {
            return Err(EncodeError::EntryCountMismatch);
        }
        let mut out: Vec<u8> = Vec::new();
        push_u32(&mut out, self.frame_count);
        push_u32(&mut out, 100);
        push_u16(&mut out, self.entries.len() as u16);
        push_u16(&mut out, self.is_looped);
        push_u16(&mut out, self.clumps.len() as u16);
        push_u16(&mut out, (self.other_entry_indices.len() - self.unk_entry_count as usize) as u16);
        push_u16(&mut out, self.unk_entry_count);
        push_u16(&mut out, self.coord_parents.len() as u16);
        put_strm_clumps(&self.clumps, &mut out);
        push_u32s(&mut out, self.other_entry_indices.as_slice());
        put_coord_parents(&self.coord_parents, &mut out);
        put_frame_infos(&self.entries, &mut out);
        assert(out@ =~= anmstrm_wire(self@));
        Ok(out)
    }
}

/// A stream clump that can be written is read back from the bytes it was written as.
pub proof fn lemma_strm_clump_round_trip(s: Seq<u8>, pos: int, c: AnmClumpView)
    requires
        clump_fits(c),
        has_at(s, pos, strm_clump_wire(c)),
    ensures
        strm_clump_parse(s, pos) == Some((c, pos + strm_clump_wire(c).len())),
{
    let a = u32_wire(c.clump_index);
    let b = u16_wire(c.bone_material_indices.len() as u16);
    let m = u16_wire(c.model_indices.len() as u16);
    let bones = u32s_wire(c.bone_material_indices);
    let models = u32s_wire(c.model_indices);
    lemma_u32s_wire_len(c.bone_material_indices);
    lemma_u32s_wire_len(c.model_indices);
    lemma_has_at_concat(s, pos, a + b + m + bones + models, zeros(4 * c.model_indices.len() as int));
    lemma_has_at_concat(s, pos, a + b + m + bones, models);
    lemma_has_at_concat(s, pos, a + b + m, bones);
    lemma_has_at_concat(s, pos, a + b, m);
    lemma_has_at_concat(s, pos, a, b);
    lemma_u32_round_trip(s, pos, c.clump_index);
    lemma_u16_round_trip(s, pos + 4, c.bone_material_indices.len() as u16);
    lemma_u16_round_trip(s, pos + 6, c.model_indices.len() as u16);
    lemma_u32s_round_trip(s, pos + 8, c.bone_material_indices);
    lemma_u32s_round_trip(s, pos + 8 + 4 * c.bone_material_indices.len(), c.model_indices);
}

/// The first `k` stream clumps of a run that can be written are read back from the bytes
/// they were written as.
pub proof fn lemma_strm_clumps_round_trip(s: Seq<u8>, pos: int, v: Seq<AnmClumpView>, k: nat)
    requires
        k <= v.len(),
        strm_clumps_fit(v),
        has_at(s, pos, strm_clumps_wire(v.subrange(0, k as int))),
    ensures
        strm_clumps_parse(s, pos, k) == Some(
            (v.subrange(0, k as int), pos + strm_clumps_wire(v.subrange(0, k as int)).len()),
        ),
    decreases k,
{
    let cur = v.subrange(0, k as int);
    if k == 0 {
        assert(cur =~= Seq::<AnmClumpView>::empty());
    } else {
        let head = v.subrange(0, k - 1);
        assert(cur.drop_last() =~= head);
        assert(cur.last() == v[k - 1]);
        lemma_has_at_concat(s, pos, strm_clumps_wire(head), strm_clump_wire(v[k - 1]));
        lemma_strm_clumps_round_trip(s, pos, v, (k - 1) as nat);
        lemma_strm_clump_round_trip(s, pos + strm_clumps_wire(head).len(), v[k - 1]);
        assert(head.push(v[k - 1]) =~= cur);
    }
}

/// A run of frame records is read back from the bytes it was written as.
pub proof fn lemma_frame_infos_round_trip(s: Seq<u8>, pos: int, v: Seq<AnmStrmFrameInfo>)
    requires
        has_at(s, pos, frame_infos_wire(v)),
    ensures
        frame_infos_at(s, pos, v.len() as int) == v,
        frame_infos_wire(v).len() == 8 * v.len(),
    decreases v.len(),
{
    if v.len() > 0 {
        let head = v.drop_last();
        let last = v.last();
        lemma_has_at_concat(s, pos, frame_infos_wire(head), frame_info_wire(last));
        lemma_frame_infos_round_trip(s, pos, head);
        let p = pos + 8 * head.len();
        lemma_has_at_concat(
            s,
            p,
            u16_wire(last.unknown) + u16_wire(last.frame_offset),
            u32_wire(last.frame_number),
        );
        lemma_has_at_concat(s, p, u16_wire(last.unknown), u16_wire(last.frame_offset));
        lemma_u16_round_trip(s, p, last.unknown);
        lemma_u16_round_trip(s, p + 2, last.frame_offset);
        lemma_u32_round_trip(s, p + 4, last.frame_number);
        assert forall|i: int| 0 <= i < v.len() implies frame_infos_at(s, pos, v.len() as int)[i]
            == v[i] by {
            if i < head.len() {
                assert(frame_infos_at(s, pos, head.len() as int)[i] == head[i]);
            }
        }
    }
    assert(frame_infos_at(s, pos, v.len() as int) =~= v);
}

/// Decoding inverts encoding: an animation stream chunk that can be written is decoded,
/// from any buffer that starts with the bytes it was written as, to the chunk itself.
#[verifier::rlimit(50)]
pub proof fn lemma_anmstrm_round_trip(s: Seq<u8>, a: NuccChunkAnmStrmView)
    requires
        anmstrm_check(a).is_none(),
        has_at(s, 0, anmstrm_wire(a)),
    ensures
        anmstrm_parse(s, a.version) == Ok::<NuccChunkAnmStrmView, DecodeError>(a),
{
    let w0 = u32_wire(a.frame_count);
    let w1 = u32_wire(anm_frame_size());
    let w2 = u16_wire(a.entries.len() as u16);
    let w3 = u16_wire(a.is_looped);
    let w4 = u16_wire(a.clumps.len() as u16);
    let w5 = u16_wire((a.other_entry_indices.len() - a.unk_entry_count) as u16);
    let w6 = u16_wire(a.unk_entry_count);
    let w7 = u16_wire(a.coord_parents.len() as u16);
    let w8 = strm_clumps_wire(a.clumps);
    let w9 = u32s_wire(a.other_entry_indices);
    let w10 = coord_parents_wire(a.coord_parents);
    let w11 = frame_infos_wire(a.entries);
    lemma_has_at_concat(s, 0, w0 + w1 + w2 + w3 + w4 + w5 + w6 + w7 + w8 + w9 + w10, w11);
    lemma_has_at_concat(s, 0, w0 + w1 + w2 + w3 + w4 + w5 + w6 + w7 + w8 + w9, w10);
    lemma_has_at_concat(s, 0, w0 + w1 + w2 + w3 + w4 + w5 + w6 + w7 + w8, w9);
    lemma_has_at_concat(s, 0, w0 + w1 + w2 + w3 + w4 + w5 + w6 + w7, w8);
    lemma_has_at_concat(s, 0, w0 + w1 + w2 + w3 + w4 + w5 + w6, w7);
    lemma_has_at_concat(s, 0, w0 + w1 + w2 + w3 + w4 + w5, w6);
    lemma_has_at_concat(s, 0, w0 + w1 + w2 + w3 + w4, w5);
    lemma_has_at_concat(s, 0, w0 + w1 + w2 + w3, w4);
    lemma_has_at_concat(s, 0, w0 + w1 + w2, w3);
    lemma_has_at_concat(s, 0, w0 + w1, w2);
    lemma_has_at_concat(s, 0, w0, w1);
    lemma_u32_round_trip(s, 0, a.frame_count);
    lemma_u16_round_trip(s, 8, a.entries.len() as u16);
    lemma_u16_round_trip(s, 10, a.is_looped);
    lemma_u16_round_trip(s, 12, a.clumps.len() as u16);
    lemma_u16_round_trip(s, 14, (a.other_entry_indices.len() - a.unk_entry_count) as u16);
    lemma_u16_round_trip(s, 16, a.unk_entry_count);
    lemma_u16_round_trip(s, 18, a.coord_parents.len() as u16);
    assert(a.clumps.subrange(0, a.clumps.len() as int) =~= a.clumps);
    lemma_strm_clumps_round_trip(s, 20, a.clumps, a.clumps.len());
    let p: int = 20 + w8.len() as int;
    lemma_u32s_round_trip(s, p, a.other_entry_indices);
    lemma_coord_parents_round_trip(s, p + w9.len(), a.coord_parents);
    lemma_frame_infos_round_trip(s, p + w9.len() + w10.len(), a.entries);
}

} // verus!
