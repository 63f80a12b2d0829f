//! Pages: the structs of a container grouped as the container's page markers bound them,
//! and the way back from pages to a container with its index tables.
//!
//! Reading, a null chunk opens a page and a page chunk closes it; the page chunk says how
//! many entries of the container's tables belong to the page, and every chunk between the
//! two is a struct whose identity is found through the page's part of the table of slots.
//! Writing, each page registers its identities in a table of its own, in the order in
//! which they are first seen, and the tables of all pages are folded, again in that order,
//! into the tables of the container.

use vstd::prelude::*;
use crate::error::{DecodeError, EncodeError};
use crate::nucc::{
    infos_view, references_view, resolve_infos, resolve_references, struct_form, structs_view,
    NuccInfo, NuccStruct, NuccStructInfo, NuccStructReference, NuccStructView, StructInfoView,
    StructReferenceView, XfbinChunkMapConverter, XfbinChunkReferenceConverter,
};
use crate::nucc_chunk::nucc_chunk_index::index_info;
use crate::nucc_chunk::nucc_chunk_null::null_info;
use crate::nucc_chunk::nucc_chunk_page::page_info;
use crate::nucc_chunk::{
    chunk_check, chunk_parse, chunk_wire, lemma_tag_lengths, NuccChunk, NuccChunkIndex,
    NuccChunkNull, NuccChunkPage, NuccChunkType, NuccChunkView,
};
use crate::table::{
    dedup, lemma_push_all_new, lemma_slot_in_range, lemma_slots_stable, push_all_new, push_new,
    slot_of, slots_in, StringTable, StructInfoTable,
};
use crate::xfbin_file::{
    chunks_view, strings_view, XfbinChunk, XfbinChunkMap, XfbinChunkReference, XfbinChunkView,
    XfbinFile, XfbinFileView, XfbinHeader, XfbinIndex, XfbinIndexView,
};

verus! {

/// One page: its structs, and the identities and references that belong to it.
#[derive(Clone, Debug, PartialEq, Eq, Default)]
pub struct XfbinPage {
    pub structs: Vec<NuccStruct>,
    pub struct_infos: Vec<NuccStructInfo>,
    pub struct_references: Vec<NuccStructReference>,
}

/// What an `XfbinPage` holds.
pub struct PageView {
    pub structs: Seq<NuccStructView>,
    pub struct_infos: Seq<StructInfoView>,
    pub struct_references: Seq<StructReferenceView>,
}

/// A container as a list of pages.
#[derive(Clone, Debug, PartialEq, Eq)]
pub struct Xfbin {
    pub version: u16,
    pub pages: Vec<XfbinPage>,
}

/// What an `Xfbin` holds.
pub struct XfbinView {
    pub version: u16,
    pub pages: Seq<PageView>,
}

impl View for XfbinPage {
    type V = PageView;

    open spec fn view(&self) -> PageView {
        PageView {
            structs: structs_view(self.structs@),
            struct_infos: infos_view(self.struct_infos@),
            struct_references: references_view(self.struct_references@),
        }
    }
}

/// What each page of a list holds.
pub open spec fn pages_view(v: Seq<XfbinPage>) -> Seq<PageView> {
    v.map_values(|p: XfbinPage| p@)
}

impl View for Xfbin {
    type V = XfbinView;

    open spec fn view(&self) -> XfbinView {
        XfbinView { version: self.version, pages: pages_view(self.pages@) }
    }
}

/// Where the reading of a container's chunk frames stands: the pages closed so far, the
/// structs of the page that is open, and where that page's part of the table of slots and
/// of the table of references starts. Right after a page chunk, `closed_at` says where the
/// slots of the page that was just closed start.
pub struct Assembly {
    pub pages: Seq<PageView>,
    pub structs: Seq<NuccStructView>,
    pub info_offset: int,
    pub reference_offset: int,
    pub closed_at: Option<int>,
}

/// The frame is the index chunk that follows a page chunk: its slot, counted from the
/// start of the slots of the page that was just closed, points to an identity of the index
/// kind.
pub open spec fn follows_page(st: Assembly, frame: XfbinChunkView, mapped: Seq<StructInfoView>) -> bool {
    st.closed_at matches Some(start) && start + frame.chunk_map_index < mapped.len()
        && NuccChunkType::of_tag(mapped[start + frame.chunk_map_index].chunk_type)
        == NuccChunkType::NuccChunkIndex
}

/// The identity that each slot of the table of slots points to, and an error where a slot
/// points outside the table of identities.
pub open spec fn mapped_infos(slots: Seq<u32>, infos: Seq<StructInfoView>) -> Result<
    Seq<StructInfoView>,
    DecodeError,
> {
    if forall|i: int| 0 <= i < slots.len() ==> (#[trigger] slots[i]) < infos.len() {
        Ok(Seq::new(slots.len(), |i: int| infos[slots[i] as int]))
    } else {
        Err(DecodeError::IndexOutOfRange)
    }
}

/// What reading one chunk frame does. The index chunk that follows a page chunk belongs
/// to the page that was just closed and is passed over. Any other frame's identity is the
/// one its slot, counted from the start of the open page's slots, points to, and its
/// payload is decoded as the kind that the identity's tag names. A null chunk and an index
/// chunk are markers and change nothing. A page chunk closes the open page: the page gets
/// the structs read since the last page chunk and as many slots and references as the page
/// chunk says, and the next page's slots and references start after them. Any other chunk
/// is a struct of the open page.
pub open spec fn assemble_step(
    st: Assembly,
    frame: XfbinChunkView,
    mapped: Seq<StructInfoView>,
    references: Seq<StructReferenceView>,
) -> Result<Assembly, DecodeError> {
    let slot = st.info_offset + frame.chunk_map_index;
    if follows_page(st, frame, mapped) {
        Ok(Assembly { closed_at: None, ..st })
    } else if slot >= mapped.len() {
        Err(DecodeError::IndexOutOfRange)
    } else {
        match chunk_parse(frame.data, mapped[slot].chunk_type, frame.version) {
            Err(e) => Err(e),
            Ok(chunk) => match chunk {
                NuccChunkView::Null(_) => Ok(Assembly { closed_at: None, ..st }),
                NuccChunkView::Index => Ok(Assembly { closed_at: None, ..st }),
                NuccChunkView::Page(p) => {
                    let info_end = st.info_offset + p.map_index_count;
                    let reference_end = st.reference_offset + p.reference_count;
                    if info_end > mapped.len() || reference_end > references.len() {
                        Err(DecodeError::IndexOutOfRange)
                    } else {
                        Ok(
                            Assembly {
                                pages: st.pages.push(
                                    PageView {
                                        structs: st.structs,
                                        struct_infos: mapped.subrange(st.info_offset, info_end),
                                        struct_references: references.subrange(
                                            st.reference_offset,
                                            reference_end,
                                        ),
                                    },
                                ),
                                structs: Seq::empty(),
                                info_offset: info_end,
                                reference_offset: reference_end,
                                closed_at: Some(st.info_offset),
                            },
                        )
                    }
                },
                _ => Ok(
                    Assembly {
                        structs: st.structs.push(
                            NuccStructView { struct_info: mapped[slot], chunk: struct_form(chunk) },
                        ),
                        closed_at: None,
                        ..st
                    },
                ),
            },
        }
    }
}

/// What reading the first `n` chunk frames gives, or the first error met.
pub open spec fn assemble(
    frames: Seq<XfbinChunkView>,
    mapped: Seq<StructInfoView>,
    references: Seq<StructReferenceView>,
    n: nat,
) -> Result<Assembly, DecodeError>
    decreases n,
{
    if n == 0 {
        Ok(
            Assembly {
                pages: Seq::empty(),
                structs: Seq::empty(),
                info_offset: 0,
                reference_offset: 0,
                closed_at: None,
            },
        )
    } else {
        match assemble(frames, mapped, references, (n - 1) as nat) {
            Err(e) => Err(e),
            Ok(st) => assemble_step(st, frames[n - 1], mapped, references),
        }
    }
}

/// The pages of a container: its tables are resolved to identities and references, and
/// its chunk frames are read in order. Structs after the last page chunk belong to no
/// page and are not kept. The version is the low 16 bits of the header's.
pub open spec fn xfbin_of_file(f: XfbinFileView) -> Result<XfbinView, DecodeError> {
    match resolve_infos(
        f.index.chunk_maps,
        f.index.chunk_names,
        f.index.chunk_types,
        f.index.filepaths,
    ) {
        Err(e) => Err(e),
        Ok(infos) => match resolve_references(
            f.index.chunk_references,
            f.index.chunk_names,
            infos,
        ) {
            Err(e) => Err(e),
            Ok(references) => match mapped_infos(f.index.chunk_map_indices, infos) {
                Err(e) => Err(e),
                Ok(mapped) => match assemble(f.chunks, mapped, references, f.chunks.len()) {
                    Err(e) => Err(e),
                    Ok(st) => Ok(
                        XfbinView { version: (f.header.version % 0x1_0000) as u16, pages: st.pages },
                    ),
                },
            },
        }
    }
}

/// Once reading a run of frames has failed, reading a longer run fails in the same way.
pub proof fn lemma_assemble_err(
    frames: Seq<XfbinChunkView>,
    mapped: Seq<StructInfoView>,
    references: Seq<StructReferenceView>,
    k: nat,
    n: nat,
)
    requires
        k <= n,
        assemble(frames, mapped, references, k).is_err(),
    ensures
        assemble(frames, mapped, references, n) == assemble(frames, mapped, references, k),
    decreases n,
{
    if k < n {
        lemma_assemble_err(frames, mapped, references, k, (n - 1) as nat);
    }
}

/// Copies the identities of a list from `from` up to `to`.
pub(crate) fn copy_infos(v: &Vec<NuccStructInfo>, from: usize, to: usize) -> (r: Vec<NuccStructInfo>)
    requires
        from <= to <= v@.len(),
    ensures
        infos_view(r@) == infos_view(v@).subrange(from as int, to as int),
{
    let mut out: Vec<NuccStructInfo> = Vec::new();
    let mut i: usize = from;
    assert(infos_view(out@) =~= infos_view(v@).subrange(from as int, from as int));
    while i < to
        invariant
            from <= i <= to <= v@.len(),
            infos_view(out@) == infos_view(v@).subrange(from as int, i as int),
        decreases to - i,
    {
        let ghost before = out@;
        let info = v[i].duplicate();
        out.push(info);
        i += 1;
        assert(infos_view(out@) =~= infos_view(before).push(info@));
        assert(infos_view(out@) =~= infos_view(v@).subrange(from as int, i as int));
    }
    out
}

/// Copies the references of a list from `from` up to `to`.
pub(crate) fn copy_references(v: &Vec<NuccStructReference>, from: usize, to: usize) -> (r: Vec<
    NuccStructReference,
>)
    requires
        from <= to <= v@.len(),
    ensures
        references_view(r@) == references_view(v@).subrange(from as int, to as int),
{
    let mut out: Vec<NuccStructReference> = Vec::new();
    let mut i: usize = from;
    assert(references_view(out@) =~= references_view(v@).subrange(from as int, from as int));
    while i < to
        invariant
            from <= i <= to <= v@.len(),
            references_view(out@) == references_view(v@).subrange(from as int, i as int),
        decreases to - i,
    {
        let ghost before = out@;
        let reference = v[i].duplicate();
        out.push(reference);
        i += 1;
        assert(references_view(out@) =~= references_view(before).push(reference@));
        assert(references_view(out@) =~= references_view(v@).subrange(from as int, i as int));
    }
    out
}

/// Looks up the identity of every slot of the table of slots.
pub fn map_slots(slots: &Vec<u32>, infos: &Vec<NuccStructInfo>) -> (r: Result<
    Vec<NuccStructInfo>,
    DecodeError,
>)
    ensures
        match mapped_infos(slots@, infos_view(infos@)) {
            Ok(v) => r matches Ok(x) && infos_view(x@) == v,
            Err(e) => r matches Err(x) && x == e,
        },
{
    let mut out: Vec<NuccStructInfo> = Vec::new();
    let mut i: usize = 0;
    while i < slots.len()
        invariant
            i <= slots@.len(),
            out@.len() == i,
            forall|k: int| 0 <= k < i ==> (#[trigger] slots@[k]) < infos@.len(),
            forall|k: int| 0 <= k < i ==> (#[trigger] out@[k])@ == infos@[slots@[k] as int]@,
        decreases slots@.len() - i,
    {
        let slot: usize = slots[i] as usize;
        if slot >= infos.len() {
            return Err(DecodeError::IndexOutOfRange);
        }
        out.push(infos[slot].duplicate());
        i += 1;
    }
    assert(infos_view(out@) =~= Seq::new(
        slots@.len(),
        |k: int| infos_view(infos@)[slots@[k] as int],
    ));
    Ok(out)
}

/// The reading of a container's chunk frames, as far as it has come.
pub struct PageAssembler {
    pub pages: Vec<XfbinPage>,
    pub structs: Vec<NuccStruct>,
    pub info_offset: usize,
    pub reference_offset: usize,
    pub closed_at: Option<usize>,
}

impl View for PageAssembler {
    type V = Assembly;

    open spec fn view(&self) -> Assembly {
        Assembly {
            pages: pages_view(self.pages@),
            structs: structs_view(self.structs@),
            info_offset: self.info_offset as int,
            reference_offset: self.reference_offset as int,
            closed_at: match self.closed_at {
                Some(start) => Some(start as int),
                None => None,
            },
        }
    }
}

impl PageAssembler {
    /// The state before any frame is read: no page, no struct, both offsets at the start.
    pub fn new() -> (r: PageAssembler)
        ensures
            r@ == (Assembly {
                pages: Seq::empty(),
                structs: Seq::empty(),
                info_offset: 0,
                reference_offset: 0,
                closed_at: None,
            }),
    {
        let r = PageAssembler {
            pages: Vec::new(),
            structs: Vec::new(),
            info_offset: 0,
            reference_offset: 0,
            closed_at: None,
        };
        assert(pages_view(r.pages@) =~= Seq::<PageView>::empty());
        assert(structs_view(r.structs@) =~= Seq::<NuccStructView>::empty());
        r
    }

    /// Reads one chunk frame: a marker is passed over, a page chunk closes the open page,
    /// and any other chunk becomes a struct of the open page.
    #[verifier::rlimit(50)]
    pub fn step(
        self,
        frame: &XfbinChunk,
        mapped: &Vec<NuccStructInfo>,
        references: &Vec<NuccStructReference>,
    ) -> (r: Result<PageAssembler, DecodeError>)
        ensures
            match assemble_step(self@, frame@, infos_view(mapped@), references_view(references@)) {
                Ok(st) => r matches Ok(x) && x@ == st,
                Err(e) => r matches Err(x) && x == e,
            },
    {
        let index: usize = frame.chunk_map_index as usize;
        if self.follows_page(index, mapped) {
            return Ok(self.passed());
        }
        if self.info_offset > mapped.len() || index >= mapped.len() - self.info_offset {
            return Err(DecodeError::IndexOutOfRange);
        }
        let slot: usize = self.info_offset + index;
        let info = &mapped[slot];
        assert(infos_view(mapped@)[slot as int] == info@);
        let chunk = match frame.unpack(info.chunk_type.as_slice()) {
            Err(e) => {
                return Err(e);
            },
            Ok(c) => c,
        };
        match chunk {
            NuccChunk::Null(_) => Ok(self.passed()),
            NuccChunk::Index(_) => Ok(self.passed()),
            NuccChunk::Page(p) => self.close_page(p, mapped, references),
            other => {
                let made = NuccStruct::from_chunk(other, info.duplicate());
                Ok(self.add_struct(made))
            },
        }
    }

    /// Says whether a frame with the slot `index` is the index chunk that follows a page
    /// chunk.
    fn follows_page(&self, index: usize, mapped: &Vec<NuccStructInfo>) -> (r: bool)
        ensures
            r == (self@.closed_at matches Some(start) && start + index < mapped@.len()
                && NuccChunkType::of_tag(infos_view(mapped@)[start + index].chunk_type)
                == NuccChunkType::NuccChunkIndex),
    {
        match self.closed_at {
            None => false,
            Some(start) => {
                if start > mapped.len() || index >= mapped.len() - start {
                    return false;
                }
                let info = &mapped[start + index];
                assert(infos_view(mapped@)[start + index] == info@);
                NuccChunkType::from_tag(info.chunk_type.as_slice()) == NuccChunkType::NuccChunkIndex
            },
        }
    }

    /// Passes over a marker.
    fn passed(self) -> (r: PageAssembler)
        ensures
            r@ == (Assembly { closed_at: None, ..self@ }),
    {
        let PageAssembler { pages, structs, info_offset, reference_offset, closed_at: _ } = self;
        PageAssembler { pages, structs, info_offset, reference_offset, closed_at: None }
    }

    /// Adds a struct to the open page.
    fn add_struct(self, made: NuccStruct) -> (r: PageAssembler)
        ensures
            r@ == (Assembly { structs: self@.structs.push(made@), closed_at: None, ..self@ }),
    {
        let PageAssembler { pages, structs, info_offset, reference_offset, closed_at: _ } = self;
        let mut structs = structs;
        let ghost before = structs@;
        structs.push(made);
        assert(structs_view(structs@) =~= structs_view(before).push(made@));
        PageAssembler { pages, structs, info_offset, reference_offset, closed_at: None }
    }

    /// Closes the open page with the counts that a page chunk says.
    #[verifier::rlimit(50)]
    fn close_page(
        self,
        p: NuccChunkPage,
        mapped: &Vec<NuccStructInfo>,
        references: &Vec<NuccStructReference>,
    ) -> (r: Result<PageAssembler, DecodeError>)
        requires
            self.info_offset <= mapped@.len(),
        ensures
            self@.info_offset + p.map_index_count > mapped@.len() || self@.reference_offset
                + p.reference_count > references@.len() ==> (r matches Err(x) && x
                == DecodeError::IndexOutOfRange),
            self@.info_offset + p.map_index_count <= mapped@.len() && self@.reference_offset
                + p.reference_count <= references@.len() ==> (r matches Ok(x) && x@ == (Assembly {
                pages: self@.pages.push(
                    PageView {
                        structs: self@.structs,
                        struct_infos: infos_view(mapped@).subrange(
                            self@.info_offset,
                            self@.info_offset + p.map_index_count,
                        ),
                        struct_references: references_view(references@).subrange(
                            self@.reference_offset,
                            self@.reference_offset + p.reference_count,
                        ),
                    },
                ),
                structs: Seq::empty(),
                info_offset: self@.info_offset + p.map_index_count,
                reference_offset: self@.reference_offset + p.reference_count,
                closed_at: Some(self@.info_offset),
            })),
    {
        let PageAssembler { pages, structs, info_offset, reference_offset, closed_at: _ } = self;
        let info_count: usize = p.map_index_count as usize;
        let reference_count: usize = p.reference_count as usize;
        if info_count > mapped.len() - info_offset || reference_offset > references.len()
            || reference_count > references.len() - reference_offset {
            return Err(DecodeError::IndexOutOfRange);
        }
        let page = XfbinPage {
            structs,
            struct_infos: copy_infos(mapped, info_offset, info_offset + info_count),
            struct_references: copy_references(
                references,
                reference_offset,
                reference_offset + reference_count,
            ),
        };
        let mut pages = pages;
        let ghost before = pages@;
        pages.push(page);
        assert(pages_view(pages@) =~= pages_view(before).push(page@));
        let fresh: Vec<NuccStruct> = Vec::new();
        assert(structs_view(fresh@) =~= Seq::<NuccStructView>::empty());
        Ok(
            PageAssembler {
                pages,
                structs: fresh,
                info_offset: info_offset + info_count,
                reference_offset: reference_offset + reference_count,
                closed_at: Some(info_offset),
            },
        )
    }
}

impl Xfbin {
    /// Groups the structs of a container into pages.
    pub fn from_file(file: &XfbinFile) -> (r: Result<Xfbin, DecodeError>)
        ensures
            match xfbin_of_file(file@) {
                Ok(x) => r matches Ok(y) && y@ == x,
                Err(e) => r matches Err(y) && y == e,
            },
    {
        let info_rows = XfbinChunkMapConverter {
            chunk_maps: copy_rows(&file.index.chunk_maps),
            chunk_names: copy_strings(&file.index.chunk_names),
            chunk_types: copy_strings(&file.index.chunk_types),
            filepaths: copy_strings(&file.index.filepaths),
        };
        let struct_infos = match info_rows.convert() {
            Err(e) => {
                return Err(e);
            },
            Ok(v) => v,
        };
        let reference_rows = XfbinChunkReferenceConverter {
            references: copy_reference_rows(&file.index.chunk_references),
            chunk_names: copy_strings(&file.index.chunk_names),
            struct_infos: copy_infos(&struct_infos, 0, struct_infos.len()),
        };
        assert(infos_view(struct_infos@).subrange(0, struct_infos@.len() as int) =~= infos_view(
            struct_infos@,
        ));
        let struct_references = match reference_rows.convert() {
            Err(e) => {
                return Err(e);
            },
            Ok(v) => v,
        };
        let mapped = match map_slots(&file.index.chunk_map_indices, &struct_infos) {
            Err(e) => {
                return Err(e);
            },
            Ok(v) => v,
        };
        let st = match assemble_frames(&file.chunks, &mapped, &struct_references) {
            Err(e) => {
                return Err(e);
            },
            Ok(st) => st,
        };
        Ok(Xfbin { version: (file.header.version % 0x1_0000) as u16, pages: st.pages })
    }
}

/// Reads the chunk frames of a container in order.
pub fn assemble_frames(
    chunks: &Vec<XfbinChunk>,
    mapped: &Vec<NuccStructInfo>,
    references: &Vec<NuccStructReference>,
) -> (r: Result<PageAssembler, DecodeError>)
    ensures
        match assemble(
            chunks_view(chunks@),
            infos_view(mapped@),
            references_view(references@),
            chunks@.len(),
        ) {
            Ok(st) => r matches Ok(x) && x@ == st,
            Err(e) => r matches Err(x) && x == e,
        },
{
    let ghost frames = chunks_view(chunks@);
    let mut st = PageAssembler::new();
    let mut i: usize = 0;
    while i < chunks.len()
        invariant
            i <= chunks@.len(),
            frames == chunks_view(chunks@),
            assemble(frames, infos_view(mapped@), references_view(references@), i as nat) == Ok::<
                Assembly,
                DecodeError,
            >(st@),
        decreases chunks@.len() - i,
    {
        assert(frames[i as int] == chunks@[i as int]@);
        match st.step(&chunks[i], mapped, references) {
            Err(e) => {
                proof {
                    lemma_assemble_err(
                        frames,
                        infos_view(mapped@),
                        references_view(references@),
                        (i + 1) as nat,
                        frames.len(),
                    );
                }
                return Err(e);
            },
            Ok(next) => {
                st = next;
            },
        }
        i += 1;
    }
    Ok(st)
}

/// Copies a list of byte strings.
pub fn copy_strings(v: &Vec<Vec<u8>>) -> (r: Vec<Vec<u8>>)
    ensures
        strings_view(r@) == strings_view(v@),
{
    let mut out: Vec<Vec<u8>> = Vec::new();
    let mut i: usize = 0;
    while i < v.len()
        invariant
            i <= v@.len(),
            out@.len() == i,
            forall|k: int| 0 <= k < i ==> (#[trigger] out@[k])@ == v@[k]@,
        decreases v@.len() - i,
    {
        out.push(crate::bytes::copy_bytes(v[i].as_slice()));
        i += 1;
    }
    assert(strings_view(out@) =~= strings_view(v@));
    out
}

/// Copies the rows of a table of identities.
pub fn copy_rows(v: &Vec<XfbinChunkMap>) -> (r: Vec<XfbinChunkMap>)
    ensures
        r@ == v@,
{
    let mut out: Vec<XfbinChunkMap> = Vec::new();
    let mut i: usize = 0;
    while i < v.len()
        invariant
            i <= v@.len(),
            out@ == v@.subrange(0, i as int),
        decreases v@.len() - i,
    {
        out.push(v[i]);
        i += 1;
        assert(out@ =~= v@.subrange(0, i as int));
    }
    assert(v@.subrange(0, v@.len() as int) =~= v@);
    out
}

/// Copies the rows of a table of references.
pub fn copy_reference_rows(v: &Vec<XfbinChunkReference>) -> (r: Vec<XfbinChunkReference>)
    ensures
        r@ == v@,
{
    let mut out: Vec<XfbinChunkReference> = Vec::new();
    let mut i: usize = 0;
    while i < v.len()
        invariant
            i <= v@.len(),
            out@ == v@.subrange(0, i as int),
        decreases v@.len() - i,
    {
        out.push(v[i]);
        i += 1;
        assert(out@ =~= v@.subrange(0, i as int));
    }
    assert(v@.subrange(0, v@.len() as int) =~= v@);
    out
}


/// One of the page's structs is of the kind `kind`.
pub open spec fn page_has(p: PageView, kind: NuccChunkType) -> bool {
    exists|i: int| 0 <= i < p.structs.len() && (#[trigger] p.structs[i]).chunk.kind() == kind
}

/// The page keeps its own identities when it is written: it holds an animation or a
/// pass-through struct, whose payload may point into them by position.
pub open spec fn keeps_tables(p: PageView) -> bool {
    page_has(p, NuccChunkType::NuccChunkUnknown) || page_has(p, NuccChunkType::NuccChunkAnm)
}

/// The identities that a page's table starts with: the page's own, each once, where the
/// page keeps its identities, and none where it does not.
pub open spec fn page_start_infos(p: PageView) -> Seq<StructInfoView> {
    if keeps_tables(p) {
        dedup(p.struct_infos)
    } else {
        Seq::empty()
    }
}

/// The references that a page hands to the container: all its own, none left out and
/// none changed.
pub open spec fn page_references(p: PageView) -> Seq<StructReferenceView> {
    p.struct_references
}

/// The identity of each struct of a list.
pub open spec fn struct_infos_of(structs: Seq<NuccStructView>) -> Seq<StructInfoView> {
    structs.map_values(|s: NuccStructView| s.struct_info)
}

/// The identities that a page registers, in order: the null chunk's, each struct's, the
/// page chunk's and the index chunk's.
pub open spec fn page_registered(p: PageView) -> Seq<StructInfoView> {
    seq![null_info()] + struct_infos_of(p.structs) + seq![page_info(), index_info()]
}

/// The table of identities of a page: what it starts with, then every identity that the
/// page registers and that is not in the table yet. An identity is in it once, where it
/// was first seen.
pub open spec fn page_infos(p: PageView) -> Seq<StructInfoView> {
    push_all_new(page_start_infos(p), page_registered(p))
}

/// A chunk frame whose slot is the position of `info` in `infos`.
pub open spec fn frame_of(
    infos: Seq<StructInfoView>,
    info: StructInfoView,
    version: u16,
    data: Seq<u8>,
) -> XfbinChunkView {
    XfbinChunkView { chunk_map_index: slot_of(infos, info) as u32, version, data }
}

/// The chunk frame of a struct: the slot of its identity, its version, its encoding.
pub open spec fn struct_frame(infos: Seq<StructInfoView>, s: NuccStructView) -> XfbinChunkView {
    frame_of(infos, s.struct_info, s.chunk.version(), chunk_wire(s.chunk))
}

/// The chunk frames of a list of structs.
pub open spec fn struct_frames(
    infos: Seq<StructInfoView>,
    structs: Seq<NuccStructView>,
) -> Seq<XfbinChunkView> {
    structs.map_values(|s: NuccStructView| struct_frame(infos, s))
}

/// The null chunk that opens a page of a container of the given version.
pub open spec fn null_chunk(version: u16) -> NuccChunkView {
    NuccChunkView::Null(NuccChunkNull(version))
}

/// The page chunk that closes a page: it counts the identities of the page's table and
/// the references that the page hands on.
pub open spec fn page_chunk(p: PageView, version: u16) -> NuccChunkView {
    NuccChunkView::Page(
        NuccChunkPage {
            version,
            map_index_count: page_infos(p).len() as u32,
            reference_count: page_references(p).len() as u32,
        },
    )
}

/// The frame of the index chunk that ends a page: the slot of the index chunk's identity,
/// the version of the container, and no payload.
pub open spec fn index_frame(p: PageView, version: u16) -> XfbinChunkView {
    frame_of(page_infos(p), index_info(), version, chunk_wire(NuccChunkView::Index))
}

/// The chunk frames that a page is written as: a null chunk, one chunk for each struct,
/// a page chunk and an index chunk, each with the slot of its identity in the page's
/// table. The three markers carry the version of the container.
pub open spec fn page_frames(p: PageView, version: u16) -> Seq<XfbinChunkView> {
    seq![struct_frame(page_infos(p), NuccStructView { struct_info: null_info(), chunk: null_chunk(version) })]
        + struct_frames(page_infos(p), p.structs) + seq![
        struct_frame(
            page_infos(p),
            NuccStructView { struct_info: page_info(), chunk: page_chunk(p, version) },
        ),
        index_frame(p, version),
    ]
}

/// The tables of all pages, one after the other.
pub open spec fn all_page_infos(pages: Seq<PageView>) -> Seq<StructInfoView>
    decreases pages.len(),
{
    if pages.len() == 0 {
        Seq::empty()
    } else {
        all_page_infos(pages.drop_last()) + page_infos(pages.last())
    }
}

/// The references of all pages, one after the other, none left out and none changed.
pub open spec fn all_references(pages: Seq<PageView>) -> Seq<StructReferenceView>
    decreases pages.len(),
{
    if pages.len() == 0 {
        Seq::empty()
    } else {
        all_references(pages.drop_last()) + page_references(pages.last())
    }
}

/// The chunk frames of all pages, one after the other.
pub open spec fn all_frames(pages: Seq<PageView>, version: u16) -> Seq<XfbinChunkView>
    decreases pages.len(),
{
    if pages.len() == 0 {
        Seq::empty()
    } else {
        all_frames(pages.drop_last(), version) + page_frames(pages.last(), version)
    }
}

/// The struct that each reference points to.
pub open spec fn reference_targets(references: Seq<StructReferenceView>) -> Seq<StructInfoView> {
    references.map_values(|r: StructReferenceView| r.struct_info)
}

/// The name of each reference.
pub open spec fn reference_names(references: Seq<StructReferenceView>) -> Seq<Seq<u8>> {
    references.map_values(|r: StructReferenceView| r.chunk_name)
}

/// The kind tag of each identity.
pub open spec fn info_types(infos: Seq<StructInfoView>) -> Seq<Seq<u8>> {
    infos.map_values(|i: StructInfoView| i.chunk_type)
}

/// The path of each identity.
pub open spec fn info_paths(infos: Seq<StructInfoView>) -> Seq<Seq<u8>> {
    infos.map_values(|i: StructInfoView| i.filepath)
}

/// The name of each identity.
pub open spec fn info_names(infos: Seq<StructInfoView>) -> Seq<Seq<u8>> {
    infos.map_values(|i: StructInfoView| i.chunk_name)
}

/// The container's table of identities: the tables of the pages, one after the other,
/// folded into one, and after them the targets of references that no page's table holds.
/// An identity is in it once, where it was first seen, wherever and however often it
/// occurs.
pub open spec fn global_table(
    infos: Seq<StructInfoView>,
    references: Seq<StructReferenceView>,
) -> Seq<StructInfoView> {
    push_all_new(dedup(infos), reference_targets(references))
}

/// The container's table of kind tags: the tags of its identities, each once.
pub open spec fn type_table(
    infos: Seq<StructInfoView>,
    references: Seq<StructReferenceView>,
) -> Seq<Seq<u8>> {
    dedup(info_types(global_table(infos, references)))
}

/// The container's table of paths: the paths of its identities, each once.
pub open spec fn path_table(
    infos: Seq<StructInfoView>,
    references: Seq<StructReferenceView>,
) -> Seq<Seq<u8>> {
    dedup(info_paths(global_table(infos, references)))
}

/// The container's table of names: the names of its identities and then the names of its
/// references, each once.
pub open spec fn name_table(
    infos: Seq<StructInfoView>,
    references: Seq<StructReferenceView>,
) -> Seq<Seq<u8>> {
    push_all_new(dedup(info_names(global_table(infos, references))), reference_names(references))
}

/// The row of the table of identities that stands for an identity.
pub open spec fn info_row(
    infos: Seq<StructInfoView>,
    references: Seq<StructReferenceView>,
    info: StructInfoView,
) -> XfbinChunkMap {
    XfbinChunkMap {
        chunk_type_index: slot_of(type_table(infos, references), info.chunk_type) as u32,
        filepath_index: slot_of(path_table(infos, references), info.filepath) as u32,
        chunk_name_index: slot_of(name_table(infos, references), info.chunk_name) as u32,
    }
}

/// The row of the table of references that stands for a reference.
pub open spec fn reference_row(
    infos: Seq<StructInfoView>,
    references: Seq<StructReferenceView>,
    r: StructReferenceView,
) -> XfbinChunkReference {
    XfbinChunkReference {
        chunk_name_index: slot_of(name_table(infos, references), r.chunk_name) as u32,
        chunk_map_index: slot_of(global_table(infos, references), r.struct_info) as u32,
    }
}

/// The rows of the container's table of identities.
pub open spec fn table_rows(
    infos: Seq<StructInfoView>,
    references: Seq<StructReferenceView>,
) -> Seq<XfbinChunkMap> {
    global_table(infos, references).map_values(|i: StructInfoView| info_row(infos, references, i))
}

/// The rows of the container's table of references.
pub open spec fn reference_rows(
    infos: Seq<StructInfoView>,
    references: Seq<StructReferenceView>,
) -> Seq<XfbinChunkReference> {
    references.map_values(|r: StructReferenceView| reference_row(infos, references, r))
}

/// The index of a container whose pages have the tables `infos`, one after the other, and
/// hand on the references `references`.
pub open spec fn index_of_tables(
    version: u16,
    min_page_size: u32,
    infos: Seq<StructInfoView>,
    references: Seq<StructReferenceView>,
) -> XfbinIndexView {
    XfbinIndexView {
        min_page_size,
        version,
        chunk_types: type_table(infos, references),
        filepaths: path_table(infos, references),
        chunk_names: name_table(infos, references),
        chunk_maps: table_rows(infos, references),
        chunk_references: reference_rows(infos, references),
        chunk_map_indices: slots_in(global_table(infos, references), infos),
    }
}

/// The container's table of identities.
pub open spec fn global_infos(pages: Seq<PageView>) -> Seq<StructInfoView> {
    global_table(all_page_infos(pages), all_references(pages))
}

/// The smallest size of a page's table, less the three markers, and 0 without pages.
pub open spec fn min_page_size(pages: Seq<PageView>) -> int
    decreases pages.len(),
{
    if pages.len() == 0 {
        0
    } else if pages.len() == 1 {
        page_infos(pages.last()).len() - 3
    } else if page_infos(pages.last()).len() - 3 < min_page_size(pages.drop_last()) {
        page_infos(pages.last()).len() - 3
    } else {
        min_page_size(pages.drop_last())
    }
}

/// A bound on every index that writing the pages can give: for each page its identities,
/// its structs and the three markers, and twice its references.
pub open spec fn pages_weight(pages: Seq<PageView>) -> int
    decreases pages.len(),
{
    if pages.len() == 0 {
        0
    } else {
        pages_weight(pages.drop_last()) + pages.last().struct_infos.len()
            + pages.last().structs.len() + 3 + 2 * pages.last().struct_references.len()
    }
}

/// Why the first `n` structs cannot be written, if they cannot: the reason of the first
/// that cannot.
pub open spec fn structs_check(structs: Seq<NuccStructView>, n: nat) -> Option<EncodeError>
    decreases n,
{
    if n == 0 {
        None
    } else {
        match structs_check(structs, (n - 1) as nat) {
            Some(e) => Some(e),
            None => chunk_check(structs[n - 1].chunk),
        }
    }
}

/// Why the first `n` pages cannot be written, if they cannot: the reason of the first
/// struct that cannot.
pub open spec fn pages_check(pages: Seq<PageView>, n: nat) -> Option<EncodeError>
    decreases n,
{
    if n == 0 {
        None
    } else {
        match pages_check(pages, (n - 1) as nat) {
            Some(e) => Some(e),
            None => structs_check(pages[n - 1].structs, pages[n - 1].structs.len()),
        }
    }
}

/// Why pages cannot be made into a container, if they cannot: there are so many
/// identities, structs and references that an index may not fit 32 bits, or a struct
/// cannot be written.
pub open spec fn xfbin_check(x: XfbinView) -> Option<EncodeError> {
    if pages_weight(x.pages) > 0xFFFF_FFFF {
        Some(EncodeError::TooLarge)
    } else {
        pages_check(x.pages, x.pages.len())
    }
}

/// The container that pages are written as. The header and the index carry the version
/// of the pages.
pub open spec fn file_of_xfbin(x: XfbinView) -> XfbinFileView {
    XfbinFileView {
        header: XfbinHeader { version: x.version as u32, encrypted: 0 },
        index: index_of_tables(
            x.version,
            min_page_size(x.pages) as u32,
            all_page_infos(x.pages),
            all_references(x.pages),
        ),
        chunks: all_frames(x.pages, x.version),
    }
}

/// The items of a list in reverse order, so that they can be taken off its end one by one
/// in their first order.
pub fn reversed<T>(v: Vec<T>) -> (r: Vec<T>)
    ensures
        r@ == v@.reverse(),
{
    let ghost orig = v@;
    let mut rest = v;
    let mut out: Vec<T> = Vec::new();
    while rest.len() > 0
        invariant
            rest@.len() + out@.len() == orig.len(),
            rest@ == orig.subrange(0, rest@.len() as int),
            forall|j: int| 0 <= j < out@.len() ==> out@[j] == orig[orig.len() - 1 - j],
        decreases rest@.len(),
    {
        let ghost before = rest@;
        let item = rest.pop().unwrap();
        assert(item == orig[before.len() - 1]);
        out.push(item);
        assert(rest@ =~= orig.subrange(0, rest@.len() as int));
    }
    assert(out@ =~= orig.reverse());
    out
}

impl XfbinPage {
    /// Says whether one of the page's structs is of the kind `kind`.
    pub fn has_kind(&self, kind: NuccChunkType) -> (r: bool)
        ensures
            r == page_has(self@, kind),
    {
        let mut i: usize = 0;
        while i < self.structs.len()
            invariant
                i <= self.structs@.len(),
                forall|j: int| 0 <= j < i ==> (#[trigger] self@.structs[j]).chunk.kind() != kind,
            decreases self.structs@.len() - i,
        {
            assert(self@.structs[i as int] == self.structs@[i as int]@);
            if self.structs[i].chunk_type() == kind {
                return true;
            }
            i += 1;
        }
        false
    }

    /// Says whether the page holds a pass-through struct.
    pub fn has_unknown_chunk(&self) -> (r: bool)
        ensures
            r == page_has(self@, NuccChunkType::NuccChunkUnknown),
    {
        self.has_kind(NuccChunkType::NuccChunkUnknown)
    }

    /// Says whether the page holds an animation struct.
    pub fn has_anm_chunk(&self) -> (r: bool)
        ensures
            r == page_has(self@, NuccChunkType::NuccChunkAnm),
    {
        self.has_kind(NuccChunkType::NuccChunkAnm)
    }

    /// Takes the page apart for writing: its structs, the table of identities that the
    /// page starts with, and the references that it hands on. A page with an animation or
    /// a pass-through struct keeps its identities, each once; any other page starts with
    /// an empty table. The references are handed on as they are. The page must not have
    /// more identities than an index of 32 bits can count.
    pub fn destructure(self) -> (r: (Vec<NuccStruct>, StructInfoTable, Vec<NuccStructReference>))
        requires
            self.struct_infos@.len() <= 0xFFFF_FFFF,
        ensures
            structs_view(r.0@) == self@.structs,
            r.1.wf(),
            r.1.infos() == page_start_infos(self@),
            references_view(r.2@) == page_references(self@),
    {
        let keeps = self.has_unknown_chunk() || self.has_anm_chunk();
        let XfbinPage { structs, struct_infos, struct_references } = self;
        let mut table = StructInfoTable::new();
        if keeps {
            let _slots = table.fold(&struct_infos);
        }
        (structs, table, struct_references)
    }
}

/// Frames a chunk for a page: the chunk's identity is put into the page's table unless it
/// is there, and the frame gets the identity's position as its slot. A chunk that cannot
/// be written, and an identity that the table has no room for, is an error and leaves the
/// table as it was.
pub fn repack_struct(
    chunk: &NuccChunk,
    struct_info: &NuccStructInfo,
    page_struct_infos: &mut StructInfoTable,
) -> (r: Result<XfbinChunk, EncodeError>)
    requires
        old(page_struct_infos).wf(),
    ensures
        final(page_struct_infos).wf(),
        match chunk_check(chunk@) {
            Some(e) => r matches Err(x) && x == e && final(page_struct_infos).infos() == old(
                page_struct_infos,
            ).infos(),
            None => if old(page_struct_infos).infos().contains(struct_info@) || old(
                page_struct_infos,
            ).infos().len() <= 0xFFFF_FFFF {
                r matches Ok(f) && final(page_struct_infos).infos() == push_new(
                    old(page_struct_infos).infos(),
                    struct_info@,
                ) && f@ == frame_of(
                    final(page_struct_infos).infos(),
                    struct_info@,
                    chunk@.version(),
                    chunk_wire(chunk@),
                )
            } else {
                r matches Err(x) && x == EncodeError::TooLarge && final(page_struct_infos).infos()
                    == old(page_struct_infos).infos()
            },
        },
{
    let frame = match XfbinChunk::repack(chunk) {
        Err(e) => {
            return Err(e);
        },
        Ok(f) => f,
    };
    match page_struct_infos.index_or_insert(struct_info) {
        None => Err(EncodeError::TooLarge),
        Some(slot) => Ok(XfbinChunk { chunk_map_index: slot, version: frame.version, data: frame.data }),
    }
}

/// The identities that a page registers: the null chunk's, each struct's, the page
/// chunk's and the index chunk's.
pub fn registered_infos(structs: &Vec<NuccStruct>) -> (r: Vec<NuccStructInfo>)
    ensures
        infos_view(r@) == seq![null_info()] + struct_infos_of(structs_view(structs@)) + seq![
            page_info(),
            index_info(),
        ],
{
    let ghost all = struct_infos_of(structs_view(structs@));
    let mut out: Vec<NuccStructInfo> = Vec::new();
    out.push(NuccChunkNull::default_chunk_info());
    assert(infos_view(out@) =~= seq![null_info()] + all.subrange(0, 0));
    let mut i: usize = 0;
    while i < structs.len()
        invariant
            i <= structs@.len(),
            all == struct_infos_of(structs_view(structs@)),
            infos_view(out@) == seq![null_info()] + all.subrange(0, i as int),
        decreases structs@.len() - i,
    {
        let ghost before = out@;
        let info = structs[i].struct_info().duplicate();
        out.push(info);
        assert(infos_view(out@) =~= infos_view(before).push(info@));
        assert(all[i as int] == structs@[i as int]@.struct_info);
        i += 1;
        assert(infos_view(out@) =~= seq![null_info()] + all.subrange(0, i as int));
    }
    assert(all.subrange(0, all.len() as int) =~= all);
    let ghost before = out@;
    let page = NuccChunkPage::default_chunk_info();
    let index = NuccChunkIndex::default_chunk_info();
    out.push(page);
    out.push(index);
    assert(infos_view(out@) =~= infos_view(before).push(page@).push(index@));
    assert(infos_view(out@) =~= seq![null_info()] + all + seq![page_info(), index_info()]);
    out
}


/// Every struct of a run that can be written can be written.
pub proof fn lemma_structs_check_each(structs: Seq<NuccStructView>, n: nat, i: int)
    requires
        structs_check(structs, n).is_none(),
        0 <= i < n,
    ensures
        chunk_check(structs[i].chunk).is_none(),
    decreases n,
{
    if i < n - 1 {
        lemma_structs_check_each(structs, (n - 1) as nat, i);
    }
}

/// Once a struct of a run cannot be written, the run cannot, for the same reason.
pub proof fn lemma_structs_check_some(structs: Seq<NuccStructView>, k: nat, n: nat)
    requires
        k <= n,
        structs_check(structs, k).is_some(),
    ensures
        structs_check(structs, n) == structs_check(structs, k),
    decreases n,
{
    if k < n {
        lemma_structs_check_some(structs, k, (n - 1) as nat);
    }
}

/// Frames the structs of a page whose table is complete: each struct's frame gets the
/// slot of the struct's identity in the table, which stays as it is.
#[verifier::rlimit(50)]
pub(crate) fn frame_structs(
    structs: Vec<NuccStruct>,
    table: &mut StructInfoTable,
    frames: &mut Vec<XfbinChunk>,
)
    requires
        old(table).wf(),
        structs_check(structs_view(structs@), structs@.len()).is_none(),
        forall|k: int|
            0 <= k < structs@.len() ==> old(table).infos().contains(
                (#[trigger] structs_view(structs@)[k]).struct_info,
            ),
    ensures
        final(table).wf(),
        final(table).infos() == old(table).infos(),
        chunks_view(final(frames)@) == chunks_view(old(frames)@) + struct_frames(
            old(table).infos(),
            structs_view(structs@),
        ),
{
    let ghost all = structs_view(structs@);
    let ghost orig = structs@;
    let ghost t = table.infos();
    let ghost base = chunks_view(frames@);
    let n: usize = structs.len();
    let mut rest = reversed(structs);
    let mut k: usize = 0;
    assert(base + struct_frames(t, all.subrange(0, 0)) =~= base);
    while k < n
        invariant
            k <= n,
            n == orig.len(),
            all == structs_view(orig),
            rest@ == orig.reverse().subrange(0, n - k),
            table.wf(),
            table.infos() == t,
            structs_check(all, n as nat).is_none(),
            forall|j: int| 0 <= j < n ==> t.contains((#[trigger] all[j]).struct_info),
            chunks_view(frames@) == base + struct_frames(t, all.subrange(0, k as int)),
        decreases n - k,
    {
        let ghost before = frames@;
        let item = rest.pop().unwrap();
        assert(item == orig[k as int]);
        assert(all[k as int] == item@);
        proof {
            lemma_structs_check_each(all, n as nat, k as int);
        }
        let info = item.struct_info().duplicate();
        let chunk = item.into_chunk();
        let frame = repack_struct(&chunk, &info, table).unwrap();
        frames.push(frame);
        proof {
            let next = all.subrange(0, k + 1);
            assert(next.drop_last() =~= all.subrange(0, k as int));
            assert(struct_frames(t, next) =~= struct_frames(t, all.subrange(0, k as int)).push(
                struct_frame(t, all[k as int]),
            ));
            assert(chunks_view(frames@) =~= chunks_view(before).push(frame@));
            assert(chunks_view(frames@) =~= base + struct_frames(t, next));
        }
        k += 1;
        assert(rest@ =~= orig.reverse().subrange(0, n - k));
    }
    assert(all.subrange(0, n as int) =~= all);
}

/// Writes a page as chunk frames: a null chunk, one chunk for each struct, a page chunk
/// and an index chunk. Returns the page's table of identities and the references that
/// the page hands on.
#[verifier::rlimit(50)]
pub(crate) fn encode_page(page: XfbinPage, version: u16, frames: &mut Vec<XfbinChunk>) -> (r: (
    StructInfoTable,
    Vec<NuccStructReference>,
))
    requires
        page@.struct_infos.len() + page@.structs.len() + 3 <= 0xFFFF_FFFF,
        page@.struct_references.len() <= 0xFFFF_FFFF,
        structs_check(page@.structs, page@.structs.len()).is_none(),
    ensures
        chunks_view(final(frames)@) == chunks_view(old(frames)@) + page_frames(page@, version),
        r.0.wf(),
        r.0.infos() == page_infos(page@),
        references_view(r.1@) == page_references(page@),
{
    let ghost p = page@;
    let ghost base = chunks_view(frames@);
    let (structs, table, references) = page.destructure();
    let mut table = table;
    let registered = registered_infos(&structs);
    proof {
        lemma_push_all_new(Seq::<StructInfoView>::empty(), p.struct_infos);
        lemma_push_all_new(page_start_infos(p), page_registered(p));
    }
    let _slots = table.fold(&registered);
    let ghost t = table.infos();
    assert(t == page_infos(p));
    proof {
        let items = page_registered(p);
        assert(items[0] == null_info());
        assert(items[items.len() - 2] == page_info());
        assert(items[items.len() - 1] == index_info());
        assert(t.contains(null_info()));
        assert(t.contains(page_info()));
        assert(t.contains(index_info()));
        assert forall|k: int| 0 <= k < p.structs.len() implies t.contains(
            (#[trigger] p.structs[k]).struct_info,
        ) by {
            assert(items[k + 1] == p.structs[k].struct_info);
        }
    }
    let null = NuccChunk::Null(NuccChunkNull(version));
    let null_frame = repack_struct(&null, &NuccChunkNull::default_chunk_info(), &mut table).unwrap();
    frames.push(null_frame);
    assert(chunks_view(frames@) =~= base.push(null_frame@));
    frame_structs(structs, &mut table, frames);
    let ghost mid = chunks_view(frames@);
    let closing = NuccChunk::Page(
        NuccChunkPage {
            version,
            map_index_count: table.len() as u32,
            reference_count: references.len() as u32,
        },
    );
    let page_frame = repack_struct(&closing, &NuccChunkPage::default_chunk_info(), &mut table).unwrap();
    let index = NuccChunk::Index(NuccChunkIndex);
    let framed = repack_struct(&index, &NuccChunkIndex::default_chunk_info(), &mut table).unwrap();
    let index_frame = XfbinChunk { chunk_map_index: framed.chunk_map_index, version, data: framed.data };
    frames.push(page_frame);
    frames.push(index_frame);
    assert(chunks_view(frames@) =~= mid.push(page_frame@).push(index_frame@));
    assert(chunks_view(frames@) =~= base + page_frames(p, version));
    (table, references)
}


/// Copies the kind tag, the path and the name of each identity of a list.
pub fn split_infos(infos: &Vec<NuccStructInfo>) -> (r: (Vec<Vec<u8>>, Vec<Vec<u8>>, Vec<Vec<u8>>))
    ensures
        strings_view(r.0@) == info_types(infos_view(infos@)),
        strings_view(r.1@) == info_paths(infos_view(infos@)),
        strings_view(r.2@) == info_names(infos_view(infos@)),
{
    let mut types: Vec<Vec<u8>> = Vec::new();
    let mut paths: Vec<Vec<u8>> = Vec::new();
    let mut names: Vec<Vec<u8>> = Vec::new();
    let mut i: usize = 0;
    while i < infos.len()
        invariant
            i <= infos@.len(),
            types@.len() == i,
            paths@.len() == i,
            names@.len() == i,
            forall|k: int| 0 <= k < i ==> (#[trigger] types@[k])@ == infos@[k]@.chunk_type,
            forall|k: int| 0 <= k < i ==> (#[trigger] paths@[k])@ == infos@[k]@.filepath,
            forall|k: int| 0 <= k < i ==> (#[trigger] names@[k])@ == infos@[k]@.chunk_name,
        decreases infos@.len() - i,
    {
        types.push(crate::bytes::copy_bytes(infos[i].chunk_type.as_slice()));
        paths.push(crate::bytes::copy_bytes(infos[i].filepath.as_slice()));
        names.push(crate::bytes::copy_bytes(infos[i].chunk_name.as_slice()));
        i += 1;
    }
    assert(strings_view(types@) =~= info_types(infos_view(infos@)));
    assert(strings_view(paths@) =~= info_paths(infos_view(infos@)));
    assert(strings_view(names@) =~= info_names(infos_view(infos@)));
    (types, paths, names)
}

/// Copies the target and the name of each reference of a list.
pub fn split_references(references: &Vec<NuccStructReference>) -> (r: (
    Vec<NuccStructInfo>,
    Vec<Vec<u8>>,
))
    ensures
        infos_view(r.0@) == reference_targets(references_view(references@)),
        strings_view(r.1@) == reference_names(references_view(references@)),
{
    let mut targets: Vec<NuccStructInfo> = Vec::new();
    let mut names: Vec<Vec<u8>> = Vec::new();
    let mut i: usize = 0;
    while i < references.len()
        invariant
            i <= references@.len(),
            targets@.len() == i,
            names@.len() == i,
            forall|k: int| 0 <= k < i ==> (#[trigger] targets@[k])@ == references@[k]@.struct_info,
            forall|k: int| 0 <= k < i ==> (#[trigger] names@[k])@ == references@[k]@.chunk_name,
        decreases references@.len() - i,
    {
        targets.push(references[i].struct_info.duplicate());
        names.push(crate::bytes::copy_bytes(references[i].chunk_name.as_slice()));
        i += 1;
    }
    assert(infos_view(targets@) =~= reference_targets(references_view(references@)));
    assert(strings_view(names@) =~= reference_names(references_view(references@)));
    (targets, names)
}

/// Builds the rows of the table of identities from the positions of each identity's tag,
/// path and name.
pub fn zip_rows(types: &Vec<u32>, paths: &Vec<u32>, names: &Vec<u32>) -> (r: Vec<XfbinChunkMap>)
    requires
        types@.len() == paths@.len(),
        types@.len() == names@.len(),
    ensures
        r@.len() == types@.len(),
        forall|i: int|
            0 <= i < r@.len() ==> (#[trigger] r@[i]) == (XfbinChunkMap {
                chunk_type_index: types@[i],
                filepath_index: paths@[i],
                chunk_name_index: names@[i],
            }),
{
    let mut out: Vec<XfbinChunkMap> = Vec::new();
    let mut i: usize = 0;
    while i < types.len()
        invariant
            i <= types@.len(),
            types@.len() == paths@.len(),
            types@.len() == names@.len(),
            out@.len() == i,
            forall|k: int|
                0 <= k < i ==> (#[trigger] out@[k]) == (XfbinChunkMap {
                    chunk_type_index: types@[k],
                    filepath_index: paths@[k],
                    chunk_name_index: names@[k],
                }),
        decreases types@.len() - i,
    {
        out.push(
            XfbinChunkMap {
                chunk_type_index: types[i],
                filepath_index: paths[i],
                chunk_name_index: names[i],
            },
        );
        i += 1;
    }
    out
}

/// Builds the rows of the table of references from the positions of each reference's name
/// and target.
pub fn zip_reference_rows(names: &Vec<u32>, targets: &Vec<u32>) -> (r: Vec<XfbinChunkReference>)
    requires
        names@.len() == targets@.len(),
    ensures
        r@.len() == names@.len(),
        forall|i: int|
            0 <= i < r@.len() ==> (#[trigger] r@[i]) == (XfbinChunkReference {
                chunk_name_index: names@[i],
                chunk_map_index: targets@[i],
            }),
{
    let mut out: Vec<XfbinChunkReference> = Vec::new();
    let mut i: usize = 0;
    while i < names.len()
        invariant
            i <= names@.len(),
            names@.len() == targets@.len(),
            out@.len() == i,
            forall|k: int|
                0 <= k < i ==> (#[trigger] out@[k]) == (XfbinChunkReference {
                    chunk_name_index: names@[k],
                    chunk_map_index: targets@[k],
                }),
        decreases names@.len() - i,
    {
        out.push(XfbinChunkReference { chunk_name_index: names[i], chunk_map_index: targets[i] });
        i += 1;
    }
    out
}

/// Builds the index of a container from the tables of its pages, one after the other,
/// and the references that the pages hand on. There must not be more of them than an
/// index of 32 bits can count.
#[verifier::rlimit(50)]
pub fn build_index(
    version: u16,
    min_page_size: u32,
    infos: &Vec<NuccStructInfo>,
    references: &Vec<NuccStructReference>,
) -> (r: XfbinIndex)
    requires
        infos@.len() + 2 * references@.len() <= 0xFFFF_FFFF,
    ensures
        r@ == index_of_tables(
            version,
            min_page_size,
            infos_view(infos@),
            references_view(references@),
        ),
{
    let ghost iv = infos_view(infos@);
    let ghost rv = references_view(references@);
    let mut global = StructInfoTable::new();
    let slots = global.fold(infos);
    let ghost first = global.infos();
    let (targets, reference_names) = split_references(references);
    proof {
        lemma_push_all_new(Seq::<StructInfoView>::empty(), iv);
        assert(iv.len() == infos@.len());
        assert(rv.len() == references@.len());
        assert(infos_view(targets@).len() == targets@.len());
        assert(strings_view(reference_names@).len() == reference_names@.len());
        assert(first.len() <= iv.len());
    }
    let target_slots = global.fold(&targets);
    let ghost g = global.infos();
    proof {
        assert(g == global_table(iv, rv));
        lemma_push_all_new(first, reference_targets(rv));
        global.lemma_no_duplicates();
        lemma_slots_stable(first, g, iv);
    }
    let global_infos = global.to_vec();
    let (type_list, path_list, name_list) = split_infos(&global_infos);
    proof {
        assert(g.len() <= first.len() + rv.len());
        assert(infos_view(global_infos@).len() == global_infos@.len());
        assert(strings_view(type_list@).len() == type_list@.len());
        assert(strings_view(path_list@).len() == path_list@.len());
        assert(strings_view(name_list@).len() == name_list@.len());
    }
    let mut types = StringTable::new();
    let type_slots = types.fold(&type_list);
    let mut paths = StringTable::new();
    let path_slots = paths.fold(&path_list);
    let mut names = StringTable::new();
    let name_slots = names.fold(&name_list);
    let ghost first_names = names.strings();
    proof {
        lemma_push_all_new(Seq::<Seq<u8>>::empty(), info_names(g));
        assert(first_names.len() <= g.len());
    }
    let reference_name_slots = names.fold(&reference_names);
    proof {
        lemma_push_all_new(first_names, crate::xfbin::reference_names(rv));
        names.lemma_no_duplicates();
        lemma_slots_stable(first_names, names.strings(), info_names(g));
    }
    let chunk_maps = zip_rows(&type_slots, &path_slots, &name_slots);
    let chunk_references = zip_reference_rows(&reference_name_slots, &target_slots);
    assert(chunk_maps@ =~= table_rows(iv, rv));
    assert(chunk_references@ =~= reference_rows(iv, rv));
    XfbinIndex {
        min_page_size,
        version,
        chunk_types: types.to_vec(),
        filepaths: paths.to_vec(),
        chunk_names: names.to_vec(),
        chunk_maps,
        chunk_references,
        chunk_map_indices: slots,
    }
}


/// The identities of the three markers are three different identities.
pub proof fn lemma_marker_infos_differ()
    ensures
        null_info() != page_info(),
        null_info() != index_info(),
        page_info() != index_info(),
{
    lemma_tag_lengths();
}

/// A page's table holds nothing twice, holds the three markers, and has at most as many
/// identities as the page has identities, structs and markers together.
pub proof fn lemma_page_infos_bounds(p: PageView)
    ensures
        page_infos(p).no_duplicates(),
        3 <= page_infos(p).len() <= p.struct_infos.len() + p.structs.len() + 3,
        page_references(p).len() <= p.struct_references.len(),
{
    let start = page_start_infos(p);
    let items = page_registered(p);
    let t = page_infos(p);
    lemma_push_all_new(Seq::<StructInfoView>::empty(), p.struct_infos);
    lemma_push_all_new(start, items);
    lemma_marker_infos_differ();
    assert(items[0] == null_info());
    assert(items[items.len() - 2] == page_info());
    assert(items[items.len() - 1] == index_info());
    assert(t.contains(null_info()));
    assert(t.contains(page_info()));
    assert(t.contains(index_info()));
    lemma_slot_in_range(t, null_info());
    lemma_slot_in_range(t, page_info());
    lemma_slot_in_range(t, index_info());
}

/// The weight of the first `k` pages is at most the weight of all.
pub proof fn lemma_weight_prefix(pages: Seq<PageView>, k: int)
    requires
        0 <= k <= pages.len(),
    ensures
        0 <= pages_weight(pages.subrange(0, k)) <= pages_weight(pages),
    decreases pages.len(),
{
    if k == pages.len() {
        assert(pages.subrange(0, k) =~= pages);
        if pages.len() > 0 {
            lemma_weight_prefix(pages.drop_last(), k - 1);
            assert(pages.drop_last().subrange(0, k - 1) =~= pages.drop_last());
        }
    } else {
        assert(pages.drop_last().subrange(0, k) =~= pages.subrange(0, k));
        lemma_weight_prefix(pages.drop_last(), k);
    }
}

/// Every page of a run that can be written has structs that can all be written.
pub proof fn lemma_pages_check_each(pages: Seq<PageView>, n: nat, i: int)
    requires
        pages_check(pages, n).is_none(),
        0 <= i < n,
    ensures
        structs_check(pages[i].structs, pages[i].structs.len()).is_none(),
    decreases n,
{
    if i < n - 1 {
        lemma_pages_check_each(pages, (n - 1) as nat, i);
    }
}

/// Once a page of a run cannot be written, the run cannot, for the same reason.
pub proof fn lemma_pages_check_some(pages: Seq<PageView>, k: nat, n: nat)
    requires
        k <= n,
        pages_check(pages, k).is_some(),
    ensures
        pages_check(pages, n) == pages_check(pages, k),
    decreases n,
{
    if k < n {
        lemma_pages_check_some(pages, k, (n - 1) as nat);
    }
}

/// Says whether every struct of a list can be written, and why the first that cannot,
/// cannot.
pub fn check_structs(structs: &Vec<NuccStruct>) -> (r: Result<(), EncodeError>)
    ensures
        match structs_check(structs_view(structs@), structs@.len()) {
            None => r.is_ok(),
            Some(e) => r == Err::<(), EncodeError>(e),
        },
{
    let ghost all = structs_view(structs@);
    let n: usize = structs.len();
    let mut i: usize = 0;
    while i < n
        invariant
            i <= n,
            n == structs@.len(),
            all == structs_view(structs@),
            structs_check(all, i as nat).is_none(),
        decreases n - i,
    {
        assert(all[i as int] == structs@[i as int]@);
        match structs[i].check() {
            Err(e) => {
                proof {
                    lemma_structs_check_some(all, (i + 1) as nat, n as nat);
                }
                return Err(e);
            },
            Ok(()) => {},
        }
        i += 1;
    }
    Ok(())
}

impl Xfbin {
    /// Says whether the pages can be made into a container, and why not if they cannot.
    #[verifier::rlimit(50)]
    pub fn check(&self) -> (r: Result<(), EncodeError>)
        ensures
            match xfbin_check(self@) {
                None => r.is_ok(),
                Some(e) => r == Err::<(), EncodeError>(e),
            },
    {
        let ghost pv = pages_view(self.pages@);
        let n: usize = self.pages.len();
        let mut weight: u64 = 0;
        let mut i: usize = 0;
        assert(pv.subrange(0, 0) =~= Seq::<PageView>::empty());
        while i < n
            invariant
                i <= n,
                n == self.pages@.len(),
                pv == pages_view(self.pages@),
                weight == pages_weight(pv.subrange(0, i as int)),
                weight <= 0xFFFF_FFFF,
            decreases n - i,
        {
            let page = &self.pages[i];
            proof {
                let next = pv.subrange(0, i + 1);
                assert(next.drop_last() =~= pv.subrange(0, i as int));
                assert(next.last() == page@);
                assert(page@.struct_infos.len() == page.struct_infos@.len());
                assert(page@.structs.len() == page.structs@.len());
                assert(page@.struct_references.len() == page.struct_references@.len());
                lemma_weight_prefix(pv, i + 1);
            }
            if page.struct_infos.len() > 0xFFFF_FFFF || page.structs.len() > 0xFFFF_FFFF
                || page.struct_references.len() > 0xFFFF_FFFF {
                return Err(EncodeError::TooLarge);
            }
            let next_weight: u64 = weight + page.struct_infos.len() as u64
                + page.structs.len() as u64 + 3 + 2 * (page.struct_references.len() as u64);
            if next_weight > 0xFFFF_FFFF {
                return Err(EncodeError::TooLarge);
            }
            weight = next_weight;
            i += 1;
        }
        assert(pv.subrange(0, n as int) =~= pv);
        let mut k: usize = 0;
        while k < n
            invariant
                k <= n,
                n == self.pages@.len(),
                pv == pages_view(self.pages@),
                pages_weight(pv) <= 0xFFFF_FFFF,
                pages_check(pv, k as nat).is_none(),
            decreases n - k,
        {
            assert(pv[k as int] == self.pages@[k as int]@);
            assert(pv[k as int].structs.len() == self.pages@[k as int].structs@.len());
            match check_structs(&self.pages[k].structs) {
                Err(e) => {
                    proof {
                        lemma_pages_check_some(pv, (k + 1) as nat, n as nat);
                    }
                    return Err(e);
                },
                Ok(()) => {},
            }
            k += 1;
        }
        Ok(())
    }
}

/// What writing the pages one after the other gives: their chunk frames, their tables of
/// identities and their references, each one after the other, and the smallest page size.
pub(crate) struct EncodedPages {
    pub frames: Vec<XfbinChunk>,
    pub struct_infos: Vec<NuccStructInfo>,
    pub struct_references: Vec<NuccStructReference>,
    pub min_page_size: u32,
}

/// Writes every page as chunk frames and collects the pages' tables and references.
#[verifier::rlimit(50)]
pub(crate) fn encode_pages(pages: Vec<XfbinPage>, version: u16) -> (r: EncodedPages)
    requires
        pages_weight(pages_view(pages@)) <= 0xFFFF_FFFF,
        pages_check(pages_view(pages@), pages@.len()).is_none(),
    ensures
        chunks_view(r.frames@) == all_frames(pages_view(pages@), version),
        infos_view(r.struct_infos@) == all_page_infos(pages_view(pages@)),
        references_view(r.struct_references@) == all_references(pages_view(pages@)),
        r.min_page_size == min_page_size(pages_view(pages@)),
        r.struct_infos@.len() + 2 * r.struct_references@.len() <= pages_weight(
            pages_view(pages@),
        ),
{
    let ghost orig = pages@;
    let ghost pv = pages_view(pages@);
    let n: usize = pages.len();
    let mut rest = reversed(pages);
    let mut frames: Vec<XfbinChunk> = Vec::new();
    let mut struct_infos: Vec<NuccStructInfo> = Vec::new();
    let mut struct_references: Vec<NuccStructReference> = Vec::new();
    let mut min_size: u32 = 0;
    let mut k: usize = 0;
    proof {
        assert(pv.subrange(0, 0) =~= Seq::<PageView>::empty());
        assert(chunks_view(frames@) =~= Seq::<XfbinChunkView>::empty());
        assert(infos_view(struct_infos@) =~= Seq::<StructInfoView>::empty());
        assert(references_view(struct_references@) =~= Seq::<StructReferenceView>::empty());
    }
    while k < n
        invariant
            k <= n,
            n == orig.len(),
            pv == pages_view(orig),
            rest@ == orig.reverse().subrange(0, n - k),
            pages_weight(pv) <= 0xFFFF_FFFF,
            pages_check(pv, n as nat).is_none(),
            chunks_view(frames@) == all_frames(pv.subrange(0, k as int), version),
            infos_view(struct_infos@) == all_page_infos(pv.subrange(0, k as int)),
            references_view(struct_references@) == all_references(pv.subrange(0, k as int)),
            min_size == min_page_size(pv.subrange(0, k as int)),
            struct_infos@.len() + 2 * struct_references@.len() <= pages_weight(
                pv.subrange(0, k as int),
            ),
        decreases n - k,
    {
        let page = rest.pop().unwrap();
        assert(page == orig[k as int]);
        assert(pv[k as int] == page@);
        let ghost done = pv.subrange(0, k as int);
        let ghost next = pv.subrange(0, k + 1);
        proof {
            assert(next.drop_last() =~= done);
            assert(next.last() == page@);
            lemma_weight_prefix(pv, k + 1);
            lemma_weight_prefix(pv, k as int);
            lemma_pages_check_each(pv, n as nat, k as int);
            lemma_page_infos_bounds(page@);
        }
        let ghost infos_before = struct_infos@;
        let ghost references_before = struct_references@;
        let (table, references) = encode_page(page, version, &mut frames);
        let size: usize = table.len();
        let mut page_table = table.to_vec();
        let mut references = references;
        proof {
            assert(infos_view(page_table@).len() == page_table@.len());
            assert(references_view(references@).len() == references@.len());
            assert(infos_view(infos_before).len() == infos_before.len());
            assert(references_view(references_before).len() == references_before.len());
            assert(infos_view(infos_before + page_table@) =~= infos_view(infos_before)
                + infos_view(page_table@));
            assert(references_view(references_before + references@) =~= references_view(
                references_before,
            ) + references_view(references@));
        }
        struct_infos.append(&mut page_table);
        struct_references.append(&mut references);
        let page_size: u32 = (size - 3) as u32;
        if k == 0 || page_size < min_size {
            min_size = page_size;
        }
        k += 1;
        assert(rest@ =~= orig.reverse().subrange(0, n - k));
    }
    assert(pv.subrange(0, n as int) =~= pv);
    EncodedPages { frames, struct_infos, struct_references, min_page_size: min_size }
}

impl XfbinFile {
    /// Makes pages into a container: each page is written as chunk frames, and the tables
    /// of the pages are folded into the tables of the index.
    pub fn from_xfbin(xfbin: Xfbin) -> (r: Result<XfbinFile, EncodeError>)
        ensures
            match xfbin_check(xfbin@) {
                None => r matches Ok(f) && f@ == file_of_xfbin(xfbin@),
                Some(e) => r matches Err(x) && x == e,
            },
    {
        match xfbin.check() {
            Err(e) => {
                return Err(e);
            },
            Ok(()) => {},
        }
        let Xfbin { version, pages } = xfbin;
        let encoded = encode_pages(pages, version);
        let index = build_index(
            version,
            encoded.min_page_size,
            &encoded.struct_infos,
            &encoded.struct_references,
        );
        Ok(
            XfbinFile {
                header: XfbinHeader { version: version as u32, encrypted: 0 },
                index,
                chunks: encoded.frames,
            },
        )
    }
}


/// The tables of the pages, one after the other, are the tables of the first `i` pages,
/// then the table of page `i`, then those of the pages after it.
pub proof fn lemma_page_table_at(pages: Seq<PageView>, i: int)
    requires
        0 <= i < pages.len(),
    ensures
        all_page_infos(pages.subrange(0, i)).len() + page_infos(pages[i]).len() <= all_page_infos(
            pages,
        ).len(),
        all_page_infos(pages).subrange(
            all_page_infos(pages.subrange(0, i)).len() as int,
            all_page_infos(pages.subrange(0, i)).len() + page_infos(pages[i]).len() as int,
        ) == page_infos(pages[i]),
    decreases pages.len(),
{
    let head = pages.drop_last();
    if i == pages.len() - 1 {
        assert(pages.subrange(0, i) =~= head);
        assert(all_page_infos(pages).subrange(
            all_page_infos(head).len() as int,
            all_page_infos(head).len() + page_infos(pages[i]).len() as int,
        ) =~= page_infos(pages[i]));
    } else {
        lemma_page_table_at(head, i);
        assert(head.subrange(0, i) =~= pages.subrange(0, i));
        assert(head[i] == pages[i]);
        let off = all_page_infos(pages.subrange(0, i)).len() as int;
        let len = page_infos(pages[i]).len() as int;
        assert(all_page_infos(pages).subrange(off, off + len) =~= all_page_infos(head).subrange(
            off,
            off + len,
        ));
    }
}

/// The tables and references of the pages are at most as many as the pages' weight says.
pub proof fn lemma_tables_weight(pages: Seq<PageView>)
    ensures
        all_page_infos(pages).len() + 2 * all_references(pages).len() <= pages_weight(pages),
    decreases pages.len(),
{
    if pages.len() > 0 {
        lemma_tables_weight(pages.drop_last());
        lemma_page_infos_bounds(pages.last());
    }
}

/// The row of the container's table of identities that the frame of the struct `s` of page
/// `i` resolves to: the frame's slot, counted from the start of the page's part of the
/// table of slots, says the row.
pub open spec fn resolved_row(x: XfbinView, i: int, s: NuccStructView) -> int {
    file_of_xfbin(x).index.chunk_map_indices[all_page_infos(x.pages.subrange(0, i)).len()
        + struct_frame(page_infos(x.pages[i]), s).chunk_map_index] as int
}

/// An identity has one row in the container's table of identities, whatever page its
/// struct stands in: the table holds no identity twice, and the frame of every struct of
/// every page resolves to the one row that holds the struct's identity.
#[verifier::rlimit(50)]
pub proof fn lemma_identity_has_one_row(x: XfbinView, i: int, s: NuccStructView)
    requires
        xfbin_check(x).is_none(),
        0 <= i < x.pages.len(),
        x.pages[i].structs.contains(s),
    ensures
        global_infos(x.pages).no_duplicates(),
        0 <= resolved_row(x, i, s) < global_infos(x.pages).len(),
        global_infos(x.pages)[resolved_row(x, i, s)] == s.struct_info,
        resolved_row(x, i, s) == slot_of(global_infos(x.pages), s.struct_info),
        file_of_xfbin(x).index.chunk_maps.len() == global_infos(x.pages).len(),
{
    let pages = x.pages;
    let a = all_page_infos(pages);
    let r = all_references(pages);
    let g = global_infos(pages);
    let t = page_infos(pages[i]);
    let off = all_page_infos(pages.subrange(0, i)).len() as int;
    lemma_tables_weight(pages);
    lemma_page_table_at(pages, i);
    lemma_page_infos_bounds(pages[i]);
    lemma_weight_prefix(pages, i);
    lemma_push_all_new(page_start_infos(pages[i]), page_registered(pages[i]));
    let k = choose|k: int| 0 <= k < pages[i].structs.len() && pages[i].structs[k] == s;
    assert(page_registered(pages[i])[k + 1] == s.struct_info);
    assert(t.contains(s.struct_info));
    lemma_slot_in_range(t, s.struct_info);
    let j = slot_of(t, s.struct_info);
    assert(a.subrange(off, off + t.len())[j] == a[off + j]);
    assert(a[off + j] == s.struct_info);
    lemma_push_all_new(Seq::<StructInfoView>::empty(), a);
    lemma_push_all_new(dedup(a), reference_targets(r));
    assert(dedup(a).contains(a[off + j]));
    assert(g.contains(s.struct_info));
    lemma_slot_in_range(g, s.struct_info);
}

/// Two structs with the same identity resolve to the same row of the container's table
/// of identities, whether they stand in one page or in two.
pub proof fn lemma_same_identity_same_row(
    x: XfbinView,
    i: int,
    s: NuccStructView,
    j: int,
    t: NuccStructView,
)
    requires
        xfbin_check(x).is_none(),
        0 <= i < x.pages.len(),
        0 <= j < x.pages.len(),
        x.pages[i].structs.contains(s),
        x.pages[j].structs.contains(t),
        s.struct_info == t.struct_info,
    ensures
        resolved_row(x, i, s) == resolved_row(x, j, t),
{
    lemma_identity_has_one_row(x, i, s);
    lemma_identity_has_one_row(x, j, t);
}

} // verus!
