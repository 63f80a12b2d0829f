//! Decoding inverts encoding: pages that are written as a container and read again are the
//! pages that were written, each with the tables that writing gave it.

use vstd::prelude::*;
use crate::error::DecodeError;
use crate::nucc::{
    is_marker, resolve_info, resolve_infos, resolve_reference, resolve_references, struct_form,
    NuccStructView, StructInfoView, StructReferenceView,
};
use crate::nucc_chunk::nucc_chunk_index::index_info;
use crate::nucc_chunk::nucc_chunk_null::null_info;
use crate::nucc_chunk::nucc_chunk_page::page_info;
use crate::nucc_chunk::{
    chunk_check, chunk_parse, chunk_reads_back_exactly, lemma_decode_inverts_encode_exactly,
    lemma_tag_names_kind, NuccChunkPage, NuccChunkType, NuccChunkView,
};
use crate::table::{
    dedup, lemma_dedup_of_distinct, lemma_push_all_held, lemma_push_all_new,
    lemma_slot_in_range, slot_of, slots_in,
};
use crate::xfbin::{
    all_frames, all_page_infos, all_references, assemble, assemble_step, file_of_xfbin,
    index_frame, keeps_tables, min_page_size, page_has, pages_check, reference_rows, structs_check,
    table_rows, follows_page, global_table, info_names, info_paths, info_types,
    lemma_page_infos_bounds, lemma_page_table_at, lemma_tables_weight, lemma_weight_prefix,
    mapped_infos, name_table, null_chunk, page_chunk, page_frames, page_infos, page_references,
    page_registered, page_start_infos, pages_weight, path_table, reference_names,
    reference_targets, struct_frame, type_table, xfbin_check, xfbin_of_file, Assembly, PageView,
    XfbinView,
};
use crate::xfbin_file::{file_check, file_wire, lemma_file_round_trip, XfbinChunkView};
use crate::{decode, encode};

verus! {

/// The struct is read back as it is after it was written: it is no marker, its identity
/// carries the tag of its chunk, its chunk is in the form in which structs keep chunks,
/// and the chunk can be written and holds what its kind reads.
pub open spec fn struct_reads_back(s: NuccStructView) -> bool {
    &&& !is_marker(s.chunk.kind())
    &&& s.struct_info.chunk_type == s.chunk.tag()
    &&& struct_form(s.chunk) == s.chunk
    &&& chunk_check(s.chunk).is_none()
    &&& chunk_reads_back_exactly(s.chunk)
}

/// Every struct of every page is read back as it is, and the pages are few enough to be
/// written.
#[verifier::opaque]
pub open spec fn pages_read_back_whole(x: XfbinView) -> bool {
    &&& pages_weight(x.pages) <= 0xFFFF_FFFF
    &&& forall|i: int, j: int|
        0 <= i < x.pages.len() && 0 <= j < x.pages[i].structs.len() ==> struct_reads_back(
            #[trigger] x.pages[i].structs[j],
        )
}

/// The page as it is read after it was written: its structs, the table of identities
/// that writing gave it, and its references.
pub open spec fn page_read_back(p: PageView) -> PageView {
    PageView {
        structs: p.structs,
        struct_infos: page_infos(p),
        struct_references: page_references(p),
    }
}

/// The pages as they are read after they were written.
pub open spec fn pages_read_back(pages: Seq<PageView>) -> Seq<PageView> {
    pages.map_values(|p: PageView| page_read_back(p))
}

/// What reading `n` more chunk frames gives, from where the reading stands.
pub open spec fn run(
    st: Assembly,
    frames: Seq<XfbinChunkView>,
    mapped: Seq<StructInfoView>,
    references: Seq<StructReferenceView>,
    n: nat,
) -> Result<Assembly, DecodeError>
    decreases n,
{
    if n == 0 {
        Ok(st)
    } else {
        match run(st, frames, mapped, references, (n - 1) as nat) {
            Err(e) => Err(e),
            Ok(mid) => assemble_step(mid, frames[n - 1], mapped, references),
        }
    }
}

/// Where the reading stands before any frame is read.
pub open spec fn start() -> Assembly {
    Assembly {
        pages: Seq::empty(),
        structs: Seq::empty(),
        info_offset: 0,
        reference_offset: 0,
        closed_at: None,
    }
}

/// Reading frames from the start is reading them from where the reading stands at the
/// start.
pub proof fn lemma_assemble_is_run(
    frames: Seq<XfbinChunkView>,
    mapped: Seq<StructInfoView>,
    references: Seq<StructReferenceView>,
    n: nat,
)
    ensures
        assemble(frames, mapped, references, n) == run(start(), frames, mapped, references, n),
    decreases n,
{
    if n > 0 {
        lemma_assemble_is_run(frames, mapped, references, (n - 1) as nat);
    }
}

/// Reading the frames of one run and then `k` frames of a second is reading all of the
/// first and going on with the second.
pub proof fn lemma_run_concat(
    st: Assembly,
    mid: Assembly,
    a: Seq<XfbinChunkView>,
    b: Seq<XfbinChunkView>,
    mapped: Seq<StructInfoView>,
    references: Seq<StructReferenceView>,
    k: nat,
)
    requires
        k <= b.len(),
        run(st, a, mapped, references, a.len()) == Ok::<Assembly, DecodeError>(mid),
    ensures
        run(st, a + b, mapped, references, a.len() + k) == run(mid, b, mapped, references, k),
    decreases k,
{
    if k == 0 {
        lemma_run_prefix(st, a, b, mapped, references, a.len());
    } else {
        lemma_run_concat(st, mid, a, b, mapped, references, (k - 1) as nat);
        assert((a + b)[a.len() + k - 1] == b[k - 1]);
    }
}

/// Reading the first `n` frames of a run does not depend on what follows the run.
pub proof fn lemma_run_prefix(
    st: Assembly,
    a: Seq<XfbinChunkView>,
    b: Seq<XfbinChunkView>,
    mapped: Seq<StructInfoView>,
    references: Seq<StructReferenceView>,
    n: nat,
)
    requires
        n <= a.len(),
    ensures
        run(st, a + b, mapped, references, n) == run(st, a, mapped, references, n),
    decreases n,
{
    if n > 0 {
        lemma_run_prefix(st, a, b, mapped, references, (n - 1) as nat);
        assert((a + b)[n - 1] == a[n - 1]);
    }
}

/// Reading a frame whose chunk is a null chunk or an index chunk changes nothing.
pub proof fn lemma_step_marker(
    st: Assembly,
    frame: XfbinChunkView,
    mapped: Seq<StructInfoView>,
    references: Seq<StructReferenceView>,
    chunk: NuccChunkView,
)
    requires
        st.closed_at.is_none(),
        0 <= st.info_offset + frame.chunk_map_index < mapped.len(),
        chunk_parse(
            frame.data,
            mapped[st.info_offset + frame.chunk_map_index].chunk_type,
            frame.version,
        ) == Ok::<NuccChunkView, DecodeError>(chunk),
        chunk is Null || chunk is Index,
    ensures
        assemble_step(st, frame, mapped, references) == Ok::<Assembly, DecodeError>(st),
{
}

/// Reading a frame whose chunk is no marker adds a struct to the open page.
pub proof fn lemma_step_struct(
    st: Assembly,
    frame: XfbinChunkView,
    mapped: Seq<StructInfoView>,
    references: Seq<StructReferenceView>,
    chunk: NuccChunkView,
)
    requires
        st.closed_at.is_none(),
        0 <= st.info_offset + frame.chunk_map_index < mapped.len(),
        chunk_parse(
            frame.data,
            mapped[st.info_offset + frame.chunk_map_index].chunk_type,
            frame.version,
        ) == Ok::<NuccChunkView, DecodeError>(chunk),
        !is_marker(chunk.kind()),
    ensures
        assemble_step(st, frame, mapped, references) == Ok::<Assembly, DecodeError>(
            Assembly {
                structs: st.structs.push(
                    NuccStructView {
                        struct_info: mapped[st.info_offset + frame.chunk_map_index],
                        chunk: struct_form(chunk),
                    },
                ),
                ..st
            },
        ),
{
}

/// Reading a frame whose chunk is a page chunk closes the open page.
pub proof fn lemma_step_page(
    st: Assembly,
    frame: XfbinChunkView,
    mapped: Seq<StructInfoView>,
    references: Seq<StructReferenceView>,
    p: NuccChunkPage,
)
    requires
        st.closed_at.is_none(),
        0 <= st.info_offset + frame.chunk_map_index < mapped.len(),
        chunk_parse(
            frame.data,
            mapped[st.info_offset + frame.chunk_map_index].chunk_type,
            frame.version,
        ) == Ok::<NuccChunkView, DecodeError>(NuccChunkView::Page(p)),
        st.info_offset + p.map_index_count <= mapped.len(),
        st.reference_offset + p.reference_count <= references.len(),
    ensures
        assemble_step(st, frame, mapped, references) == Ok::<Assembly, DecodeError>(
            Assembly {
                pages: st.pages.push(
                    PageView {
                        structs: st.structs,
                        struct_infos: mapped.subrange(
                            st.info_offset,
                            st.info_offset + p.map_index_count,
                        ),
                        struct_references: references.subrange(
                            st.reference_offset,
                            st.reference_offset + p.reference_count,
                        ),
                    },
                ),
                structs: Seq::empty(),
                info_offset: st.info_offset + p.map_index_count,
                reference_offset: st.reference_offset + p.reference_count,
                closed_at: Some(st.info_offset),
            },
        ),
{
}

/// Reading the index chunk that follows a page chunk only ends the closing of the page.
pub proof fn lemma_step_passed(
    st: Assembly,
    frame: XfbinChunkView,
    mapped: Seq<StructInfoView>,
    references: Seq<StructReferenceView>,
)
    requires
        follows_page(st, frame, mapped),
    ensures
        assemble_step(st, frame, mapped, references) == Ok::<Assembly, DecodeError>(
            Assembly { closed_at: None, ..st },
        ),
{
}


/// Where the reading stands between two pages: `done` are the pages closed so far, and
/// the next page's slots and references start at the given offsets.
pub open spec fn between(done: Seq<PageView>, info_offset: int, reference_offset: int) -> Assembly {
    Assembly {
        pages: done,
        structs: Seq::empty(),
        info_offset,
        reference_offset,
        closed_at: None,
    }
}

/// A page is written as a null chunk, its structs, a page chunk and an index chunk.
pub proof fn lemma_page_frames_at(p: PageView, version: u16)
    ensures
        page_frames(p, version).len() == p.structs.len() + 3,
        page_frames(p, version)[0] == struct_frame(
            page_infos(p),
            NuccStructView { struct_info: null_info(), chunk: null_chunk(version) },
        ),
        forall|j: int|
            0 <= j < p.structs.len() ==> #[trigger] page_frames(p, version)[j + 1] == struct_frame(
                page_infos(p),
                p.structs[j],
            ),
        page_frames(p, version)[p.structs.len() as int + 1] == struct_frame(
            page_infos(p),
            NuccStructView { struct_info: page_info(), chunk: page_chunk(p, version) },
        ),
        page_frames(p, version)[p.structs.len() as int + 2] == index_frame(p, version),
        index_frame(p, version).chunk_map_index == struct_frame(
            page_infos(p),
            NuccStructView { struct_info: index_info(), chunk: NuccChunkView::Index },
        ).chunk_map_index,
{
}

/// A page's table holds the identity of each of its markers and of each of its structs.
pub proof fn lemma_page_table_holds(p: PageView)
    ensures
        page_infos(p).contains(null_info()),
        page_infos(p).contains(page_info()),
        page_infos(p).contains(index_info()),
        forall|j: int|
            0 <= j < p.structs.len() ==> page_infos(p).contains(
                (#[trigger] p.structs[j]).struct_info,
            ),
{
    let items = page_registered(p);
    lemma_push_all_new(page_start_infos(p), items);
    assert(items[0] == null_info());
    assert(items[items.len() - 2] == page_info());
    assert(items[items.len() - 1] == index_info());
    assert forall|j: int| 0 <= j < p.structs.len() implies page_infos(p).contains(
        (#[trigger] p.structs[j]).struct_info,
    ) by {
        assert(items[j + 1] == p.structs[j].struct_info);
    }
}

/// The frame of a struct of a page, read where the page's slots start in the table of
/// slots, finds the struct's identity.
pub proof fn lemma_frame_finds_identity(
    p: PageView,
    s: NuccStructView,
    mapped: Seq<StructInfoView>,
    off: int,
)
    requires
        page_infos(p).contains(s.struct_info),
        page_infos(p).len() <= 0xFFFF_FFFF,
        0 <= off,
        off + page_infos(p).len() <= mapped.len(),
        mapped.subrange(off, off + page_infos(p).len() as int) == page_infos(p),
    ensures
        0 <= off + struct_frame(page_infos(p), s).chunk_map_index < mapped.len(),
        mapped[off + struct_frame(page_infos(p), s).chunk_map_index] == s.struct_info,
        struct_frame(page_infos(p), s).chunk_map_index == slot_of(page_infos(p), s.struct_info),
{
    let t = page_infos(p);
    lemma_slot_in_range(t, s.struct_info);
    let j = slot_of(t, s.struct_info);
    assert(mapped.subrange(off, off + t.len() as int)[j] == mapped[off + j]);
}

/// Reading the null chunk and the first `k` structs of a page gives these structs.
#[verifier::rlimit(50)]
pub proof fn lemma_page_structs_run(
    p: PageView,
    version: u16,
    mapped: Seq<StructInfoView>,
    references: Seq<StructReferenceView>,
    done: Seq<PageView>,
    off: int,
    roff: int,
    k: nat,
)
    requires
        k <= p.structs.len(),
        forall|j: int| 0 <= j < p.structs.len() ==> struct_reads_back(#[trigger] p.structs[j]),
        page_infos(p).len() <= 0xFFFF_FFFF,
        0 <= off,
        off + page_infos(p).len() <= mapped.len(),
        mapped.subrange(off, off + page_infos(p).len() as int) == page_infos(p),
    ensures
        run(between(done, off, roff), page_frames(p, version), mapped, references, 1 + k) == Ok::<
            Assembly,
            DecodeError,
        >(Assembly { structs: p.structs.subrange(0, k as int), ..between(done, off, roff) }),
    decreases k,
{
    let st = between(done, off, roff);
    let frames = page_frames(p, version);
    lemma_page_frames_at(p, version);
    lemma_page_table_holds(p);
    if k == 0 {
        let s = NuccStructView { struct_info: null_info(), chunk: null_chunk(version) };
        lemma_frame_finds_identity(p, s, mapped, off);
        lemma_decode_inverts_encode_exactly(s.chunk);
        lemma_step_marker(st, frames[0], mapped, references, s.chunk);
        assert(run(st, frames, mapped, references, 0) == Ok::<Assembly, DecodeError>(st));
        assert(p.structs.subrange(0, 0) =~= Seq::<NuccStructView>::empty());
    } else {
        lemma_page_structs_run(p, version, mapped, references, done, off, roff, (k - 1) as nat);
        let s = p.structs[k - 1];
        let mid = Assembly { structs: p.structs.subrange(0, k - 1), ..st };
        assert(frames[(k - 1) + 1] == struct_frame(page_infos(p), s));
        lemma_frame_finds_identity(p, s, mapped, off);
        lemma_decode_inverts_encode_exactly(s.chunk);
        lemma_step_struct(mid, frames[k as int], mapped, references, s.chunk);
        assert(p.structs.subrange(0, k - 1).push(s) =~= p.structs.subrange(0, k as int));
    }
}

/// Reading the frames of a page closes the page as it is read back.
#[verifier::rlimit(50)]
pub proof fn lemma_page_run(
    p: PageView,
    version: u16,
    mapped: Seq<StructInfoView>,
    references: Seq<StructReferenceView>,
    done: Seq<PageView>,
    off: int,
    roff: int,
)
    requires
        forall|j: int| 0 <= j < p.structs.len() ==> struct_reads_back(#[trigger] p.structs[j]),
        page_infos(p).len() <= 0xFFFF_FFFF,
        page_references(p).len() <= 0xFFFF_FFFF,
        0 <= off,
        off + page_infos(p).len() <= mapped.len(),
        mapped.subrange(off, off + page_infos(p).len() as int) == page_infos(p),
        0 <= roff,
        roff + page_references(p).len() <= references.len(),
        references.subrange(roff, roff + page_references(p).len() as int) == page_references(p),
    ensures
        run(
            between(done, off, roff),
            page_frames(p, version),
            mapped,
            references,
            page_frames(p, version).len(),
        ) == Ok::<Assembly, DecodeError>(
            between(
                done.push(page_read_back(p)),
                off + page_infos(p).len(),
                roff + page_references(p).len(),
            ),
        ),
{
    let st = between(done, off, roff);
    let frames = page_frames(p, version);
    let n = p.structs.len() as int;
    lemma_page_frames_at(p, version);
    lemma_page_table_holds(p);
    lemma_page_structs_run(p, version, mapped, references, done, off, roff, n as nat);
    assert(p.structs.subrange(0, n) =~= p.structs);
    let full = Assembly { structs: p.structs, ..st };
    let closing = NuccStructView { struct_info: page_info(), chunk: page_chunk(p, version) };
    let count = NuccChunkPage {
        version,
        map_index_count: page_infos(p).len() as u32,
        reference_count: page_references(p).len() as u32,
    };
    lemma_frame_finds_identity(p, closing, mapped, off);
    lemma_decode_inverts_encode_exactly(closing.chunk);
    lemma_step_page(full, frames[n + 1], mapped, references, count);
    let closed = Assembly {
        pages: done.push(page_read_back(p)),
        structs: Seq::empty(),
        info_offset: off + page_infos(p).len(),
        reference_offset: roff + page_references(p).len(),
        closed_at: Some(off),
    };
    assert(run(st, frames, mapped, references, (n + 2) as nat) == Ok::<Assembly, DecodeError>(
        closed,
    ));
    let last = NuccStructView { struct_info: index_info(), chunk: NuccChunkView::Index };
    lemma_frame_finds_identity(p, last, mapped, off);
    lemma_tag_names_kind(NuccChunkType::NuccChunkIndex);
    assert(follows_page(closed, frames[n + 2], mapped));
    lemma_step_passed(closed, frames[n + 2], mapped, references);
    assert(run(st, frames, mapped, references, (n + 3) as nat) == assemble_step(
        closed,
        frames[n + 2],
        mapped,
        references,
    ));
}

/// The references of the pages, one after the other, are the references of the first `i`
/// pages, then those of page `i`, then those of the pages after it.
pub proof fn lemma_page_references_at(pages: Seq<PageView>, i: int)
    requires
        0 <= i < pages.len(),
    ensures
        all_references(pages.subrange(0, i)).len() + page_references(pages[i]).len()
            <= all_references(pages).len(),
        all_references(pages).subrange(
            all_references(pages.subrange(0, i)).len() as int,
            all_references(pages.subrange(0, i)).len() + page_references(pages[i]).len() as int,
        ) == page_references(pages[i]),
    decreases pages.len(),
{
    let head = pages.drop_last();
    if i == pages.len() - 1 {
        assert(pages.subrange(0, i) =~= head);
        assert(all_references(pages).subrange(
            all_references(head).len() as int,
            all_references(head).len() + page_references(pages[i]).len() as int,
        ) =~= page_references(pages[i]));
    } else {
        lemma_page_references_at(head, i);
        assert(head.subrange(0, i) =~= pages.subrange(0, i));
        assert(head[i] == pages[i]);
        let off = all_references(pages.subrange(0, i)).len() as int;
        let len = page_references(pages[i]).len() as int;
        assert(all_references(pages).subrange(off, off + len) =~= all_references(head).subrange(
            off,
            off + len,
        ));
    }
}

/// Reading the frames of the first `k` pages closes these pages as they are read back.
#[verifier::rlimit(50)]
pub proof fn lemma_pages_run(x: XfbinView, k: nat)
    requires
        pages_read_back_whole(x),
        k <= x.pages.len(),
    ensures
        run(
            start(),
            all_frames(x.pages.subrange(0, k as int), x.version),
            all_page_infos(x.pages),
            all_references(x.pages),
            all_frames(x.pages.subrange(0, k as int), x.version).len(),
        ) == Ok::<Assembly, DecodeError>(
            between(
                pages_read_back(x.pages.subrange(0, k as int)),
                all_page_infos(x.pages.subrange(0, k as int)).len() as int,
                all_references(x.pages.subrange(0, k as int)).len() as int,
            ),
        ),
    decreases k,
{
    reveal(pages_read_back_whole);
    let pages = x.pages;
    let cur = pages.subrange(0, k as int);
    if k == 0 {
        assert(cur =~= Seq::<PageView>::empty());
        assert(pages_read_back(cur) =~= Seq::<PageView>::empty());
    } else {
        let prev = pages.subrange(0, k - 1);
        let p = pages[k - 1];
        assert(cur.drop_last() =~= prev);
        assert(cur.last() == p);
        lemma_pages_run(x, (k - 1) as nat);
        lemma_page_table_at(pages, k - 1);
        lemma_page_references_at(pages, k - 1);
        lemma_page_infos_bounds(p);
        lemma_weight_prefix(pages, k as int);
        lemma_weight_prefix(pages, k - 1);
        let off = all_page_infos(prev).len() as int;
        let roff = all_references(prev).len() as int;
        let mid = between(pages_read_back(prev), off, roff);
        assert forall|j: int| 0 <= j < p.structs.len() implies struct_reads_back(
            #[trigger] p.structs[j],
        ) by {
            assert(struct_reads_back(x.pages[k - 1].structs[j]));
        }
        lemma_page_run(
            p,
            x.version,
            all_page_infos(pages),
            all_references(pages),
            pages_read_back(prev),
            off,
            roff,
        );
        lemma_run_concat(
            start(),
            mid,
            all_frames(prev, x.version),
            page_frames(p, x.version),
            all_page_infos(pages),
            all_references(pages),
            page_frames(p, x.version).len(),
        );
        assert(pages_read_back(prev).push(page_read_back(p)) =~= pages_read_back(cur));
    }
}


/// The tables of the container are at most as large as the tables of the pages and the
/// references together, and hold every string they are asked for.
#[verifier::rlimit(50)]
pub proof fn lemma_tables_hold(infos: Seq<StructInfoView>, references: Seq<StructReferenceView>)
    ensures
        global_table(infos, references).no_duplicates(),
        global_table(infos, references).len() <= infos.len() + references.len(),
        type_table(infos, references).len() <= infos.len() + references.len(),
        path_table(infos, references).len() <= infos.len() + references.len(),
        name_table(infos, references).len() <= infos.len() + 2 * references.len(),
        forall|k: int|
            0 <= k < infos.len() ==> global_table(infos, references).contains(
                #[trigger] infos[k],
            ),
        forall|k: int|
            0 <= k < references.len() ==> global_table(infos, references).contains(
                (#[trigger] references[k]).struct_info,
            ) && name_table(infos, references).contains(references[k].chunk_name),
        forall|i: int|
            0 <= i < global_table(infos, references).len() ==> type_table(
                infos,
                references,
            ).contains((#[trigger] global_table(infos, references)[i]).chunk_type) && path_table(
                infos,
                references,
            ).contains(global_table(infos, references)[i].filepath) && name_table(
                infos,
                references,
            ).contains(global_table(infos, references)[i].chunk_name),
{
    let g = global_table(infos, references);
    let first = dedup(infos);
    let targets = reference_targets(references);
    let names = reference_names(references);
    lemma_push_all_new(Seq::<StructInfoView>::empty(), infos);
    lemma_push_all_new(first, targets);
    lemma_push_all_new(Seq::<Seq<u8>>::empty(), info_types(g));
    lemma_push_all_new(Seq::<Seq<u8>>::empty(), info_paths(g));
    lemma_push_all_new(Seq::<Seq<u8>>::empty(), info_names(g));
    lemma_push_all_new(dedup(info_names(g)), names);
    assert forall|k: int| 0 <= k < infos.len() implies g.contains(#[trigger] infos[k]) by {
        assert(first.contains(infos[k]));
    }
    assert forall|k: int| 0 <= k < references.len() implies g.contains(
        (#[trigger] references[k]).struct_info,
    ) && name_table(infos, references).contains(references[k].chunk_name) by {
        assert(targets[k] == references[k].struct_info);
        assert(names[k] == references[k].chunk_name);
    }
    assert forall|i: int| 0 <= i < g.len() implies type_table(infos, references).contains(
        (#[trigger] g[i]).chunk_type,
    ) && path_table(infos, references).contains(g[i].filepath) && name_table(
        infos,
        references,
    ).contains(g[i].chunk_name) by {
        assert(info_types(g)[i] == g[i].chunk_type);
        assert(info_paths(g)[i] == g[i].filepath);
        assert(info_names(g)[i] == g[i].chunk_name);
        assert(dedup(info_names(g)).contains(info_names(g)[i]));
    }
}

/// The rows of the table of identities resolve to the identities they were made of.
#[verifier::rlimit(50)]
pub proof fn lemma_rows_resolve(infos: Seq<StructInfoView>, references: Seq<StructReferenceView>)
    requires
        infos.len() + 2 * references.len() <= 0xFFFF_FFFF,
    ensures
        resolve_infos(
            table_rows(infos, references),
            name_table(infos, references),
            type_table(infos, references),
            path_table(infos, references),
        ) == Ok::<Seq<StructInfoView>, DecodeError>(global_table(infos, references)),
{
    let g = global_table(infos, references);
    let names = name_table(infos, references);
    let types = type_table(infos, references);
    let paths = path_table(infos, references);
    let rows = table_rows(infos, references);
    lemma_tables_hold(infos, references);
    assert forall|i: int| 0 <= i < rows.len() implies resolve_info(
        #[trigger] rows[i],
        names,
        types,
        paths,
    ) == Some(g[i]) by {
        lemma_slot_in_range(types, g[i].chunk_type);
        lemma_slot_in_range(paths, g[i].filepath);
        lemma_slot_in_range(names, g[i].chunk_name);
    }
    assert(Seq::new(rows.len(), |i: int| resolve_info(rows[i], names, types, paths).unwrap())
        =~= g);
}

/// The rows of the table of references resolve to the references they were made of.
pub proof fn lemma_reference_rows_resolve(
    infos: Seq<StructInfoView>,
    references: Seq<StructReferenceView>,
)
    requires
        infos.len() + 2 * references.len() <= 0xFFFF_FFFF,
    ensures
        resolve_references(
            reference_rows(infos, references),
            name_table(infos, references),
            global_table(infos, references),
        ) == Ok::<Seq<StructReferenceView>, DecodeError>(references),
{
    let g = global_table(infos, references);
    let names = name_table(infos, references);
    let rows = reference_rows(infos, references);
    lemma_tables_hold(infos, references);
    assert forall|i: int| 0 <= i < rows.len() implies resolve_reference(
        #[trigger] rows[i],
        names,
        g,
    ) == Some(references[i]) by {
        lemma_slot_in_range(names, references[i].chunk_name);
        lemma_slot_in_range(g, references[i].struct_info);
    }
    assert(Seq::new(rows.len(), |i: int| resolve_reference(rows[i], names, g).unwrap())
        =~= references);
}

/// The table of slots resolves to the tables of the pages, one after the other.
pub proof fn lemma_slots_resolve(infos: Seq<StructInfoView>, references: Seq<StructReferenceView>)
    requires
        infos.len() + 2 * references.len() <= 0xFFFF_FFFF,
    ensures
        mapped_infos(
            slots_in(global_table(infos, references), infos),
            global_table(infos, references),
        ) == Ok::<Seq<StructInfoView>, DecodeError>(infos),
{
    let g = global_table(infos, references);
    let slots = slots_in(g, infos);
    lemma_tables_hold(infos, references);
    assert forall|i: int| 0 <= i < slots.len() implies (#[trigger] slots[i]) < g.len() && g[slots[i] as int]
        == infos[i] by {
        lemma_slot_in_range(g, infos[i]);
    }
    assert(Seq::new(slots.len(), |i: int| g[slots[i] as int]) =~= infos);
}

/// Pages whose structs can each be written can be written.
pub proof fn lemma_pages_check_none(pages: Seq<PageView>, n: nat)
    requires
        n <= pages.len(),
        forall|i: int, j: int|
            0 <= i < pages.len() && 0 <= j < pages[i].structs.len() ==> chunk_check(
                (#[trigger] pages[i].structs[j]).chunk,
            ).is_none(),
    ensures
        pages_check(pages, n).is_none(),
    decreases n,
{
    if n > 0 {
        lemma_pages_check_none(pages, (n - 1) as nat);
        lemma_structs_check_none(pages[n - 1].structs, pages[n - 1].structs.len());
    }
}

/// Structs that can each be written can be written.
pub proof fn lemma_structs_check_none(structs: Seq<NuccStructView>, n: nat)
    requires
        n <= structs.len(),
        forall|j: int| 0 <= j < structs.len() ==> chunk_check((#[trigger] structs[j]).chunk).is_none(),
    ensures
        structs_check(structs, n).is_none(),
    decreases n,
{
    if n > 0 {
        lemma_structs_check_none(structs, (n - 1) as nat);
    }
}

/// Pages that are read back whole can be made into a container.
pub proof fn lemma_read_back_can_be_written(x: XfbinView)
    requires
        pages_read_back_whole(x),
    ensures
        xfbin_check(x).is_none(),
{
    reveal(pages_read_back_whole);
    assert forall|i: int, j: int|
        0 <= i < x.pages.len() && 0 <= j < x.pages[i].structs.len() implies chunk_check(
        (#[trigger] x.pages[i].structs[j]).chunk,
    ).is_none() by {
        assert(struct_reads_back(x.pages[i].structs[j]));
    }
    lemma_pages_check_none(x.pages, x.pages.len());
}

/// A container whose tables resolve and whose frames are read to the end is grouped into
/// the pages that reading its frames closed.
pub proof fn lemma_grouped(
    f: crate::xfbin_file::XfbinFileView,
    infos: Seq<StructInfoView>,
    references: Seq<StructReferenceView>,
    mapped: Seq<StructInfoView>,
    st: Assembly,
)
    requires
        resolve_infos(
            f.index.chunk_maps,
            f.index.chunk_names,
            f.index.chunk_types,
            f.index.filepaths,
        ) == Ok::<Seq<StructInfoView>, DecodeError>(infos),
        resolve_references(f.index.chunk_references, f.index.chunk_names, infos) == Ok::<
            Seq<StructReferenceView>,
            DecodeError,
        >(references),
        mapped_infos(f.index.chunk_map_indices, infos) == Ok::<Seq<StructInfoView>, DecodeError>(
            mapped,
        ),
        assemble(f.chunks, mapped, references, f.chunks.len()) == Ok::<Assembly, DecodeError>(st),
    ensures
        xfbin_of_file(f) == Ok::<XfbinView, DecodeError>(
            XfbinView { version: (f.header.version % 0x1_0000) as u16, pages: st.pages },
        ),
{
}

/// The parts of the container that pages are written as.
pub proof fn lemma_file_parts_of(x: XfbinView)
    ensures
        file_of_xfbin(x).header.version == x.version,
        file_of_xfbin(x).index.chunk_maps == table_rows(
            all_page_infos(x.pages),
            all_references(x.pages),
        ),
        file_of_xfbin(x).index.chunk_references == reference_rows(
            all_page_infos(x.pages),
            all_references(x.pages),
        ),
        file_of_xfbin(x).index.chunk_names == name_table(
            all_page_infos(x.pages),
            all_references(x.pages),
        ),
        file_of_xfbin(x).index.chunk_types == type_table(
            all_page_infos(x.pages),
            all_references(x.pages),
        ),
        file_of_xfbin(x).index.filepaths == path_table(
            all_page_infos(x.pages),
            all_references(x.pages),
        ),
        file_of_xfbin(x).index.chunk_map_indices == slots_in(
            global_table(all_page_infos(x.pages), all_references(x.pages)),
            all_page_infos(x.pages),
        ),
        file_of_xfbin(x).chunks == all_frames(x.pages, x.version),
{
}

/// Reading all frames that pages are written as closes the pages as they are read back.
pub proof fn lemma_assembled(x: XfbinView)
    requires
        pages_read_back_whole(x),
    ensures
        assemble(
            all_frames(x.pages, x.version),
            all_page_infos(x.pages),
            all_references(x.pages),
            all_frames(x.pages, x.version).len(),
        ) == Ok::<Assembly, DecodeError>(
            between(
                pages_read_back(x.pages),
                all_page_infos(x.pages).len() as int,
                all_references(x.pages).len() as int,
            ),
        ),
{
    let frames = all_frames(x.pages, x.version);
    lemma_assemble_is_run(frames, all_page_infos(x.pages), all_references(x.pages), frames.len());
    assert(x.pages.subrange(0, x.pages.len() as int) =~= x.pages);
    lemma_pages_run(x, x.pages.len());
}

/// The table of identities of the container that pages are written as resolves to the
/// identities it was made of.
pub proof fn lemma_written_rows_resolve(x: XfbinView)
    requires
        pages_read_back_whole(x),
    ensures
        resolve_infos(
            file_of_xfbin(x).index.chunk_maps,
            file_of_xfbin(x).index.chunk_names,
            file_of_xfbin(x).index.chunk_types,
            file_of_xfbin(x).index.filepaths,
        ) == Ok::<Seq<StructInfoView>, DecodeError>(
            global_table(all_page_infos(x.pages), all_references(x.pages)),
        ),
{
    reveal(pages_read_back_whole);
    lemma_file_parts_of(x);
    lemma_tables_weight(x.pages);
    lemma_rows_resolve(all_page_infos(x.pages), all_references(x.pages));
}

/// The table of references of the container that pages are written as resolves to the
/// references of the pages.
pub proof fn lemma_written_references_resolve(x: XfbinView)
    requires
        pages_read_back_whole(x),
    ensures
        resolve_references(
            file_of_xfbin(x).index.chunk_references,
            file_of_xfbin(x).index.chunk_names,
            global_table(all_page_infos(x.pages), all_references(x.pages)),
        ) == Ok::<Seq<StructReferenceView>, DecodeError>(all_references(x.pages)),
{
    reveal(pages_read_back_whole);
    lemma_file_parts_of(x);
    lemma_tables_weight(x.pages);
    lemma_reference_rows_resolve(all_page_infos(x.pages), all_references(x.pages));
}

/// The table of slots of the container that pages are written as resolves to the tables
/// of the pages.
pub proof fn lemma_written_slots_resolve(x: XfbinView)
    requires
        pages_read_back_whole(x),
    ensures
        mapped_infos(
            file_of_xfbin(x).index.chunk_map_indices,
            global_table(all_page_infos(x.pages), all_references(x.pages)),
        ) == Ok::<Seq<StructInfoView>, DecodeError>(all_page_infos(x.pages)),
{
    reveal(pages_read_back_whole);
    lemma_file_parts_of(x);
    lemma_tables_weight(x.pages);
    lemma_slots_resolve(all_page_infos(x.pages), all_references(x.pages));
}

/// Reading the frames of the container that pages are written as closes the pages as
/// they are read back.
pub proof fn lemma_written_frames_assemble(x: XfbinView)
    requires
        pages_read_back_whole(x),
    ensures
        assemble(
            file_of_xfbin(x).chunks,
            all_page_infos(x.pages),
            all_references(x.pages),
            file_of_xfbin(x).chunks.len(),
        ) == Ok::<Assembly, DecodeError>(
            between(
                pages_read_back(x.pages),
                all_page_infos(x.pages).len() as int,
                all_references(x.pages).len() as int,
            ),
        ),
        file_of_xfbin(x).header.version == x.version,
{
    lemma_file_parts_of(x);
    lemma_assembled(x);
}

/// Grouping inverts writing. The container that pages are written as is grouped into the
/// same pages again: every struct is read back as it is, and every page gets the table of
/// identities and the references that writing gave it.
#[verifier::rlimit(50)]
pub proof fn lemma_pages_round_trip(x: XfbinView)
    requires
        pages_read_back_whole(x),
    ensures
        xfbin_of_file(file_of_xfbin(x)) == Ok::<XfbinView, DecodeError>(
            XfbinView { version: x.version, pages: pages_read_back(x.pages) },
        ),
{
    lemma_written_rows_resolve(x);
    lemma_written_references_resolve(x);
    lemma_written_slots_resolve(x);
    lemma_written_frames_assemble(x);
    lemma_grouped(
        file_of_xfbin(x),
        global_table(all_page_infos(x.pages), all_references(x.pages)),
        all_references(x.pages),
        all_page_infos(x.pages),
        between(
            pages_read_back(x.pages),
            all_page_infos(x.pages).len() as int,
            all_references(x.pages).len() as int,
        ),
    );
}

/// Decoding inverts encoding. Pages that are read back whole, and whose container can be
/// written, are encoded as a buffer that is decoded to the same pages: every struct as it
/// was, and every page with the table of identities and the references that encoding
/// gave it.
pub proof fn lemma_decode_inverts_encode(x: XfbinView)
    requires
        pages_read_back_whole(x),
        file_check(file_of_xfbin(x)).is_none(),
    ensures
        encode(x) == Ok::<Seq<u8>, crate::error::EncodeError>(file_wire(file_of_xfbin(x))),
        decode(file_wire(file_of_xfbin(x))) == Ok::<XfbinView, DecodeError>(
            XfbinView { version: x.version, pages: pages_read_back(x.pages) },
        ),
{
    lemma_read_back_can_be_written(x);
    lemma_file_round_trip(file_of_xfbin(x));
    lemma_pages_round_trip(x);
}


/// A page that was read back is written as the page it was read from: its table of
/// identities, its references and its chunk frames are the same.
pub proof fn lemma_page_written_again(p: PageView, version: u16)
    ensures
        page_infos(page_read_back(p)) == page_infos(p),
        page_references(page_read_back(p)) == page_references(p),
        page_frames(page_read_back(p), version) == page_frames(p, version),
{
    let q = page_read_back(p);
    assert(forall|kind: NuccChunkType| page_has(q, kind) == page_has(p, kind));
    assert(keeps_tables(q) == keeps_tables(p));
    assert(page_registered(q) == page_registered(p));
    if keeps_tables(p) {
        lemma_page_infos_bounds(p);
        lemma_dedup_of_distinct(page_infos(p));
        lemma_push_all_new(page_start_infos(p), page_registered(p));
        lemma_push_all_held(page_infos(p), page_registered(p));
    }
}

/// Pages that were read back are written as the pages they were read from.
pub proof fn lemma_pages_written_again(pages: Seq<PageView>, version: u16)
    ensures
        all_page_infos(pages_read_back(pages)) == all_page_infos(pages),
        all_references(pages_read_back(pages)) == all_references(pages),
        all_frames(pages_read_back(pages), version) == all_frames(pages, version),
        min_page_size(pages_read_back(pages)) == min_page_size(pages),
    decreases pages.len(),
{
    if pages.len() > 0 {
        lemma_pages_written_again(pages.drop_last(), version);
        lemma_page_written_again(pages.last(), version);
        assert(pages_read_back(pages).drop_last() =~= pages_read_back(pages.drop_last()));
        assert(pages_read_back(pages).last() == page_read_back(pages.last()));
    }
}

/// Writing is stable. Pages that were read back from a container are written as the same
/// container again: the same tables in the same order, the same slots, the same frames.
pub proof fn lemma_written_again_is_the_same(x: XfbinView)
    ensures
        file_of_xfbin(XfbinView { version: x.version, pages: pages_read_back(x.pages) })
            == file_of_xfbin(x),
{
    lemma_pages_written_again(x.pages, x.version);
}


/// Encoding inverts decoding on every buffer that encoding gives. Such a buffer is decoded
/// to pages that, where they can be written, are encoded as the same buffer again, byte
/// for byte.
pub proof fn lemma_encode_inverts_decode_of_written(x: XfbinView)
    requires
        pages_read_back_whole(x),
        file_check(file_of_xfbin(x)).is_none(),
        xfbin_check(XfbinView { version: x.version, pages: pages_read_back(x.pages) }).is_none(),
    ensures
        decode(file_wire(file_of_xfbin(x))) == Ok::<XfbinView, DecodeError>(
            XfbinView { version: x.version, pages: pages_read_back(x.pages) },
        ),
        encode(XfbinView { version: x.version, pages: pages_read_back(x.pages) }) == Ok::<
            Seq<u8>,
            crate::error::EncodeError,
        >(file_wire(file_of_xfbin(x))),
{
    lemma_decode_inverts_encode(x);
    lemma_written_again_is_the_same(x);
}

} // verus!
