use xfbin_lib::nucc::{NuccChunkConverter, NuccInfo, NuccStructConverter, XfbinChunkMapConverter, XfbinChunkReferenceConverter};
use xfbin_lib::nucc_chunk::{NuccChunkBinary, NuccChunkNull, NuccChunkPage, NuccChunkUnknown};
use xfbin_lib::table::{StringTable, StructInfoTable};
use xfbin_lib::xfbin::repack_struct;
use xfbin_lib::xfbin_file::{XfbinChunk, XfbinChunkMap, XfbinChunkReference, XfbinHeader, XfbinIndex};
use xfbin_lib::{
    read_xfbin_buf, write_xfbin_buf, AnmClump, DecodeError, EncodeError, NuccAnm, NuccBinary,
    NuccCamera, NuccChunk, NuccChunkType, NuccStruct, NuccStructInfo, NuccStructReference,
    NuccUnknown, Xfbin, XfbinFile, XfbinPage,
};

fn info(name: &[u8], kind: &[u8], path: &[u8]) -> NuccStructInfo {
    NuccStructInfo::new(name, kind, path)
}

fn binary(name: &[u8], path: &[u8], data: &[u8]) -> NuccStruct {
    NuccStruct::Binary(NuccBinary {
        struct_info: info(name, b"nuccChunkBinary", path),
        version: 121,
        data: data.to_vec(),
    })
}

fn unknown(name: &[u8], kind: &[u8], data: &[u8]) -> NuccStruct {
    NuccStruct::Unknown(NuccUnknown {
        struct_info: info(name, kind, b"c/d.max"),
        version: 121,
        data: data.to_vec(),
        chunk_type: kind.to_vec(),
    })
}

fn page_of(structs: Vec<NuccStruct>) -> XfbinPage {
    XfbinPage { structs, struct_infos: vec![], struct_references: vec![] }
}

fn null_info() -> NuccStructInfo {
    info(b"", b"nuccChunkNull", b"")
}

fn page_info() -> NuccStructInfo {
    info(b"Page0", b"nuccChunkPage", b"")
}

fn index_info() -> NuccStructInfo {
    info(b"index", b"nuccChunkIndex", b"")
}

#[test]
fn a_table_keeps_each_identity_once_where_it_was_first_put() {
    let mut table = StructInfoTable::new();
    assert_eq!(table.len(), 0);
    assert_eq!(table.to_vec(), vec![]);
    let a = info(b"a", b"t", b"p");
    let b = info(b"a", b"t", b"q");
    let c = info(b"", b"at", b"p");
    assert_eq!(table.index_or_insert(&a), Some(0));
    assert_eq!(table.index_or_insert(&b), Some(1));
    assert_eq!(table.index_or_insert(&a), Some(0));
    assert_eq!(table.index_or_insert(&c), Some(2));
    assert_eq!(table.index_or_insert(&b), Some(1));
    assert_eq!(table.len(), 3);
    assert_eq!(table.to_vec(), vec![a.clone(), b.clone(), c.clone()]);
    assert_eq!(table.fold(&vec![c.clone(), null_info(), a.clone(), null_info()]), vec![2, 3, 0, 3]);
    assert_eq!(table.to_vec(), vec![a, b, c, null_info()]);
}

#[test]
fn a_string_table_keeps_each_string_once_where_it_was_first_put() {
    let mut table = StringTable::new();
    assert_eq!(table.len(), 0);
    assert_eq!(table.index_or_insert(b"x"), Some(0));
    assert_eq!(table.index_or_insert(b""), Some(1));
    assert_eq!(table.index_or_insert(b"x"), Some(0));
    assert_eq!(table.index_or_insert(b"xy"), Some(2));
    assert_eq!(table.len(), 3);
    assert_eq!(table.to_vec(), vec![b"x".to_vec(), b"".to_vec(), b"xy".to_vec()]);
    assert_eq!(table.fold(&vec![b"z".to_vec(), b"x".to_vec(), b"z".to_vec()]), vec![3, 0, 3]);
    assert_eq!(table.len(), 4);
}

#[test]
fn identities_are_the_same_only_if_all_three_parts_are() {
    let a = info(b"n", b"t", b"p");
    assert!(a.same(&a.duplicate()));
    assert!(!a.same(&info(b"m", b"t", b"p")));
    assert!(!a.same(&info(b"n", b"u", b"p")));
    assert!(!a.same(&info(b"n", b"t", b"q")));
    let r = NuccStructReference::new(b"ref", &a);
    assert_eq!(r.duplicate(), r);
    assert_eq!(r.struct_info, a);
    assert_eq!(r.chunk_name, b"ref".to_vec());
}

#[test]
fn a_page_is_written_as_null_structs_page_index() {
    let xfbin = Xfbin {
        version: 121,
        pages: vec![page_of(vec![binary(b"a", b"", &[1]), binary(b"b", b"", &[2]), binary(b"a", b"", &[3])])],
    };
    let file = XfbinFile::from_xfbin(xfbin).unwrap();
    assert_eq!(file.header, XfbinHeader { version: 121, encrypted: 0 });
    assert_eq!(file.index.version, 121);
    let kinds: Vec<Vec<u8>> = file
        .chunks
        .iter()
        .map(|c| {
            let row = file.index.chunk_maps[file.index.chunk_map_indices[c.chunk_map_index as usize] as usize];
            file.index.chunk_types[row.chunk_type_index as usize].clone()
        })
        .collect();
    assert_eq!(
        kinds,
        vec![
            b"nuccChunkNull".to_vec(),
            b"nuccChunkBinary".to_vec(),
            b"nuccChunkBinary".to_vec(),
            b"nuccChunkBinary".to_vec(),
            b"nuccChunkPage".to_vec(),
            b"nuccChunkIndex".to_vec(),
        ]
    );
    let slots: Vec<u32> = file.chunks.iter().map(|c| c.chunk_map_index).collect();
    assert_eq!(slots, vec![0, 1, 2, 1, 3, 4]);
    assert_eq!(file.chunks[0].data, vec![0, 121]);
    assert_eq!(file.chunks[1].data, vec![0, 0, 0, 1, 1]);
    // The page chunk counts the five identities of the page and no reference.
    assert_eq!(file.chunks[4].data, vec![0, 0, 0, 5, 0, 0, 0, 0]);
    assert_eq!(file.chunks[5].data, Vec::<u8>::new());
    assert_eq!(file.index.chunk_map_indices, vec![0, 1, 2, 3, 4]);
    assert_eq!(file.index.min_page_size, 2);
    assert_eq!(
        file.index.chunk_types,
        vec![
            b"nuccChunkNull".to_vec(),
            b"nuccChunkBinary".to_vec(),
            b"nuccChunkPage".to_vec(),
            b"nuccChunkIndex".to_vec()
        ]
    );
    assert_eq!(file.index.filepaths, vec![b"".to_vec()]);
    assert_eq!(
        file.index.chunk_names,
        vec![b"".to_vec(), b"a".to_vec(), b"b".to_vec(), b"Page0".to_vec(), b"index".to_vec()]
    );
    assert_eq!(
        file.index.chunk_maps,
        vec![
            XfbinChunkMap { chunk_type_index: 0, filepath_index: 0, chunk_name_index: 0 },
            XfbinChunkMap { chunk_type_index: 1, filepath_index: 0, chunk_name_index: 1 },
            XfbinChunkMap { chunk_type_index: 1, filepath_index: 0, chunk_name_index: 2 },
            XfbinChunkMap { chunk_type_index: 2, filepath_index: 0, chunk_name_index: 3 },
            XfbinChunkMap { chunk_type_index: 3, filepath_index: 0, chunk_name_index: 4 },
        ]
    );
    assert_eq!(file.index.chunk_references, vec![]);
}

#[test]
fn the_smallest_page_decides_the_smallest_page_size() {
    let sizes = |counts: &[usize]| {
        let pages = counts
            .iter()
            .map(|n| page_of((0..*n).map(|i| binary(&[b'a' + i as u8], b"", &[])).collect()))
            .collect();
        XfbinFile::from_xfbin(Xfbin { version: 1, pages }).unwrap().index.min_page_size
    };
    assert_eq!(sizes(&[]), 0);
    assert_eq!(sizes(&[0]), 0);
    assert_eq!(sizes(&[3]), 3);
    assert_eq!(sizes(&[3, 1]), 1);
    assert_eq!(sizes(&[1, 3]), 1);
    assert_eq!(sizes(&[2, 5, 2, 4]), 2);
    assert_eq!(sizes(&[4, 0, 7]), 0);
}

#[test]
fn identities_are_folded_across_pages_in_the_order_first_seen() {
    let xfbin = Xfbin {
        version: 121,
        pages: vec![
            page_of(vec![binary(b"x", b"one.max", &[]), binary(b"y", b"two.max", &[])]),
            page_of(vec![binary(b"y", b"two.max", &[]), binary(b"z", b"one.max", &[]), binary(b"x", b"one.max", &[])]),
        ],
    };
    let file = XfbinFile::from_xfbin(xfbin).unwrap();
    // Rows: null, x, y, page, index, z.
    assert_eq!(file.index.chunk_maps.len(), 6);
    assert_eq!(file.index.chunk_map_indices, vec![0, 1, 2, 3, 4, 0, 2, 5, 1, 3, 4]);
    assert_eq!(file.index.filepaths, vec![b"".to_vec(), b"one.max".to_vec(), b"two.max".to_vec()]);
    assert_eq!(
        file.index.chunk_names,
        vec![
            b"".to_vec(),
            b"x".to_vec(),
            b"y".to_vec(),
            b"Page0".to_vec(),
            b"index".to_vec(),
            b"z".to_vec()
        ]
    );
    assert_eq!(
        file.index.chunk_maps[5],
        XfbinChunkMap { chunk_type_index: 1, filepath_index: 1, chunk_name_index: 5 }
    );
    let decoded = Xfbin::from_file(&file).unwrap();
    assert_eq!(decoded.pages.len(), 2);
    assert_eq!(decoded.pages[1].structs.len(), 3);
    assert_eq!(decoded.pages[1].structs[1].struct_info(), &info(b"z", b"nuccChunkBinary", b"one.max"));
    assert_eq!(
        decoded.pages[1].struct_infos,
        vec![
            null_info(),
            info(b"y", b"nuccChunkBinary", b"two.max"),
            info(b"z", b"nuccChunkBinary", b"one.max"),
            info(b"x", b"nuccChunkBinary", b"one.max"),
            page_info(),
            index_info()
        ]
    );
}

fn kept_page() -> XfbinPage {
    let clump = info(b"clump", b"nuccChunkClump", b"c/d.max");
    let coord = info(b"bone", b"nuccChunkCoord", b"c/d.max");
    XfbinPage {
        structs: vec![unknown(b"clump", b"nuccChunkClump", &[1, 2, 3, 4])],
        struct_infos: vec![coord.clone(), null_info(), coord.clone(), clump.clone()],
        struct_references: vec![
            NuccStructReference::new(b"r1", &coord),
            NuccStructReference::new(b"r1", &coord),
            NuccStructReference::new(b"r2", &info(b"far", b"nuccChunkCoord", b"e.max")),
        ],
    }
}

#[test]
fn a_page_with_a_pass_through_struct_keeps_its_tables() {
    let page = kept_page();
    assert!(page.has_unknown_chunk());
    assert!(!page.has_anm_chunk());
    let (structs, table, references) = page.clone().destructure();
    assert_eq!(structs, page.structs);
    assert_eq!(
        table.to_vec(),
        vec![info(b"bone", b"nuccChunkCoord", b"c/d.max"), null_info(), info(b"clump", b"nuccChunkClump", b"c/d.max")]
    );
    assert_eq!(references, page.struct_references);

    let file = XfbinFile::from_xfbin(Xfbin { version: 121, pages: vec![page] }).unwrap();
    // The page's table: bone, null, clump, page, index.
    let slots: Vec<u32> = file.chunks.iter().map(|c| c.chunk_map_index).collect();
    assert_eq!(slots, vec![1, 2, 3, 4]);
    assert_eq!(file.chunks[2].data, vec![0, 0, 0, 5, 0, 0, 0, 3]);
    assert_eq!(file.index.chunk_map_indices, vec![0, 1, 2, 3, 4]);
    // The target that no page holds gets a row of its own after the pages' rows.
    assert_eq!(file.index.chunk_maps.len(), 6);
    assert_eq!(
        file.index.chunk_references,
        vec![
            XfbinChunkReference { chunk_name_index: 6, chunk_map_index: 0 },
            XfbinChunkReference { chunk_name_index: 6, chunk_map_index: 0 },
            XfbinChunkReference { chunk_name_index: 7, chunk_map_index: 5 },
        ]
    );
    assert_eq!(
        file.index.chunk_names,
        vec![
            b"bone".to_vec(),
            b"".to_vec(),
            b"clump".to_vec(),
            b"Page0".to_vec(),
            b"index".to_vec(),
            b"far".to_vec(),
            b"r1".to_vec(),
            b"r2".to_vec()
        ]
    );
    assert_eq!(file.index.filepaths, vec![b"c/d.max".to_vec(), b"".to_vec(), b"e.max".to_vec()]);
    assert_eq!(file.index.min_page_size, 2);

    let bytes = file.write().unwrap();
    let decoded = read_xfbin_buf(&bytes).unwrap();
    assert_eq!(decoded.pages.len(), 1);
    assert_eq!(decoded.pages[0].structs, kept_page().structs);
    assert_eq!(decoded.pages[0].struct_references, kept_page().struct_references);
    assert_eq!(write_xfbin_buf(decoded).unwrap(), bytes);
}

#[test]
fn a_page_without_animation_or_pass_through_struct_starts_its_table_afresh() {
    let mut page = kept_page();
    page.structs = vec![binary(b"b", b"", &[])];
    assert!(!page.has_unknown_chunk());
    assert!(!page.has_anm_chunk());
    let (_, table, references) = page.clone().destructure();
    assert_eq!(table.len(), 0);
    // The references are handed on all the same.
    assert_eq!(references, page.struct_references);
    let file = XfbinFile::from_xfbin(Xfbin { version: 121, pages: vec![page.clone()] }).unwrap();
    // Rows: null, b, page, index, and the two targets of the references.
    assert_eq!(file.index.chunk_maps.len(), 6);
    assert_eq!(file.index.chunk_map_indices, vec![0, 1, 2, 3]);
    assert_eq!(
        file.index.chunk_references,
        vec![
            XfbinChunkReference { chunk_name_index: 6, chunk_map_index: 4 },
            XfbinChunkReference { chunk_name_index: 6, chunk_map_index: 4 },
            XfbinChunkReference { chunk_name_index: 7, chunk_map_index: 5 },
        ]
    );
    assert_eq!(file.chunks[2].data, vec![0, 0, 0, 4, 0, 0, 0, 3]);
    let decoded = Xfbin::from_file(&file).unwrap();
    assert_eq!(decoded.pages[0].struct_references, page.struct_references);
}

#[test]
fn a_page_with_an_animation_keeps_its_tables() {
    let anm = NuccStruct::Anm(NuccAnm {
        struct_info: info(b"walk", b"nuccChunkAnm", b"a.max"),
        version: 121,
        frame_count: 10,
        is_looped: true,
        other_entries_indices: vec![],
        unk_entry_indices: vec![],
        clumps: vec![AnmClump { clump_index: 0, bone_material_indices: vec![1], model_indices: vec![] }],
        coord_parents: vec![],
        entries: vec![],
    });
    let mut page = kept_page();
    page.structs = vec![anm.clone()];
    assert!(page.has_anm_chunk());
    let bytes = write_xfbin_buf(Xfbin { version: 121, pages: vec![page.clone()] }).unwrap();
    let decoded = read_xfbin_buf(&bytes).unwrap();
    assert_eq!(decoded.pages[0].structs, vec![anm]);
    assert_eq!(decoded.pages[0].struct_references, page.struct_references);
    assert_eq!(decoded.pages[0].struct_infos[0], info(b"bone", b"nuccChunkCoord", b"c/d.max"));
    assert_eq!(write_xfbin_buf(decoded).unwrap(), bytes);
}

fn hand_made(chunks: Vec<XfbinChunk>) -> XfbinFile {
    XfbinFile {
        header: XfbinHeader { version: 0x1_0079, encrypted: 0 },
        index: XfbinIndex {
            min_page_size: 0,
            version: 121,
            chunk_types: vec![
                b"nuccChunkNull".to_vec(),
                b"nuccChunkBinary".to_vec(),
                b"nuccChunkPage".to_vec(),
                b"nuccChunkIndex".to_vec(),
            ],
            filepaths: vec![b"".to_vec()],
            chunk_names: vec![b"".to_vec(), b"bin".to_vec(), b"Page0".to_vec(), b"index".to_vec()],
            chunk_maps: vec![
                XfbinChunkMap { chunk_type_index: 0, filepath_index: 0, chunk_name_index: 0 },
                XfbinChunkMap { chunk_type_index: 1, filepath_index: 0, chunk_name_index: 1 },
                XfbinChunkMap { chunk_type_index: 2, filepath_index: 0, chunk_name_index: 2 },
                XfbinChunkMap { chunk_type_index: 3, filepath_index: 0, chunk_name_index: 3 },
            ],
            chunk_references: vec![XfbinChunkReference { chunk_name_index: 1, chunk_map_index: 1 }],
            chunk_map_indices: vec![0, 1, 2, 3, 0, 1, 2, 3],
        },
        chunks,
    }
}

fn frame(slot: u32, data: &[u8]) -> XfbinChunk {
    XfbinChunk { chunk_map_index: slot, version: 121, data: data.to_vec() }
}

#[test]
fn pages_without_index_chunks_are_read_too() {
    let file = hand_made(vec![
        frame(0, &[]),
        frame(1, &[0, 0, 0, 1, 7]),
        frame(2, &[0, 0, 0, 4, 0, 0, 0, 1]),
        frame(0, &[]),
        frame(1, &[0, 0, 0, 1, 8]),
        frame(1, &[0, 0, 0, 1, 9]),
        frame(2, &[0, 0, 0, 4, 0, 0, 0, 0]),
    ]);
    let xfbin = Xfbin::from_file(&file).unwrap();
    assert_eq!(xfbin.version, 0x79);
    assert_eq!(xfbin.pages.len(), 2);
    assert_eq!(xfbin.pages[0].structs, vec![binary(b"bin", b"", &[7])]);
    assert_eq!(xfbin.pages[0].struct_infos.len(), 4);
    assert_eq!(xfbin.pages[0].struct_references.len(), 1);
    assert_eq!(xfbin.pages[0].struct_references[0].chunk_name, b"bin".to_vec());
    assert_eq!(xfbin.pages[1].structs, vec![binary(b"bin", b"", &[8]), binary(b"bin", b"", &[9])]);
    assert_eq!(xfbin.pages[1].struct_references.len(), 0);
}

#[test]
fn the_index_chunk_after_a_page_chunk_is_passed_over() {
    let file = hand_made(vec![
        frame(0, &[0, 121]),
        frame(1, &[0, 0, 0, 1, 7]),
        frame(2, &[0, 0, 0, 4, 0, 0, 0, 0]),
        frame(3, &[]),
        frame(0, &[0, 121]),
        frame(2, &[0, 0, 0, 4, 0, 0, 0, 0]),
        frame(3, &[1, 2, 3]),
    ]);
    let xfbin = Xfbin::from_file(&file).unwrap();
    assert_eq!(xfbin.pages.len(), 2);
    assert_eq!(xfbin.pages[0].structs.len(), 1);
    assert_eq!(xfbin.pages[1].structs.len(), 0);
}

#[test]
fn structs_after_the_last_page_chunk_belong_to_no_page() {
    let file = hand_made(vec![
        frame(0, &[]),
        frame(2, &[0, 0, 0, 4, 0, 0, 0, 0]),
        frame(3, &[]),
        frame(1, &[0, 0, 0, 1, 7]),
    ]);
    let xfbin = Xfbin::from_file(&file).unwrap();
    assert_eq!(xfbin.pages.len(), 1);
    assert_eq!(xfbin.pages[0].structs.len(), 0);
}

#[test]
fn indices_outside_their_tables_are_errors() {
    let good = hand_made(vec![frame(0, &[]), frame(1, &[0, 0, 0, 0]), frame(2, &[0, 0, 0, 4, 0, 0, 0, 1])]);
    assert!(Xfbin::from_file(&good).is_ok());

    let mut file = hand_made(vec![]);
    file.index.chunk_maps[2].chunk_name_index = 4;
    assert_eq!(Xfbin::from_file(&file), Err(DecodeError::IndexOutOfRange));
    let mut file = hand_made(vec![]);
    file.index.chunk_maps[0].chunk_type_index = 4;
    assert_eq!(Xfbin::from_file(&file), Err(DecodeError::IndexOutOfRange));
    let mut file = hand_made(vec![]);
    file.index.chunk_maps[0].filepath_index = 1;
    assert_eq!(Xfbin::from_file(&file), Err(DecodeError::IndexOutOfRange));
    let mut file = hand_made(vec![]);
    file.index.chunk_references[0].chunk_map_index = 4;
    assert_eq!(Xfbin::from_file(&file), Err(DecodeError::IndexOutOfRange));
    let mut file = hand_made(vec![]);
    file.index.chunk_references[0].chunk_name_index = 4;
    assert_eq!(Xfbin::from_file(&file), Err(DecodeError::IndexOutOfRange));
    let mut file = hand_made(vec![]);
    file.index.chunk_map_indices[7] = 4;
    assert_eq!(Xfbin::from_file(&file), Err(DecodeError::IndexOutOfRange));

    // A frame whose slot lies outside the table of slots.
    let file = hand_made(vec![frame(8, &[])]);
    assert_eq!(Xfbin::from_file(&file), Err(DecodeError::IndexOutOfRange));
    // A page chunk that counts more slots or references than there are.
    let file = hand_made(vec![frame(2, &[0, 0, 0, 9, 0, 0, 0, 0])]);
    assert_eq!(Xfbin::from_file(&file), Err(DecodeError::IndexOutOfRange));
    let file = hand_made(vec![frame(2, &[0, 0, 0, 4, 0, 0, 0, 2])]);
    assert_eq!(Xfbin::from_file(&file), Err(DecodeError::IndexOutOfRange));
    // A payload that its codec cannot read.
    let file = hand_made(vec![frame(1, &[0, 0, 0, 5, 1])]);
    assert_eq!(Xfbin::from_file(&file), Err(DecodeError::Truncated));
    let file = hand_made(vec![frame(2, &[0, 0, 0, 4])]);
    assert_eq!(Xfbin::from_file(&file), Err(DecodeError::Truncated));
}

#[test]
fn a_struct_that_cannot_be_written_stops_the_encoding() {
    let anm = |models: usize| {
        NuccStruct::Anm(NuccAnm {
            struct_info: info(b"walk", b"nuccChunkAnm", b""),
            version: 121,
            frame_count: 0,
            is_looped: false,
            other_entries_indices: vec![],
            unk_entry_indices: vec![],
            clumps: vec![AnmClump {
                clump_index: 0,
                bone_material_indices: vec![],
                model_indices: vec![0; models],
            }],
            coord_parents: vec![],
            entries: vec![],
        })
    };
    let xfbin = Xfbin { version: 121, pages: vec![page_of(vec![anm(3)]), page_of(vec![anm(0x1_0000)])] };
    assert_eq!(xfbin.check(), Err(EncodeError::TooLarge));
    assert_eq!(write_xfbin_buf(xfbin), Err(EncodeError::TooLarge));
    let odd = NuccStruct::MorphModel(xfbin_lib::NuccMorphModel {
        struct_info: info(b"face", b"nuccChunkMorphModel", b""),
        version: 121,
        data: vec![0; 12],
    });
    assert_eq!(odd.check(), Err(EncodeError::BlockLengthMismatch));
    assert_eq!(
        write_xfbin_buf(Xfbin { version: 121, pages: vec![page_of(vec![odd])] }),
        Err(EncodeError::BlockLengthMismatch)
    );
    let named = Xfbin { version: 121, pages: vec![page_of(vec![binary(b"a\0b", b"", &[])])] };
    assert_eq!(named.check(), Ok(()));
    assert_eq!(write_xfbin_buf(named), Err(EncodeError::NulInName));
}

#[test]
fn structs_and_chunks_are_made_of_each_other() {
    let chunk = NuccChunk::Binary(NuccChunkBinary { version: 5, data: vec![1] });
    let made = NuccStruct::from_chunk(chunk.clone(), info(b"n", b"nuccChunkBinary", b"p"));
    assert_eq!(
        made,
        NuccStruct::Binary(NuccBinary {
            struct_info: info(b"n", b"nuccChunkBinary", b"p"),
            version: 5,
            data: vec![1]
        })
    );
    assert_eq!(made.chunk_type(), NuccChunkType::NuccChunkBinary);
    assert_eq!(made.version(), 5);
    assert_eq!(made.check(), Ok(()));
    assert_eq!(made.clone().into_chunk(), chunk);

    let empty = NuccStructConverter { nucc_chunk: chunk.clone(), struct_infos: vec![], struct_references: vec![] }
        .convert();
    assert_eq!(empty.struct_info(), &info(b"", b"", b""));
    assert_eq!(
        NuccChunkConverter {
            nucc_struct: made,
            struct_info_map: StructInfoTable::new(),
            struct_reference_map: vec![]
        }
        .convert(),
        chunk
    );

    let camera = NuccStruct::Camera(NuccCamera { struct_info: info(b"c", b"nuccChunkCamera", b""), version: 1, fov: 0x42340000 });
    assert_eq!(f32::from_bits(match camera.clone().into_chunk() {
        NuccChunk::Camera(c) => c.fov,
        _ => 0,
    }), 45.0);
    let kept = NuccStruct::from_chunk(
        NuccChunk::Unknown(NuccChunkUnknown { version: 2, chunk_type: b"x".to_vec(), data: vec![3] }),
        info(b"u", b"x", b""),
    );
    assert_eq!(kept.chunk_type(), NuccChunkType::NuccChunkUnknown);
}

#[test]
fn rows_are_resolved_through_their_tables() {
    let rows = XfbinChunkMapConverter {
        chunk_maps: vec![
            XfbinChunkMap { chunk_type_index: 1, filepath_index: 0, chunk_name_index: 2 },
            XfbinChunkMap { chunk_type_index: 0, filepath_index: 1, chunk_name_index: 0 },
        ],
        chunk_names: vec![b"n0".to_vec(), b"n1".to_vec(), b"n2".to_vec()],
        chunk_types: vec![b"t0".to_vec(), b"t1".to_vec()],
        filepaths: vec![b"zero.max".to_vec(), b"one.max".to_vec()],
    };
    let infos = rows.convert().unwrap();
    assert_eq!(infos, vec![info(b"n2", b"t1", b"zero.max"), info(b"n0", b"t0", b"one.max")]);
    let references = XfbinChunkReferenceConverter {
        references: vec![
            XfbinChunkReference { chunk_name_index: 1, chunk_map_index: 1 },
            XfbinChunkReference { chunk_name_index: 1, chunk_map_index: 1 },
        ],
        chunk_names: vec![b"n0".to_vec(), b"n1".to_vec()],
        struct_infos: infos.clone(),
    };
    assert_eq!(
        references.convert().unwrap(),
        vec![NuccStructReference::new(b"n1", &infos[1]), NuccStructReference::new(b"n1", &infos[1])]
    );
}

#[test]
fn repacking_for_a_page_registers_the_identity() {
    let mut table = StructInfoTable::new();
    let null = NuccChunk::Null(NuccChunkNull(121));
    let page = NuccChunk::Page(NuccChunkPage { version: 121, map_index_count: 2, reference_count: 0 });
    let first = repack_struct(&null, &null_info(), &mut table).unwrap();
    assert_eq!(first, XfbinChunk { chunk_map_index: 0, version: 121, data: vec![0, 121] });
    let second = repack_struct(&page, &page_info(), &mut table).unwrap();
    assert_eq!(second.chunk_map_index, 1);
    assert_eq!(second.data, vec![0, 0, 0, 2, 0, 0, 0, 0]);
    let third = repack_struct(&null, &null_info(), &mut table).unwrap();
    assert_eq!(third.chunk_map_index, 0);
    assert_eq!(table.len(), 2);
}
