use xfbin_lib::nucc_chunk::anm_key::{read_track_data, read_track_header};
use xfbin_lib::nucc_chunk::nucc_chunk_anmstrm::{AnmStrmClump, AnmStrmFrameInfo};
use xfbin_lib::nucc_chunk::nucc_chunk_anmstrmframe::{AnmEntryAmbient, AnmStrmEntry};
use xfbin_lib::nucc_chunk::nucc_chunk_anmstrmframe::Entry as FrameEntry;
use xfbin_lib::nucc_chunk::nucc_helper::Vector3;
use xfbin_lib::{
    read_xfbin_buf, write_xfbin_buf, AnmClump, AnmCoord, AnmEntry, AnmTrack, CoordParent,
    DecodeError, EntryFormat, NuccAmbient, NuccAnm, NuccAnmKey, NuccAnmKeyFormat, NuccAnmStrm,
    NuccAnmStrmFrame, NuccBinary, NuccCamera, NuccChunk, NuccChunkType, NuccInfo, NuccLayerSet,
    NuccLightDirc, NuccLightPoint, NuccMorphModel, NuccStruct, NuccStructInfo,
    NuccStructReference, NuccUnknown, TrackHeader, Xfbin, XfbinFile, XfbinPage,
};

fn info(name: &[u8], kind: &[u8], path: &[u8]) -> NuccStructInfo {
    NuccStructInfo::new(name, kind, path)
}

fn binary(name: &[u8], data: &[u8]) -> NuccStruct {
    NuccStruct::Binary(NuccBinary {
        struct_info: info(name, b"nuccChunkBinary", b""),
        version: 121,
        data: data.to_vec(),
    })
}

fn page_of(structs: Vec<NuccStruct>) -> XfbinPage {
    XfbinPage { structs, struct_infos: vec![], struct_references: vec![] }
}

#[test]
fn single_binary_page_decodes_and_is_written_back_byte_for_byte() {
    let xfbin = Xfbin { version: 121, pages: vec![page_of(vec![binary(b"test.bin", &[1, 2, 3])])] };
    let bytes = write_xfbin_buf(xfbin).unwrap();
    let decoded = read_xfbin_buf(&bytes).unwrap();
    assert_eq!(decoded.version, 121);
    assert_eq!(decoded.pages.len(), 1);
    assert_eq!(decoded.pages[0].structs.len(), 1);
    match &decoded.pages[0].structs[0] {
        NuccStruct::Binary(b) => {
            assert_eq!(b.data, vec![1u8, 2, 3]);
            assert_eq!(b.version, 121);
            assert_eq!(b.struct_info.chunk_name, b"test.bin".to_vec());
            assert_eq!(b.struct_info.chunk_type, b"nuccChunkBinary".to_vec());
        }
        other => panic!("not a binary struct: {:?}", other),
    }
    let again = write_xfbin_buf(decoded).unwrap();
    assert_eq!(again, bytes);
}

#[test]
fn shared_identity_has_one_row_that_both_pages_point_to() {
    let xfbin = Xfbin {
        version: 121,
        pages: vec![
            page_of(vec![binary(b"shared.bin", &[1])]),
            page_of(vec![binary(b"shared.bin", &[2])]),
        ],
    };
    let file = XfbinFile::from_xfbin(xfbin).unwrap();
    let index = &file.index;
    let mut rows = vec![];
    for (i, m) in index.chunk_maps.iter().enumerate() {
        if index.chunk_names[m.chunk_name_index as usize] == b"shared.bin".to_vec()
            && index.chunk_types[m.chunk_type_index as usize] == b"nuccChunkBinary".to_vec()
            && index.filepaths[m.filepath_index as usize] == b"".to_vec()
        {
            rows.push(i as u32);
        }
    }
    assert_eq!(rows.len(), 1);
    // Each page is: null, binary, page, index. Each page's table has four identities.
    assert_eq!(file.chunks.len(), 8);
    assert_eq!(index.chunk_map_indices.len(), 8);
    let first = index.chunk_map_indices[(0 + file.chunks[1].chunk_map_index) as usize];
    let second = index.chunk_map_indices[(4 + file.chunks[5].chunk_map_index) as usize];
    assert_eq!(first, rows[0]);
    assert_eq!(second, rows[0]);
    assert_eq!(index.chunk_maps.len(), 4);
}

#[test]
fn float_track_takes_twelve_bytes_and_the_next_header_follows() {
    let mut buf: Vec<u8> = vec![];
    for v in [1.0f32, 2.5, -3.0] {
        buf.extend_from_slice(&v.to_bits().to_be_bytes());
    }
    // The header of the next track: index 7, FloatLinear, 2 frames, 16 bytes.
    buf.extend_from_slice(&[0, 7, 0, 0x0C, 0, 2, 0, 16]);
    let header =
        TrackHeader { track_index: 0, key_format: NuccAnmKeyFormat::FloatFixed, frame_count: 3 };
    let (keys, next) = read_track_data(&buf, 0, &header).unwrap();
    assert_eq!(next, 12);
    assert_eq!(
        keys,
        vec![
            NuccAnmKey::Float { values: 1.0f32.to_bits() },
            NuccAnmKey::Float { values: 2.5f32.to_bits() },
            NuccAnmKey::Float { values: (-3.0f32).to_bits() },
        ]
    );
    let following = read_track_header(&buf, next).unwrap();
    assert_eq!(
        following,
        TrackHeader { track_index: 7, key_format: NuccAnmKeyFormat::FloatLinear, frame_count: 2 }
    );
}

#[test]
fn unknown_tag_is_kept_and_written_back_unchanged() {
    let payload: Vec<u8> = vec![9, 8, 7, 6, 5];
    let chunk = NuccChunkType::read_data(&payload, b"nuccChunkFutureType", 121).unwrap();
    match &chunk {
        NuccChunk::Unknown(u) => {
            assert_eq!(u.chunk_type, b"nuccChunkFutureType".to_vec());
            assert_eq!(u.data, payload);
            assert_eq!(u.version, 121);
        }
        other => panic!("not a pass-through chunk: {:?}", other),
    }
    assert_eq!(NuccChunkType::write_data(&chunk).unwrap(), payload);
}

#[test]
fn unsupported_key_format_is_an_error() {
    let buf = vec![0u8; 64];
    for format in [
        NuccAnmKeyFormat::Vector2Fixed,
        NuccAnmKeyFormat::Vector2Linear,
        NuccAnmKeyFormat::QuaternionTable,
        NuccAnmKeyFormat::Vector3Bezier,
        NuccAnmKeyFormat::EulerInterpolated,
        NuccAnmKeyFormat::Vector3ShortLinear,
        NuccAnmKeyFormat::Unknown,
    ] {
        let header = TrackHeader { track_index: 0, key_format: format, frame_count: 2 };
        assert_eq!(read_track_data(&buf, 0, &header), Err(DecodeError::UnsupportedKeyFormat));
    }
}

fn every_kind() -> Vec<NuccStruct> {
    let at = |name: &[u8], kind: &[u8]| info(name, kind, b"dir/file.max");
    vec![
        NuccStruct::Anm(NuccAnm {
            struct_info: at(b"walk", b"nuccChunkAnm"),
            version: 121,
            frame_count: 200,
            is_looped: true,
            other_entries_indices: vec![3],
            unk_entry_indices: vec![],
            clumps: vec![AnmClump {
                clump_index: 1,
                bone_material_indices: vec![2, 3],
                model_indices: vec![4],
            }],
            coord_parents: vec![CoordParent {
                parent: AnmCoord { clump_index: 0, coord_index: 0 },
                child: AnmCoord { clump_index: 0, coord_index: 1 },
            }],
            entries: vec![AnmEntry {
                coord: AnmCoord { clump_index: 0, coord_index: 1 },
                entry_format: EntryFormat::Coord,
                track_headers: vec![
                    TrackHeader {
                        track_index: 0,
                        key_format: NuccAnmKeyFormat::Vector3Linear,
                        frame_count: 2,
                    },
                    TrackHeader {
                        track_index: 1,
                        key_format: NuccAnmKeyFormat::ColorRGBTable,
                        frame_count: 3,
                    },
                ],
                tracks: vec![
                    AnmTrack {
                        keys: vec![
                            NuccAnmKey::Vec3Linear { frame: 0, values: (1, 2, 3) },
                            NuccAnmKey::Vec3Linear { frame: 100, values: (4, 5, 6) },
                        ],
                    },
                    AnmTrack {
                        keys: vec![
                            NuccAnmKey::Color { values: (1, 2, 3) },
                            NuccAnmKey::Color { values: (4, 5, 6) },
                            NuccAnmKey::Color { values: (7, 8, 9) },
                        ],
                    },
                ],
            }],
        }),
        NuccStruct::AnmStrm(NuccAnmStrm {
            struct_info: at(b"stream", b"nuccChunkAnmStrm"),
            version: 99,
            frame_count: 2,
            is_looped: false,
            clumps: vec![AnmStrmClump {
                clump_index: 0,
                bone_material_indices: vec![1],
                model_indices: vec![2, 3],
            }],
            other_entry_indices: vec![7, 8],
            coord_parents: vec![],
            entries: vec![AnmStrmFrameInfo { unknown: 0, frame_offset: 1, frame_number: 2 }],
        }),
        NuccStruct::AnmStrmFrame(NuccAnmStrmFrame {
            struct_info: at(b"frame", b"nuccChunkAnmStrmFrame"),
            version: 99,
            frame_number: 2,
            unknown: 0,
            entries: vec![AnmStrmEntry {
                coord: AnmCoord { clump_index: -1, coord_index: 0 },
                entry_format: 8,
                entry_size: 20,
                entry_data: FrameEntry::Ambient(AnmEntryAmbient {
                    frame_count: 1,
                    color: Vector3 { x: 1, y: 2, z: 3 },
                    intensity: 4,
                }),
            }],
        }),
        NuccStruct::Binary(NuccBinary {
            struct_info: at(b"blob", b"nuccChunkBinary"),
            version: 121,
            data: vec![1, 2, 3, 4, 5],
        }),
        NuccStruct::Camera(NuccCamera {
            struct_info: at(b"cam", b"nuccChunkCamera"),
            version: 121,
            fov: 45.0f32.to_bits(),
        }),
        NuccStruct::LightDirc(NuccLightDirc {
            struct_info: at(b"sun", b"nuccChunkLightDirc"),
            version: 121,
            data: vec![1; 64],
        }),
        NuccStruct::LightPoint(NuccLightPoint {
            struct_info: at(b"lamp", b"nuccChunkLightPoint"),
            version: 121,
            data: vec![2; 64],
        }),
        NuccStruct::LayerSet(NuccLayerSet {
            struct_info: at(b"layers", b"nuccChunkLayerSet"),
            version: 121,
            data: vec![3; 466],
        }),
        NuccStruct::Ambient(NuccAmbient {
            struct_info: at(b"sky", b"nuccChunkAmbient"),
            version: 121,
            data: vec![4; 16],
        }),
        NuccStruct::MorphModel(NuccMorphModel {
            struct_info: at(b"face", b"nuccChunkMorphModel"),
            version: 121,
            data: vec![5; 24],
        }),
        NuccStruct::Unknown(NuccUnknown {
            struct_info: at(b"body", b"nuccChunkModel"),
            version: 7,
            data: vec![6; 33],
            chunk_type: b"nuccChunkModel".to_vec(),
        }),
    ]
}

#[test]
fn every_kind_of_struct_is_read_back_as_it_was_written() {
    let structs = every_kind();
    let far = info(b"elsewhere", b"nuccChunkCoord", b"other.max");
    let references = vec![
        NuccStructReference::new(b"first", structs[3].struct_info()),
        NuccStructReference::new(b"second", &far),
        NuccStructReference::new(b"first", structs[3].struct_info()),
    ];
    let second = vec![NuccStructReference::new(b"third", structs[4].struct_info())];
    let pages = vec![
        XfbinPage {
            structs: structs.clone(),
            struct_infos: vec![far.clone(), far.clone()],
            struct_references: references.clone(),
        },
        XfbinPage {
            structs: vec![structs[3].clone(), structs[4].clone()],
            struct_infos: vec![far.clone()],
            struct_references: second.clone(),
        },
        page_of(vec![]),
    ];
    let bytes = write_xfbin_buf(Xfbin { version: 121, pages }).unwrap();
    let decoded = read_xfbin_buf(&bytes).unwrap();
    assert_eq!(decoded.version, 121);
    assert_eq!(decoded.pages.len(), 3);
    assert_eq!(decoded.pages[0].structs, structs);
    assert_eq!(decoded.pages[0].struct_references, references);
    assert_eq!(decoded.pages[0].struct_infos.len(), 1 + 1 + 11 + 2);
    assert_eq!(decoded.pages[0].struct_infos[0], far);
    assert_eq!(decoded.pages[1].structs, vec![structs[3].clone(), structs[4].clone()]);
    // A page of plain structs starts its table afresh and keeps its references.
    assert_eq!(decoded.pages[1].struct_infos.len(), 1 + 2 + 2);
    assert_eq!(decoded.pages[1].struct_references, second);
    assert_eq!(decoded.pages[2].structs, vec![]);
    assert_eq!(decoded.pages[2].struct_infos.len(), 3);
    // Written again, the pages that were read give the same bytes.
    assert_eq!(write_xfbin_buf(decoded).unwrap(), bytes);
}

#[test]
fn an_identity_is_changed_in_place() {
    let mut made = binary(b"before", &[1]);
    assert_eq!(made.struct_info().chunk_name, b"before".to_vec());
    made.struct_info_mut().chunk_name = b"after".to_vec();
    *made.struct_info_mut() = info(b"after", b"nuccChunkBinary", b"p");
    assert_eq!(made.struct_info(), &info(b"after", b"nuccChunkBinary", b"p"));
    match made {
        NuccStruct::Binary(mut b) => {
            assert_eq!(b.data, vec![1]);
            b.struct_info_mut().filepath = vec![];
            assert_eq!(b.struct_info(), &info(b"after", b"nuccChunkBinary", b""));
        }
        other => panic!("not a binary struct: {:?}", other),
    }
}

#[test]
fn a_truncated_container_gives_no_pages() {
    let xfbin = Xfbin { version: 121, pages: vec![page_of(every_kind())] };
    let bytes = write_xfbin_buf(xfbin).unwrap();
    for cut in [0, 3, 4, 15, 16, 67, 68, 100, bytes.len() / 2, bytes.len() - 1] {
        assert_eq!(read_xfbin_buf(&bytes[..cut]), Err(DecodeError::Truncated), "cut {}", cut);
    }
    let mut bad = bytes.clone();
    bad[0] = b'X';
    assert_eq!(read_xfbin_buf(&bad), Err(DecodeError::BadMagic));
}

fn frame_bytes(slot: u32, version: u16, payload: &[u8]) -> Vec<u8> {
    let mut out = vec![];
    out.extend_from_slice(&(payload.len() as u32).to_be_bytes());
    out.extend_from_slice(&slot.to_be_bytes());
    out.extend_from_slice(&version.to_be_bytes());
    out.extend_from_slice(&[0, 0]);
    out.extend_from_slice(payload);
    out
}

fn one_page_file_by_hand() -> Vec<u8> {
    let mut b: Vec<u8> = vec![];
    b.extend_from_slice(b"NUCC");
    b.extend_from_slice(&[0, 0, 0, 121, 0, 0, 0, 0, 0, 0, 0, 0]);
    // The index: table size, smallest page size, version, then counts and sizes.
    for field in [188u32, 1] {
        b.extend_from_slice(&field.to_be_bytes());
    }
    b.extend_from_slice(&[0, 121, 0, 0]);
    for field in [4u32, 59, 1, 1, 4, 22, 4, 48, 4, 0] {
        b.extend_from_slice(&field.to_be_bytes());
    }
    b.extend_from_slice(b"nuccChunkNull\0nuccChunkBinary\0nuccChunkPage\0nuccChunkIndex\0");
    b.extend_from_slice(b"\0");
    b.extend_from_slice(b"\0test.bin\0Page0\0index\0");
    b.extend_from_slice(&[0, 0]);
    for row in [[0u32, 0, 0], [1, 0, 1], [2, 0, 2], [3, 0, 3]] {
        for field in row {
            b.extend_from_slice(&field.to_be_bytes());
        }
    }
    for slot in [0u32, 1, 2, 3] {
        b.extend_from_slice(&slot.to_be_bytes());
    }
    b.extend(frame_bytes(0, 121, &[0, 121]));
    b.extend(frame_bytes(1, 121, &[0, 0, 0, 3, 1, 2, 3]));
    b.extend(frame_bytes(2, 121, &[0, 0, 0, 4, 0, 0, 0, 0]));
    b.extend(frame_bytes(3, 121, &[]));
    b
}

#[test]
fn a_one_page_file_written_by_hand_is_written_back_byte_for_byte() {
    let bytes = one_page_file_by_hand();
    let decoded = read_xfbin_buf(&bytes).unwrap();
    assert_eq!(decoded.version, 121);
    assert_eq!(decoded.pages.len(), 1);
    assert_eq!(decoded.pages[0].structs, vec![binary(b"test.bin", &[1, 2, 3])]);
    assert_eq!(decoded.pages[0].struct_infos.len(), 4);
    assert_eq!(decoded.pages[0].struct_references, vec![]);
    let again = write_xfbin_buf(decoded).unwrap();
    assert_eq!(again.len(), bytes.len());
    assert_eq!(again, bytes);
    // The same bytes come from pages that were never read.
    let fresh = Xfbin { version: 121, pages: vec![page_of(vec![binary(b"test.bin", &[1, 2, 3])])] };
    assert_eq!(write_xfbin_buf(fresh).unwrap(), bytes);
}
