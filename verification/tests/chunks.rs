use xfbin_lib::nucc_chunk::nucc_chunk_anmstrm::{AnmStrmClump, AnmStrmFrameInfo, NuccChunkAnmStrm};
use xfbin_lib::nucc_chunk::nucc_chunk_anmstrmframe::{
    AnmEntryAmbient, AnmEntryBone, AnmEntryCamera, AnmEntryLightDirc, AnmEntryLightPoint,
    AnmEntryMaterial, AnmEntryMorphModel, AnmStrmEntry, NuccChunkAnmStrmFrame,
};
use xfbin_lib::nucc_chunk::nucc_chunk_anmstrmframe::Entry as FrameEntry;
use xfbin_lib::nucc_chunk::nucc_helper::{
    QuaternionShort, Vector3, Vector3Short, Vector4, VectorShort, RGB,
};
use xfbin_lib::nucc_chunk::{
    NuccChunkAmbient, NuccChunkBinary, NuccChunkCamera, NuccChunkIndex, NuccChunkLayerSet,
    NuccChunkLightDirc, NuccChunkLightPoint, NuccChunkMorphModel, NuccChunkNull, NuccChunkPage,
    NuccChunkUnknown,
};
use xfbin_lib::{
    AnmClump, AnmCoord, AnmEntry, AnmTrack, CoordParent, DecodeError, EncodeError, EntryFormat,
    NuccAnmKey, NuccAnmKeyFormat, NuccChunk, NuccChunkAnm, NuccChunkType, TrackHeader,
};

const TAGS: [(NuccChunkType, &[u8]); 14] = [
    (NuccChunkType::NuccChunkNull, b"nuccChunkNull"),
    (NuccChunkType::NuccChunkPage, b"nuccChunkPage"),
    (NuccChunkType::NuccChunkIndex, b"nuccChunkIndex"),
    (NuccChunkType::NuccChunkBinary, b"nuccChunkBinary"),
    (NuccChunkType::NuccChunkAnm, b"nuccChunkAnm"),
    (NuccChunkType::NuccChunkAnmStrm, b"nuccChunkAnmStrm"),
    (NuccChunkType::NuccChunkAnmStrmFrame, b"nuccChunkAnmStrmFrame"),
    (NuccChunkType::NuccChunkCamera, b"nuccChunkCamera"),
    (NuccChunkType::NuccChunkLightDirc, b"nuccChunkLightDirc"),
    (NuccChunkType::NuccChunkLightPoint, b"nuccChunkLightPoint"),
    (NuccChunkType::NuccChunkLayerSet, b"nuccChunkLayerSet"),
    (NuccChunkType::NuccChunkAmbient, b"nuccChunkAmbient"),
    (NuccChunkType::NuccChunkMorphModel, b"nuccChunkMorphModel"),
    (NuccChunkType::NuccChunkUnknown, b"nuccChunkUnknown"),
];

#[test]
fn every_kind_has_its_tag() {
    for (kind, tag) in TAGS {
        assert_eq!(kind.to_tag(), tag.to_vec());
        assert_eq!(NuccChunkType::from_tag(tag), kind);
    }
    assert_eq!(NuccChunkType::default(), NuccChunkType::NuccChunkUnknown);
}

#[test]
fn a_tag_that_names_no_kind_is_the_pass_through_kind() {
    for tag in [&b""[..], b"nuccChunkNul", b"nuccChunkNulll", b"NuccChunkNull", b"nuccChunkClump"] {
        assert_eq!(NuccChunkType::from_tag(tag), NuccChunkType::NuccChunkUnknown);
    }
}

#[test]
fn binary_is_a_length_and_its_bytes() {
    let chunk = NuccChunkBinary { version: 121, data: vec![1, 2, 3] };
    let bytes = chunk.write().unwrap();
    assert_eq!(bytes, vec![0, 0, 0, 3, 1, 2, 3]);
    assert_eq!(NuccChunkBinary::read(&bytes, 121), Ok(chunk.clone()));
    // Bytes after the counted ones are ignored.
    assert_eq!(NuccChunkBinary::read(&[0, 0, 0, 3, 1, 2, 3, 9, 9], 121), Ok(chunk.clone()));
    assert_eq!(NuccChunkBinary::read(&[0, 0, 0, 3, 1, 2], 121), Err(DecodeError::Truncated));
    assert_eq!(NuccChunkBinary::read(&[0, 0, 0], 121), Err(DecodeError::Truncated));
    assert_eq!(
        NuccChunkBinary::read(&[0, 0, 0, 0], 5),
        Ok(NuccChunkBinary { version: 5, data: vec![] })
    );
    assert_eq!(chunk.extension(), ".binary");
    assert_eq!(NuccChunk::Binary(chunk).extension(), ".binary");
    assert_eq!(NuccChunk::Index(NuccChunkIndex).extension(), "");
}

#[test]
fn fixed_blocks_are_read_at_their_size_and_written_back() {
    let long: Vec<u8> = (0..500u32).map(|i| (i % 251) as u8).collect();
    let ambient = NuccChunkAmbient::read(&long[..16], 1).unwrap();
    assert_eq!(ambient.data, long[..16].to_vec());
    assert_eq!(ambient.write(), long[..16].to_vec());
    assert_eq!(NuccChunkAmbient::read(&long[..15], 1), Err(DecodeError::Truncated));
    assert_eq!(NuccChunkAmbient::read(&long, 1).unwrap().data.len(), 16);

    let dirc = NuccChunkLightDirc::read(&long[..64], 2).unwrap();
    assert_eq!(dirc.write(), long[..64].to_vec());
    assert_eq!(NuccChunkLightDirc::read(&long[..63], 2), Err(DecodeError::Truncated));

    let point = NuccChunkLightPoint::read(&long[..64], 3).unwrap();
    assert_eq!(point.write(), long[..64].to_vec());
    assert_eq!(NuccChunkLightPoint::read(&long[..63], 3), Err(DecodeError::Truncated));

    let layers = NuccChunkLayerSet::read(&long[..466], 4).unwrap();
    assert_eq!(layers.version, 4);
    assert_eq!(layers.write(), long[..466].to_vec());
    assert_eq!(NuccChunkLayerSet::read(&long[..465], 4), Err(DecodeError::Truncated));
}

#[test]
fn fixed_blocks_and_unknown_tags_are_written_back_byte_for_byte_by_the_registry() {
    let long: Vec<u8> = (0..500u32).map(|i| (i * 7 % 256) as u8).collect();
    let cases: [(&[u8], usize); 5] = [
        (b"nuccChunkAmbient", 16),
        (b"nuccChunkLightDirc", 64),
        (b"nuccChunkLightPoint", 64),
        (b"nuccChunkLayerSet", 466),
        (b"nuccChunkModel", 333),
    ];
    for (tag, size) in cases {
        let chunk = NuccChunkType::read_data(&long[..size], tag, 9).unwrap();
        assert_eq!(chunk.version(), 9);
        assert_eq!(NuccChunkType::write_data(&chunk).unwrap(), long[..size].to_vec());
    }
}

#[test]
fn morph_model_block_is_eight_times_the_count_and_eight() {
    let mut bytes = vec![0, 2, 0xEE, 0xEE];
    bytes.extend((0..24u8).collect::<Vec<u8>>());
    let chunk = NuccChunkMorphModel::read(&bytes, 7).unwrap();
    assert_eq!(chunk.count(), Ok(2));
    assert_eq!(chunk.data, (0..24u8).collect::<Vec<u8>>());
    // The reserved bytes are written as zeros.
    let mut expect = vec![0, 2, 0, 0];
    expect.extend((0..24u8).collect::<Vec<u8>>());
    assert_eq!(chunk.write(), Ok(expect.clone()));
    assert_eq!(NuccChunkMorphModel::read(&expect, 7), Ok(chunk));
    assert_eq!(NuccChunkMorphModel::read(&bytes[..27], 7), Err(DecodeError::Truncated));
    assert_eq!(NuccChunkMorphModel::read(&bytes[..3], 7), Err(DecodeError::Truncated));
    let empty = NuccChunkMorphModel::read(&[0, 0, 0, 0, 1, 2, 3, 4, 5, 6, 7, 8], 7).unwrap();
    assert_eq!(empty.data.len(), 8);
}

#[test]
fn morph_model_count_is_computed_from_the_block() {
    for k in [0usize, 1, 2, 255, 256, 8190, 0xFFFF] {
        let data = vec![0xABu8; 8 * k + 8];
        let chunk = NuccChunkMorphModel { version: 1, data: data.clone() };
        assert_eq!(chunk.count(), Ok(k as u16));
        let mut expect = vec![(k / 256) as u8, (k % 256) as u8, 0, 0];
        expect.extend_from_slice(&data);
        assert_eq!(chunk.write(), Ok(expect.clone()));
        assert_eq!(NuccChunkType::write_data(&NuccChunk::MorphModel(chunk.clone())), Ok(expect.clone()));
        assert_eq!(NuccChunkMorphModel::read(&expect, 1), Ok(chunk));
    }
    for len in [0usize, 1, 7, 9, 15, 17, 23] {
        let chunk = NuccChunkMorphModel { version: 1, data: vec![0; len] };
        assert_eq!(chunk.write(), Err(EncodeError::BlockLengthMismatch));
        assert_eq!(chunk.count(), Err(EncodeError::BlockLengthMismatch));
    }
    let long = NuccChunkMorphModel { version: 1, data: vec![0; 8 * 0x1_0000 + 8] };
    assert_eq!(long.write(), Err(EncodeError::TooLarge));
}

#[test]
fn camera_is_four_reserved_bytes_and_the_field_of_view() {
    let fov = 45.0f32;
    let chunk = NuccChunkCamera { version: 121, fov: fov.to_bits() };
    let bytes = chunk.write();
    assert_eq!(bytes, vec![0, 0, 0, 0, 0x42, 0x34, 0, 0]);
    assert_eq!(NuccChunkCamera::read(&bytes, 121), Ok(chunk));
    assert_eq!(f32::from_bits(NuccChunkCamera::read(&[9, 9, 9, 9, 0x42, 0x34, 0, 0], 1).unwrap().fov), fov);
    assert_eq!(NuccChunkCamera::read(&bytes[..7], 121), Err(DecodeError::Truncated));
}

#[test]
fn page_chunk_is_two_counts() {
    let chunk = NuccChunkPage { version: 121, map_index_count: 4, reference_count: 0x01020304 };
    let bytes = chunk.write();
    assert_eq!(bytes, vec![0, 0, 0, 4, 1, 2, 3, 4]);
    assert_eq!(NuccChunkPage::read(&bytes, 121), Ok(chunk));
    assert_eq!(NuccChunkPage::read(&bytes[..7], 121), Err(DecodeError::Truncated));
}

#[test]
fn null_chunk_payload_is_the_version() {
    let chunk = NuccChunkNull(0x1234);
    assert_eq!(chunk.write(), vec![0x12, 0x34]);
    assert_eq!(NuccChunkNull::read(&[0x12, 0x34], 99), chunk);
    // A payload without a version falls back on the frame's version.
    assert_eq!(NuccChunkNull::read(&[], 99), NuccChunkNull(99));
    assert_eq!(NuccChunkNull::read(&[1], 99), NuccChunkNull(99));
}

#[test]
fn marker_identities() {
    let null = NuccChunkNull::default_chunk_info();
    assert_eq!(null.chunk_name, b"".to_vec());
    assert_eq!(null.chunk_type, b"nuccChunkNull".to_vec());
    assert_eq!(null.filepath, b"".to_vec());
    let page = NuccChunkPage::default_chunk_info();
    assert_eq!(page.chunk_name, b"Page0".to_vec());
    assert_eq!(page.chunk_type, b"nuccChunkPage".to_vec());
    assert_eq!(page.filepath, b"".to_vec());
    let index = NuccChunkIndex::default_chunk_info();
    assert_eq!(index.chunk_name, b"index".to_vec());
    assert_eq!(index.chunk_type, b"nuccChunkIndex".to_vec());
    assert_eq!(index.filepath, b"".to_vec());
}

#[test]
fn unknown_chunk_keeps_tag_and_bytes() {
    let chunk = NuccChunkUnknown::read(&[1, 2, 3], b"nuccChunkModel", 8);
    assert_eq!(
        chunk,
        NuccChunkUnknown { version: 8, chunk_type: b"nuccChunkModel".to_vec(), data: vec![1, 2, 3] }
    );
    assert_eq!(chunk.write(), vec![1, 2, 3]);
    assert_eq!(NuccChunkUnknown::read(&[], b"x", 8).write(), Vec::<u8>::new());
}

fn sample_anm() -> NuccChunkAnm {
    NuccChunkAnm {
        version: 121,
        frame_count: 300,
        is_looped: 1,
        clumps: vec![AnmClump {
            clump_index: 2,
            bone_material_indices: vec![10, 11],
            model_indices: vec![12],
        }],
        other_entries_indices: vec![20],
        unk_entry_indices: vec![30, 31],
        coord_parents: vec![CoordParent {
            parent: AnmCoord { clump_index: 0, coord_index: 1 },
            child: AnmCoord { clump_index: -1, coord_index: 2 },
        }],
        entries: vec![
            AnmEntry {
                coord: AnmCoord { clump_index: 0, coord_index: 5 },
                entry_format: EntryFormat::Coord,
                track_headers: vec![
                    TrackHeader {
                        track_index: 0,
                        key_format: NuccAnmKeyFormat::ColorRGBTable,
                        frame_count: 1,
                    },
                    TrackHeader {
                        track_index: 1,
                        key_format: NuccAnmKeyFormat::OpacityShortTable,
                        frame_count: 1,
                    },
                ],
                tracks: vec![
                    AnmTrack { keys: vec![NuccAnmKey::Color { values: (1, 2, 3) }] },
                    AnmTrack { keys: vec![NuccAnmKey::I16Vec { values: 4 }] },
                ],
            },
            AnmEntry {
                coord: AnmCoord { clump_index: 1, coord_index: 6 },
                entry_format: EntryFormat::Unknown,
                track_headers: vec![],
                tracks: vec![],
            },
        ],
    }
}

#[test]
fn animation_chunk_bytes() {
    let chunk = sample_anm();
    let bytes = chunk.write().unwrap();
    let expect: Vec<u8> = vec![
        0, 0, 1, 44, // frame count
        0, 0, 0, 100, // frame size
        0, 2, // entries
        0, 1, // looped
        0, 1, // clumps
        0, 1, // other entries
        0, 2, // unknown entries
        0, 1, // coordinate parents
        0, 0, 0, 2, 0, 2, 0, 1, 0, 0, 0, 10, 0, 0, 0, 11, 0, 0, 0, 12, // clump
        0, 0, 0, 20, // other
        0, 0, 0, 30, 0, 0, 0, 31, // unknown
        0, 0, 0, 1, 0xFF, 0xFF, 0, 2, // parent and child
        0, 0, 0, 5, 0, 1, 0, 2, // entry: coordinate, format, track count
        0, 0, 0, 0x14, 0, 1, 0, 3, // header 0
        0, 1, 0, 0x0F, 0, 1, 0, 2, // header 1
        1, 2, 3, // colour key
        0, 4, // opacity key
        0, 0, 0, // padding to a multiple of four
        0, 1, 0, 6, 0, 10, 0, 0, // second entry, no tracks
    ];
    assert_eq!(bytes, expect);
    assert_eq!(bytes.len() % 4, 0);
    assert_eq!(NuccChunkAnm::read(&bytes, 121), Ok(chunk));
}

#[test]
fn animation_chunk_errors() {
    let bytes = sample_anm().write().unwrap();
    for cut in 0..bytes.len() {
        assert_eq!(NuccChunkAnm::read(&bytes[..cut], 121), Err(DecodeError::Truncated), "cut {}", cut);
    }
    // An unsupported key format in a header fails when its track is read.
    let mut bad = bytes.clone();
    bad[71] = 0x07;
    assert_eq!(NuccChunkAnm::read(&bad, 121), Err(DecodeError::UnsupportedKeyFormat));

    let mut chunk = sample_anm();
    chunk.entries[0].tracks.pop();
    assert_eq!(chunk.write(), Err(EncodeError::TrackCountMismatch));
    let mut chunk = sample_anm();
    chunk.entries[0].tracks[1].keys.clear();
    assert_eq!(chunk.write(), Err(EncodeError::FrameCountMismatch));
    let mut chunk = sample_anm();
    chunk.entries[0].tracks[0].keys[0] = NuccAnmKey::Float { values: 0 };
    assert_eq!(chunk.write(), Err(EncodeError::KeyShapeMismatch));
    let mut chunk = sample_anm();
    chunk.entries[0].track_headers[1].key_format = NuccAnmKeyFormat::Vector2Fixed;
    assert_eq!(chunk.write(), Err(EncodeError::UnsupportedKeyFormat));
    let mut chunk = sample_anm();
    chunk.clumps[0].model_indices = vec![0; 0x1_0000];
    assert_eq!(chunk.write(), Err(EncodeError::TooLarge));
    let mut chunk = sample_anm();
    chunk.other_entries_indices = vec![0; 0x1_0000];
    assert_eq!(chunk.write(), Err(EncodeError::TooLarge));
    let mut chunk = sample_anm();
    chunk.other_entries_indices = vec![0; 0xFFFF];
    assert!(chunk.write().is_ok());
}

#[test]
fn entry_formats() {
    let codes = [
        (EntryFormat::Coord, 1u16),
        (EntryFormat::Camera, 2),
        (EntryFormat::Material, 4),
        (EntryFormat::LightDirc, 5),
        (EntryFormat::LightPoint, 6),
        (EntryFormat::Ambient, 8),
        (EntryFormat::MorphModel, 9),
        (EntryFormat::Unknown, 10),
    ];
    for (format, code) in codes {
        assert_eq!(format.to_u16(), code);
        assert_eq!(EntryFormat::from_u16(code), format);
    }
    for code in [0u16, 3, 7, 11, 12, 500] {
        assert_eq!(EntryFormat::from_u16(code), EntryFormat::Unknown);
    }
    assert_eq!(EntryFormat::default(), EntryFormat::Unknown);
}

fn sample_stream() -> NuccChunkAnmStrm {
    NuccChunkAnmStrm {
        version: 99,
        frame_count: 2,
        is_looped: 0,
        unk_entry_count: 0,
        clumps: vec![AnmStrmClump {
            clump_index: 1,
            bone_material_indices: vec![5],
            model_indices: vec![6, 7],
        }],
        other_entry_indices: vec![8],
        coord_parents: vec![],
        entries: vec![AnmStrmFrameInfo { unknown: 1, frame_offset: 2, frame_number: 3 }],
    }
}

#[test]
fn animation_stream_chunk_bytes() {
    let chunk = sample_stream();
    let bytes = chunk.write().unwrap();
    let expect: Vec<u8> = vec![
        0, 0, 0, 2, 0, 0, 0, 100, 0, 1, 0, 0, 0, 1, 0, 1, 0, 0, 0, 0, // head
        0, 0, 0, 1, 0, 1, 0, 2, 0, 0, 0, 5, 0, 0, 0, 6, 0, 0, 0, 7, // clump
        0, 0, 0, 0, 0, 0, 0, 0, // one reserved word for each model
        0, 0, 0, 8, // index list
        0, 1, 0, 2, 0, 0, 0, 3, // frame record
    ];
    assert_eq!(bytes, expect);
    assert_eq!(NuccChunkAnmStrm::read(&bytes, 99), Ok(chunk));
    for cut in 0..bytes.len() {
        assert_eq!(NuccChunkAnmStrm::read(&bytes[..cut], 99), Err(DecodeError::Truncated));
    }
}

#[test]
fn animation_stream_index_list_has_both_counts() {
    let mut bytes = sample_stream().write().unwrap();
    // Say one unknown entry more, and supply its index.
    bytes[17] = 1;
    let at = bytes.len() - 8;
    for b in [0, 0, 0, 9] {
        bytes.insert(at, b);
    }
    let chunk = NuccChunkAnmStrm::read(&bytes, 99).unwrap();
    assert_eq!(chunk.unk_entry_count, 1);
    assert_eq!(chunk.other_entry_indices.len(), 2);
    assert_eq!(chunk.other_entry_indices[0], 8);
    // Written again, the two counts are one and one, and the bytes are the same.
    assert_eq!(chunk.write(), Ok(bytes.clone()));
    assert_eq!(&bytes[14..18], &[0, 1, 0, 1]);
}

#[test]
fn animation_stream_counts_share_the_index_list() {
    let mut chunk = sample_stream();
    chunk.other_entry_indices = vec![1, 2, 3, 4, 5];
    for unk in 0u16..=5 {
        chunk.unk_entry_count = unk;
        let bytes = chunk.write().unwrap();
        assert_eq!(&bytes[14..18], &[0, (5 - unk) as u8, 0, unk as u8]);
        assert_eq!(NuccChunkAnmStrm::read(&bytes, 99), Ok(chunk.clone()));
    }
    chunk.unk_entry_count = 6;
    assert_eq!(chunk.write(), Err(EncodeError::EntryCountMismatch));
    assert_eq!(
        NuccChunkType::write_data(&NuccChunk::AnmStrm(chunk)),
        Err(EncodeError::EntryCountMismatch)
    );
}

fn v3(a: u32) -> Vector3 {
    Vector3 { x: a, y: a + 1, z: a + 2 }
}

fn v4(a: u32) -> Vector4 {
    Vector4 { x: a, y: a + 1, z: a + 2, w: a + 3 }
}

fn words(values: &[u32]) -> Vec<u8> {
    let mut out = vec![];
    for v in values {
        out.extend_from_slice(&v.to_be_bytes());
    }
    out
}

fn frame_entries() -> Vec<(u16, FrameEntry, Vec<u32>)> {
    let mut colors = [0u32; 16];
    for (i, c) in colors.iter_mut().enumerate() {
        *c = 100 + i as u32;
    }
    let mut material = vec![7u32];
    material.extend_from_slice(&colors);
    vec![
        (
            1,
            FrameEntry::Bone(AnmEntryBone {
                frame_count: 1,
                location: v3(10),
                rotation: v4(20),
                scale: v3(30),
                toggled: 40,
            }),
            vec![1, 10, 11, 12, 20, 21, 22, 23, 30, 31, 32, 40],
        ),
        (
            2,
            FrameEntry::Camera(AnmEntryCamera {
                frame_count: -1,
                location: v3(10),
                rotation: v4(20),
                fov: 40,
                scale: v3(30),
            }),
            vec![0xFFFF_FFFF, 10, 11, 12, 20, 21, 22, 23, 40, 30, 31, 32],
        ),
        (
            4,
            FrameEntry::Material(AnmEntryMaterial { frame_count: 7, ambient_color: colors }),
            material,
        ),
        (
            5,
            FrameEntry::LightDirc(AnmEntryLightDirc {
                frame_count: 2,
                color: v3(1),
                intensity: 9,
                direction: v4(50),
            }),
            vec![2, 1, 2, 3, 9, 50, 51, 52, 53],
        ),
        (
            6,
            FrameEntry::LightPoint(AnmEntryLightPoint {
                frame_count: 3,
                color: v3(1),
                position: v3(4),
                intensity: 7,
                radius: 8,
                falloff: 9,
            }),
            vec![3, 1, 2, 3, 4, 5, 6, 7, 8, 9],
        ),
        (
            8,
            FrameEntry::Ambient(AnmEntryAmbient { frame_count: 4, color: v3(1), intensity: 5 }),
            vec![4, 1, 2, 3, 5],
        ),
        (
            12,
            FrameEntry::MorphModel(AnmEntryMorphModel { frame_count: 3, morph_weight: vec![6, 7, 8] }),
            vec![3, 6, 7, 8],
        ),
    ]
}

#[test]
fn stream_frame_entries_are_runs_of_words() {
    for (format, payload, expect) in frame_entries() {
        let chunk = NuccChunkAnmStrmFrame {
            version: 5,
            frame_number: 0x0A0B0C0D,
            unknown: 0x0102,
            entries: vec![AnmStrmEntry {
                coord: AnmCoord { clump_index: -2, coord_index: 3 },
                entry_format: format,
                entry_size: 0x0708,
                entry_data: payload,
            }],
        };
        let bytes = chunk.write().unwrap();
        let mut want = vec![0x0A, 0x0B, 0x0C, 0x0D, 0, 1, 1, 2, 0xFF, 0xFE, 0, 3];
        want.extend_from_slice(&format.to_be_bytes());
        want.extend_from_slice(&[7, 8]);
        want.extend(words(&expect));
        assert_eq!(bytes, want);
        assert_eq!(NuccChunkAnmStrmFrame::read(&bytes, 5), Ok(chunk));
        for cut in 0..bytes.len() {
            assert_eq!(NuccChunkAnmStrmFrame::read(&bytes[..cut], 5), Err(DecodeError::Truncated));
        }
    }
}

#[test]
fn stream_frame_errors() {
    let head = vec![0, 0, 0, 1, 0, 1, 0, 0, 0, 0, 0, 0];
    for format in [0u16, 3, 7, 9, 10, 11, 13] {
        let mut bytes = head.clone();
        bytes.extend_from_slice(&format.to_be_bytes());
        bytes.extend_from_slice(&[0, 0]);
        bytes.extend(vec![0u8; 80]);
        assert_eq!(
            NuccChunkAnmStrmFrame::read(&bytes, 1),
            Err(DecodeError::UnsupportedEntryFormat)
        );
    }
    let mut bytes = head.clone();
    bytes.extend_from_slice(&[0, 12, 0, 0, 0xFF, 0xFF, 0xFF, 0xFF]);
    assert_eq!(NuccChunkAnmStrmFrame::read(&bytes, 1), Err(DecodeError::NegativeCount));

    let entry = |format: u16, data: FrameEntry| NuccChunkAnmStrmFrame {
        version: 1,
        frame_number: 0,
        unknown: 0,
        entries: vec![AnmStrmEntry {
            coord: AnmCoord { clump_index: 0, coord_index: 0 },
            entry_format: format,
            entry_size: 0,
            entry_data: data,
        }],
    };
    let ambient = FrameEntry::Ambient(AnmEntryAmbient { frame_count: 0, color: v3(0), intensity: 0 });
    assert_eq!(entry(1, ambient.clone()).write(), Err(EncodeError::EntryFormatMismatch));
    assert_eq!(entry(8, FrameEntry::Unknown).write(), Err(EncodeError::EntryFormatMismatch));
    assert!(entry(8, ambient).write().is_ok());
    let morph = |count: i32, n: usize| {
        FrameEntry::MorphModel(AnmEntryMorphModel { frame_count: count, morph_weight: vec![0; n] })
    };
    assert_eq!(entry(12, morph(2, 3)).write(), Err(EncodeError::FrameCountMismatch));
    assert_eq!(entry(12, morph(-1, 0)).write(), Err(EncodeError::FrameCountMismatch));
    assert!(entry(12, morph(0, 0)).write().is_ok());
}

#[test]
fn decoding_inverts_encoding_for_every_kind_but_the_fixed_blocks() {
    let chunks = vec![
        NuccChunk::Null(NuccChunkNull(121)),
        NuccChunk::Page(NuccChunkPage { version: 121, map_index_count: 1, reference_count: 2 }),
        NuccChunk::Binary(NuccChunkBinary { version: 121, data: vec![5; 40] }),
        NuccChunk::Anm(sample_anm()),
        NuccChunk::AnmStrm(sample_stream()),
        NuccChunk::Camera(NuccChunkCamera { version: 121, fov: 1 }),
        NuccChunk::MorphModel(NuccChunkMorphModel { version: 121, data: vec![3; 16] }),
        NuccChunk::Unknown(NuccChunkUnknown {
            version: 121,
            chunk_type: b"nuccChunkClump".to_vec(),
            data: vec![1, 2],
        }),
    ];
    for chunk in chunks {
        let tag = match &chunk {
            NuccChunk::Unknown(u) => u.chunk_type.clone(),
            other => other.chunk_type().to_tag(),
        };
        let bytes = NuccChunkType::write_data(&chunk).unwrap();
        assert_eq!(NuccChunkType::read_data(&bytes, &tag, chunk.version()), Ok(chunk));
    }
    assert_eq!(
        NuccChunkType::read_data(&[], b"nuccChunkIndex", 3),
        Ok(NuccChunk::Index(NuccChunkIndex))
    );
    assert_eq!(NuccChunkType::write_data(&NuccChunk::Index(NuccChunkIndex)), Ok(vec![]));
}

#[test]
fn helper_values() {
    let mut out = vec![];
    Vector3Short { x: 1, y: -1, z: 256 }.put(&mut out);
    VectorShort { x: -256 }.put(&mut out);
    QuaternionShort { x: 1, y: 2, z: 3, w: -4 }.put(&mut out);
    RGB { r: 9, g: 8, b: 7 }.put(&mut out);
    assert_eq!(
        out,
        vec![0, 1, 0xFF, 0xFF, 1, 0, 0xFF, 0, 0, 1, 0, 2, 0, 3, 0xFF, 0xFC, 9, 8, 7]
    );
    assert_eq!(Vector3Short::read(&out, 0), Some(Vector3Short { x: 1, y: -1, z: 256 }));
    assert_eq!(VectorShort::read(&out, 6), Some(VectorShort { x: -256 }));
    assert_eq!(QuaternionShort::read(&out, 8), Some(QuaternionShort { x: 1, y: 2, z: 3, w: -4 }));
    assert_eq!(RGB::read(&out, 16), Some(RGB { r: 9, g: 8, b: 7 }));
    assert_eq!(RGB::read(&out, 17), None);
    assert_eq!(QuaternionShort::read(&out, 12), None);
    assert_eq!(Vector3Short::read(&out, 14), None);
    assert_eq!(VectorShort::read(&out, 18), None);
}
