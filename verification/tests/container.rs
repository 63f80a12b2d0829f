use xfbin_lib::xfbin_file::{
    read_string, read_strings, XfbinChunk, XfbinChunkMap, XfbinChunkReference, XfbinHeader,
    XfbinIndex,
};
use xfbin_lib::{DecodeError, EncodeError, XfbinFile};

fn small_file() -> XfbinFile {
    XfbinFile {
        header: XfbinHeader { version: 121, encrypted: 0 },
        index: XfbinIndex {
            min_page_size: 1,
            version: 121,
            chunk_types: vec![b"a".to_vec()],
            filepaths: vec![b"".to_vec()],
            chunk_names: vec![b"bc".to_vec()],
            chunk_maps: vec![XfbinChunkMap {
                chunk_type_index: 0,
                filepath_index: 0,
                chunk_name_index: 0,
            }],
            chunk_references: vec![XfbinChunkReference { chunk_name_index: 0, chunk_map_index: 0 }],
            chunk_map_indices: vec![0],
        },
        chunks: vec![XfbinChunk { chunk_map_index: 0, version: 121, data: vec![1, 2, 3] }],
    }
}

fn small_bytes() -> Vec<u8> {
    vec![
        0x4E, 0x55, 0x43, 0x43, 0, 0, 0, 121, 0, 0, 0, 0, 0, 0, 0, 0, // header
        0, 0, 0, 64, // table size: 40 + 6 + 2 + 12 + 4
        0, 0, 0, 1, // smallest page size
        0, 121, 0, 0, // version, reserved
        0, 0, 0, 1, 0, 0, 0, 2, // kind tags: count, size
        0, 0, 0, 1, 0, 0, 0, 1, // paths: count, size
        0, 0, 0, 1, 0, 0, 0, 3, // names: count, size
        0, 0, 0, 1, 0, 0, 0, 12, // identities: count, size
        0, 0, 0, 1, // slots
        0, 0, 0, 1, // references
        0x61, 0, 0, 0x62, 0x63, 0, // strings
        0, 0, // padding
        0, 0, 0, 0, 0, 0, 0, 0, 0, 0, 0, 0, // identity row
        0, 0, 0, 0, 0, 0, 0, 0, // reference row
        0, 0, 0, 0, // slot
        0, 0, 0, 3, 0, 0, 0, 0, 0, 121, 0, 0, 1, 2, 3, // chunk frame
    ]
}

#[test]
fn a_small_container_has_these_bytes() {
    assert_eq!(small_file().write().unwrap(), small_bytes());
    assert_eq!(XfbinFile::read(&small_bytes()), Ok(small_file()));
}

#[test]
fn a_container_cut_anywhere_is_truncated() {
    let bytes = small_bytes();
    for cut in 0..bytes.len() {
        // Cut right after the index, the container is whole and has no chunk.
        if cut == bytes.len() - 15 {
            let mut without = small_file();
            without.chunks.clear();
            assert_eq!(XfbinFile::read(&bytes[..cut]), Ok(without));
        } else {
            assert_eq!(XfbinFile::read(&bytes[..cut]), Err(DecodeError::Truncated), "cut {}", cut);
        }
    }
}

#[test]
fn a_wrong_magic_tag_is_refused() {
    for at in 0..4 {
        let mut bytes = small_bytes();
        bytes[at] ^= 0x20;
        assert_eq!(XfbinFile::read(&bytes), Err(DecodeError::BadMagic));
    }
    assert_eq!(XfbinFile::read(b"NUCX"), Err(DecodeError::BadMagic));
    assert_eq!(XfbinFile::read(b"NUCC"), Err(DecodeError::Truncated));
    assert_eq!(XfbinFile::read(b"NUC"), Err(DecodeError::Truncated));
    assert_eq!(XfbinHeader::read(&small_bytes()), Ok(XfbinHeader { version: 121, encrypted: 0 }));
}

#[test]
fn size_fields_are_not_trusted_when_reading() {
    let mut bytes = small_bytes();
    for at in [16usize, 17, 18, 19, 32, 33, 34, 35, 40, 43, 48, 51, 56, 59] {
        bytes[at] = 0xEE;
    }
    // Reserved bytes are skipped too.
    for at in [10usize, 11, 12, 13, 14, 15, 26, 27, 74, 75, 110, 111] {
        bytes[at] = 0xDD;
    }
    assert_eq!(XfbinFile::read(&bytes), Ok(small_file()));
    assert_eq!(XfbinFile::read(&bytes).unwrap().write().unwrap(), small_bytes());
}

#[test]
fn chunks_are_read_back_to_back_to_the_end() {
    let mut file = small_file();
    file.chunks.push(XfbinChunk { chunk_map_index: 7, version: 1, data: vec![] });
    file.chunks.push(XfbinChunk { chunk_map_index: 0xFFFF_FFFF, version: 0xFFFF, data: vec![9; 300] });
    let bytes = file.write().unwrap();
    assert_eq!(bytes.len(), small_bytes().len() + 12 + 312);
    assert_eq!(XfbinFile::read(&bytes), Ok(file));
    let mut longer = bytes.clone();
    longer.push(0);
    assert_eq!(XfbinFile::read(&longer), Err(DecodeError::Truncated));
}

#[test]
fn table_size_counts_four_bytes_more_when_the_strings_are_aligned() {
    let mut index = XfbinIndex::default();
    assert_eq!(index.get_chunk_table_size(), Some(0x28 + 4));
    index.chunk_types = vec![b"abc".to_vec()];
    assert_eq!(index.get_chunk_table_size(), Some(0x28 + 4 + 4));
    index.filepaths = vec![b"".to_vec()];
    assert_eq!(index.get_chunk_table_size(), Some(0x28 + 5 + 3));
    index.chunk_names = vec![b"x".to_vec(), b"".to_vec()];
    assert_eq!(index.get_chunk_table_size(), Some(0x28 + 8 + 4));
    index.chunk_maps = vec![XfbinChunkMap::default(); 3];
    index.chunk_map_indices = vec![0; 5];
    index.chunk_references = vec![XfbinChunkReference::default(); 100];
    assert_eq!(index.get_chunk_table_size(), Some(0x28 + 8 + 4 + 36 + 20));
}

#[test]
fn the_tables_start_at_a_multiple_of_four() {
    for len in 0..9usize {
        let mut file = small_file();
        file.index.chunk_names = vec![vec![b'n'; len]];
        let bytes = file.write().unwrap();
        let strings = 2 + 1 + len + 1;
        let pad = (4 - strings % 4) % 4;
        assert_eq!(bytes.len(), 68 + strings + pad + 12 + 8 + 4 + 15);
        assert_eq!((68 + strings + pad) % 4, 0);
        assert_eq!(XfbinFile::read(&bytes), Ok(file));
    }
}

#[test]
fn a_name_with_a_nul_byte_is_refused() {
    let mut file = small_file();
    file.index.chunk_names = vec![b"b\0c".to_vec()];
    assert_eq!(file.write(), Err(EncodeError::NulInName));
    let mut file = small_file();
    file.index.filepaths.push(vec![0]);
    assert_eq!(file.write(), Err(EncodeError::NulInName));
    assert_eq!(file.index.check(), Err(EncodeError::NulInName));
    let mut file = small_file();
    file.index.chunk_types[0] = vec![1, 2, 0];
    assert_eq!(file.write(), Err(EncodeError::NulInName));
}

#[test]
fn strings_end_at_their_nul() {
    let data = b"ab\0\0cd\0tail";
    assert_eq!(read_string(data, 0), Some((b"ab".to_vec(), 3)));
    assert_eq!(read_string(data, 1), Some((b"b".to_vec(), 3)));
    assert_eq!(read_string(data, 2), Some((vec![], 3)));
    assert_eq!(read_string(data, 3), Some((vec![], 4)));
    assert_eq!(read_string(data, 4), Some((b"cd".to_vec(), 7)));
    assert_eq!(read_string(data, 7), None);
    assert_eq!(read_string(data, data.len()), None);
    assert_eq!(
        read_strings(data, 0, 3),
        Some((vec![b"ab".to_vec(), vec![], b"cd".to_vec()], 7))
    );
    assert_eq!(read_strings(data, 0, 4), None);
    assert_eq!(read_strings(data, 7, 0), Some((vec![], 7)));
}

#[test]
fn a_frame_is_unpacked_by_tag_and_repacked_with_its_own_version() {
    let frame = XfbinChunk { chunk_map_index: 3, version: 77, data: vec![0, 0, 0, 2, 8, 9] };
    let chunk = frame.unpack(b"nuccChunkBinary").unwrap();
    assert_eq!(chunk.version(), 77);
    let again = XfbinChunk::repack(&chunk).unwrap();
    assert_eq!(again, XfbinChunk { chunk_map_index: 0, version: 77, data: vec![0, 0, 0, 2, 8, 9] });
    assert_eq!(frame.unpack(b"nuccChunkCamera"), Err(DecodeError::Truncated));
    let kept = frame.unpack(b"nuccChunkSomething").unwrap();
    assert_eq!(XfbinChunk::repack(&kept).unwrap().data, frame.data);
}
