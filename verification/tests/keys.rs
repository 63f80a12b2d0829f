use xfbin_lib::nucc_chunk::anm_key::{
    check_track, put_keys, put_track_header, read_key, read_track_data, read_track_header,
    write_fcurve_data,
};
use xfbin_lib::{DecodeError, EncodeError, KeyShape, NuccAnmKey, NuccAnmKeyFormat, TrackHeader};

const ALL_FORMATS: [(NuccAnmKeyFormat, u16, usize); 23] = [
    (NuccAnmKeyFormat::Vector3Fixed, 0x05, 12),
    (NuccAnmKeyFormat::Vector3Linear, 0x06, 16),
    (NuccAnmKeyFormat::Vector3Bezier, 0x07, 16),
    (NuccAnmKeyFormat::EulerXYZFixed, 0x08, 12),
    (NuccAnmKeyFormat::EulerInterpolated, 0x09, 12),
    (NuccAnmKeyFormat::QuaternionLinear, 0x0A, 20),
    (NuccAnmKeyFormat::FloatFixed, 0x0B, 4),
    (NuccAnmKeyFormat::FloatLinear, 0x0C, 8),
    (NuccAnmKeyFormat::Vector2Fixed, 0x0D, 8),
    (NuccAnmKeyFormat::Vector2Linear, 0x0E, 12),
    (NuccAnmKeyFormat::OpacityShortTable, 0x0F, 2),
    (NuccAnmKeyFormat::ScaleShortTable, 0x10, 6),
    (NuccAnmKeyFormat::QuaternionShortTable, 0x11, 8),
    (NuccAnmKeyFormat::ColorRGBTable, 0x14, 3),
    (NuccAnmKeyFormat::Vector3Table, 0x15, 12),
    (NuccAnmKeyFormat::FloatTable, 0x16, 4),
    (NuccAnmKeyFormat::QuaternionTable, 0x17, 16),
    (NuccAnmKeyFormat::FloatTableNoInterp, 0x18, 4),
    (NuccAnmKeyFormat::Vector3ShortLinear, 0x19, 12),
    (NuccAnmKeyFormat::Vector3TableNoInterp, 0x1A, 12),
    (NuccAnmKeyFormat::QuaternionShortTableNoInterp, 0x1B, 8),
    (NuccAnmKeyFormat::OpacityShortTableNoInterp, 0x1D, 2),
    (NuccAnmKeyFormat::Unknown, 0x1E, 12),
];

#[test]
fn every_format_has_its_code_and_width() {
    for (format, code, width) in ALL_FORMATS {
        assert_eq!(format.to_u16(), code);
        assert_eq!(NuccAnmKeyFormat::from_u16(code), format);
        assert_eq!(format.size_per_frame(), width);
    }
}

#[test]
fn a_code_that_names_no_format_is_unknown() {
    for code in [0u16, 1, 4, 0x12, 0x13, 0x1C, 0x1F, 0xFFFF] {
        assert_eq!(NuccAnmKeyFormat::from_u16(code), NuccAnmKeyFormat::Unknown);
    }
    assert_eq!(NuccAnmKeyFormat::default(), NuccAnmKeyFormat::Unknown);
    assert_eq!(NuccAnmKey::default(), NuccAnmKey::Unknown {});
}

#[test]
fn supported_formats_have_the_shape_of_the_table() {
    let expect = [
        (NuccAnmKeyFormat::Vector3Fixed, KeyShape::Vec3),
        (NuccAnmKeyFormat::EulerXYZFixed, KeyShape::Vec3),
        (NuccAnmKeyFormat::Vector3Table, KeyShape::Vec3),
        (NuccAnmKeyFormat::Vector3TableNoInterp, KeyShape::Vec3),
        (NuccAnmKeyFormat::Vector3Linear, KeyShape::Vec3Linear),
        (NuccAnmKeyFormat::QuaternionLinear, KeyShape::Vec4Linear),
        (NuccAnmKeyFormat::FloatFixed, KeyShape::Float),
        (NuccAnmKeyFormat::FloatTable, KeyShape::Float),
        (NuccAnmKeyFormat::FloatTableNoInterp, KeyShape::Float),
        (NuccAnmKeyFormat::FloatLinear, KeyShape::FloatLinear),
        (NuccAnmKeyFormat::OpacityShortTable, KeyShape::I16Vec),
        (NuccAnmKeyFormat::OpacityShortTableNoInterp, KeyShape::I16Vec),
        (NuccAnmKeyFormat::ScaleShortTable, KeyShape::I16Vec3),
        (NuccAnmKeyFormat::QuaternionShortTable, KeyShape::ShortVec4),
        (NuccAnmKeyFormat::QuaternionShortTableNoInterp, KeyShape::ShortVec4),
        (NuccAnmKeyFormat::ColorRGBTable, KeyShape::Color),
    ];
    for (format, shape) in expect {
        assert_eq!(format.key_shape(), Some(shape));
        assert_eq!(format.size_per_frame(), shape.byte_size());
    }
}

fn samples() -> Vec<(NuccAnmKeyFormat, NuccAnmKey, Vec<u8>)> {
    let one = 1.0f32.to_bits();
    let half = 0.5f32.to_bits();
    let minus_two = (-2.0f32).to_bits();
    vec![
        (
            NuccAnmKeyFormat::Vector3Fixed,
            NuccAnmKey::Vec3 { values: (one, half, minus_two) },
            vec![0x3F, 0x80, 0, 0, 0x3F, 0, 0, 0, 0xC0, 0, 0, 0],
        ),
        (
            NuccAnmKeyFormat::Vector3Linear,
            NuccAnmKey::Vec3Linear { frame: 100, values: (one, half, minus_two) },
            vec![0, 0, 0, 100, 0x3F, 0x80, 0, 0, 0x3F, 0, 0, 0, 0xC0, 0, 0, 0],
        ),
        (
            NuccAnmKeyFormat::QuaternionLinear,
            NuccAnmKey::Vec4Linear { frame: -1, values: (one, half, minus_two, 0) },
            vec![
                0xFF, 0xFF, 0xFF, 0xFF, 0x3F, 0x80, 0, 0, 0x3F, 0, 0, 0, 0xC0, 0, 0, 0, 0, 0, 0, 0,
            ],
        ),
        (NuccAnmKeyFormat::FloatTable, NuccAnmKey::Float { values: half }, vec![0x3F, 0, 0, 0]),
        (
            NuccAnmKeyFormat::FloatLinear,
            NuccAnmKey::FloatLinear { frame: i32::MIN, values: one },
            vec![0x80, 0, 0, 0, 0x3F, 0x80, 0, 0],
        ),
        (
            NuccAnmKeyFormat::OpacityShortTable,
            NuccAnmKey::I16Vec { values: -2 },
            vec![0xFF, 0xFE],
        ),
        (
            NuccAnmKeyFormat::ScaleShortTable,
            NuccAnmKey::I16Vec3 { values: (1, -1, i16::MIN) },
            vec![0, 1, 0xFF, 0xFF, 0x80, 0],
        ),
        (
            NuccAnmKeyFormat::QuaternionShortTableNoInterp,
            NuccAnmKey::ShortVec4 { values: (0x1234, i16::MAX, 0, -32767) },
            vec![0x12, 0x34, 0x7F, 0xFF, 0, 0, 0x80, 0x01],
        ),
        (
            NuccAnmKeyFormat::ColorRGBTable,
            NuccAnmKey::Color { values: (1, 2, 255) },
            vec![1, 2, 255],
        ),
    ]
}

#[test]
fn every_key_shape_is_written_as_its_bytes_and_read_back() {
    for (format, key, bytes) in samples() {
        let mut out = vec![0xAAu8];
        assert_eq!(write_fcurve_data(format, key, &mut out), Ok(()));
        assert_eq!(out[0], 0xAA);
        assert_eq!(&out[1..], &bytes[..]);
        let shape = format.key_shape().unwrap();
        assert_eq!(read_key(shape, &out, 1), Some(key));
        assert_eq!(read_key(shape, &bytes, 1), None);
        assert_eq!(read_key(shape, &bytes, bytes.len()), None);
        assert_eq!(key.key_shape(), Some(shape));
    }
}

#[test]
fn a_key_of_another_shape_or_an_unsupported_format_is_not_written() {
    let mut out = vec![7u8];
    let float = NuccAnmKey::Float { values: 0 };
    assert_eq!(
        write_fcurve_data(NuccAnmKeyFormat::Vector3Fixed, float, &mut out),
        Err(EncodeError::KeyShapeMismatch)
    );
    assert_eq!(
        write_fcurve_data(NuccAnmKeyFormat::FloatFixed, NuccAnmKey::Unknown {}, &mut out),
        Err(EncodeError::KeyShapeMismatch)
    );
    assert_eq!(
        write_fcurve_data(NuccAnmKeyFormat::Vector3Bezier, float, &mut out),
        Err(EncodeError::UnsupportedKeyFormat)
    );
    assert_eq!(
        write_fcurve_data(NuccAnmKeyFormat::Unknown, NuccAnmKey::Unknown {}, &mut out),
        Err(EncodeError::UnsupportedKeyFormat)
    );
    assert_eq!(out, vec![7u8]);
}

#[test]
fn a_track_takes_exactly_width_times_frame_count_bytes() {
    for (format, _, width) in ALL_FORMATS {
        if format.key_shape().is_none() {
            continue;
        }
        for count in [0u16, 1, 2, 7] {
            let need = width * count as usize;
            let buf = vec![0x11u8; need + 5];
            let header = TrackHeader { track_index: 3, key_format: format, frame_count: count };
            let (keys, next) = read_track_data(&buf, 2, &header).unwrap();
            assert_eq!(keys.len(), count as usize);
            assert_eq!(next, 2 + need);
            // One byte short is an error, never a shorter track.
            if need > 0 {
                assert_eq!(
                    read_track_data(&buf[..need + 1], 2, &header),
                    Err(DecodeError::Truncated)
                );
            }
            let mut out = vec![];
            put_keys(&keys, &mut out);
            assert_eq!(&out[..], &buf[2..2 + need]);
        }
    }
}

#[test]
fn an_unsupported_format_fails_even_without_frames() {
    let header =
        TrackHeader { track_index: 0, key_format: NuccAnmKeyFormat::QuaternionTable, frame_count: 0 };
    assert_eq!(read_track_data(&[], 0, &header), Err(DecodeError::UnsupportedKeyFormat));
    assert_eq!(check_track(&header, &vec![]), Err(EncodeError::UnsupportedKeyFormat));
}

#[test]
fn a_track_is_checked_against_its_header() {
    let header =
        TrackHeader { track_index: 0, key_format: NuccAnmKeyFormat::FloatFixed, frame_count: 2 };
    let float = NuccAnmKey::Float { values: 1 };
    let color = NuccAnmKey::Color { values: (1, 2, 3) };
    assert_eq!(check_track(&header, &vec![float, float]), Ok(()));
    assert_eq!(check_track(&header, &vec![float]), Err(EncodeError::FrameCountMismatch));
    assert_eq!(check_track(&header, &vec![float, float, float]), Err(EncodeError::FrameCountMismatch));
    assert_eq!(check_track(&header, &vec![float, color]), Err(EncodeError::KeyShapeMismatch));
    assert_eq!(
        check_track(&header, &vec![NuccAnmKey::Unknown {}, float]),
        Err(EncodeError::KeyShapeMismatch)
    );
}

#[test]
fn a_track_header_is_eight_bytes_with_a_computed_size() {
    let header =
        TrackHeader { track_index: 0x0102, key_format: NuccAnmKeyFormat::QuaternionLinear, frame_count: 3 };
    let mut out = vec![];
    put_track_header(&header, &mut out);
    assert_eq!(out, vec![1, 2, 0, 0x0A, 0, 3, 0, 60]);
    assert_eq!(read_track_header(&out, 0), Some(header));
    assert_eq!(read_track_header(&out, 1), None);
    // The size field is not trusted when a header is read.
    let odd = vec![1, 2, 0, 0x0A, 0, 3, 0xFF, 0xFF];
    assert_eq!(read_track_header(&odd, 0), Some(header));
}

#[test]
fn the_size_field_keeps_the_low_sixteen_bits() {
    // 20 bytes for each of 4000 frames is 80000, which is 0x13880.
    let header = TrackHeader {
        track_index: 0,
        key_format: NuccAnmKeyFormat::QuaternionLinear,
        frame_count: 4000,
    };
    let mut out = vec![];
    put_track_header(&header, &mut out);
    assert_eq!(out, vec![0, 0, 0, 0x0A, 0x0F, 0xA0, 0x38, 0x80]);
}
