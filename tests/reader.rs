use jfifdump::{
    get_marker_string, read, App0Jfif, Dac, Frame, JfifError, JsonFormat, JsonNode, Reader, Rst,
    Segment, SegmentKind,
};

fn open(bytes: &[u8]) -> Reader {
    match Reader::new(bytes.to_vec()) {
        Ok(reader) => reader,
        Err(e) => panic!("stream refused: {:?}", e),
    }
}

fn next(reader: &mut Reader) -> Segment {
    match reader.next_segment() {
        Ok(segment) => segment,
        Err(e) => panic!("segment refused: {:?}", e),
    }
}

fn error_of(bytes: &[u8]) -> JfifError {
    let mut reader = open(bytes);
    loop {
        match reader.next_segment() {
            Ok(_) => {}
            Err(e) => return e,
        }
    }
}

fn dqt_segment() -> Vec<u8> {
    let mut s = vec![0xFF, 0xDB, 0x00, 0x43, 0x00];
    s.extend((1..=64).map(|v| v as u8));
    s
}

fn frame_segment() -> Vec<u8> {
    vec![
        0xFF, 0xC0, 0x00, 0x11, 0x08, 0x00, 0x20, 0x00, 0x30, 0x03, 0x01, 0x22, 0x00, 0x02, 0x11,
        0x01, 0x03, 0x11, 0x01,
    ]
}

fn scan_header() -> Vec<u8> {
    vec![
        0xFF, 0xDA, 0x00, 0x0C, 0x03, 0x01, 0x00, 0x02, 0x11, 0x03, 0x11, 0x00, 0x3F, 0x00,
    ]
}

#[test]
fn open_refuses_stream_without_soi() {
    for bytes in [vec![], vec![0xFF], vec![0xFF, 0xD9], vec![0xD8, 0xFF], vec![0x00, 0xFF, 0xD8]] {
        match Reader::new(bytes) {
            Err(e) => assert_eq!(e, JfifError::JfifMarkerNotFound),
            Ok(_) => panic!("stream without start of image was accepted"),
        }
    }
}

#[test]
fn open_accepts_soi_alone() {
    let reader = open(&[0xFF, 0xD8]);
    assert_eq!(reader.position(), 2);
}

#[test]
fn declared_length_of_two_or_less_is_refused() {
    for (marker, len) in [(0xFE, 0u8), (0xDB, 1), (0xC4, 2), (0xE0, 2), (0xC0, 0), (0xDA, 1)] {
        let bytes = [0xFF, 0xD8, 0xFF, marker, 0x00, len, 0x00, 0x00, 0x00];
        assert_eq!(error_of(&bytes), JfifError::InvalidMarkerLength(len as usize));
    }
}

#[test]
fn synthesized_stream_decodes_in_order() {
    let mut bytes = vec![0xFF, 0xD8];
    bytes.extend(dqt_segment());
    bytes.extend(frame_segment());
    bytes.extend(scan_header());
    bytes.extend([0x12, 0xFF, 0x00, 0x34, 0xFF, 0xD9]);
    let mut reader = open(&bytes);

    let dqt = next(&mut reader);
    assert_eq!(dqt.position, 4);
    assert_eq!(dqt.length, 65);
    let values: Vec<u8> = (1..=64).map(|v| v as u8).collect();
    match dqt.kind {
        SegmentKind::Dqt(tables) => {
            assert_eq!(tables.len(), 1);
            assert_eq!(tables[0].precision, 0);
            assert_eq!(tables[0].dest, 0);
            assert_eq!(tables[0].values.to_vec(), values);
        }
        other => panic!("expected quantization tables, got {:?}", other),
    }

    let frame = next(&mut reader);
    assert_eq!(frame.position, 73);
    assert_eq!(frame.length, 15);
    match &frame.kind {
        SegmentKind::Frame(f) => {
            assert_eq!(f.sof, 0xC0);
            assert_eq!(f.precision, 8);
            assert_eq!(f.dimension_y, 32);
            assert_eq!(f.dimension_x, 48);
            assert_eq!(f.components.len(), 3);
            assert_eq!(f.components[0].id, 1);
            assert_eq!(f.components[0].horizontal_sampling_factor, 2);
            assert_eq!(f.components[0].vertical_sampling_factor, 2);
            assert_eq!(f.components[0].quantization_table, 0);
            assert_eq!(f.components[2].id, 3);
            assert_eq!(f.components[2].horizontal_sampling_factor, 1);
            assert_eq!(f.components[2].quantization_table, 1);
            assert_eq!(f.get_sof_name(), "Baseline DCT");
        }
        other => panic!("expected a frame, got {:?}", other),
    }

    let scan = next(&mut reader);
    assert_eq!(scan.position, 92);
    assert_eq!(scan.length, 10);
    match &scan.kind {
        SegmentKind::Scan(s) => {
            assert_eq!(s.components.len(), 3);
            assert_eq!(s.components[1].id, 2);
            assert_eq!(s.components[1].dc_table, 1);
            assert_eq!(s.components[1].ac_table, 1);
            assert_eq!(s.selection_start, 0);
            assert_eq!(s.selection_end, 0x3F);
            assert_eq!(s.approximation_low, 0);
            assert_eq!(s.approximation_high, 0);
            assert_eq!(s.data, vec![0x12, 0xFF, 0x00, 0x34]);
        }
        other => panic!("expected a scan, got {:?}", other),
    }

    let eoi = next(&mut reader);
    assert_eq!(eoi.kind, SegmentKind::Eoi);
    assert_eq!(eoi.position, 110);
    assert_eq!(eoi.length, 0);
    assert!(dqt.position < frame.position);
    assert!(frame.position < scan.position);
    assert!(scan.position < eoi.position);
}

#[test]
fn stuffed_scan_data_then_pending_marker() {
    let bytes = [
        0xFF, 0xD8, 0xFF, 0xDA, 0x00, 0x08, 0x01, 0x01, 0x00, 0x00, 0x3F, 0x00, 0x01, 0xFF, 0x00,
        0x02, 0xFF, 0xD9,
    ];
    let mut reader = open(&bytes);
    match next(&mut reader).kind {
        SegmentKind::Scan(s) => assert_eq!(s.data, vec![0x01, 0xFF, 0x00, 0x02]),
        other => panic!("expected a scan, got {:?}", other),
    }
    let eoi = next(&mut reader);
    assert_eq!(eoi.kind, SegmentKind::Eoi);
    assert_eq!(eoi.position, 18);
}

#[test]
fn restart_marker_data_is_destuffed_the_same_way() {
    let bytes = [0xFF, 0xD8, 0xFF, 0xD3, 0x01, 0xFF, 0x00, 0x02, 0xFF, 0xD9];
    let mut reader = open(&bytes);
    let rst = next(&mut reader);
    assert_eq!(rst.position, 4);
    assert_eq!(rst.length, 0);
    assert_eq!(rst.kind, SegmentKind::Rst(Rst { nr: 3, data: vec![0x01, 0xFF, 0x00, 0x02] }));
    assert_eq!(next(&mut reader).kind, SegmentKind::Eoi);
}

#[test]
fn run_of_fill_bytes_before_stuffing_is_kept_whole() {
    let bytes = [0xFF, 0xD8, 0xFF, 0xD0, 0x05, 0xFF, 0xFF, 0xFF, 0x00, 0x06, 0xFF, 0xFF, 0xD9];
    let mut reader = open(&bytes);
    assert_eq!(
        next(&mut reader).kind,
        SegmentKind::Rst(Rst { nr: 0, data: vec![0x05, 0xFF, 0xFF, 0xFF, 0x00, 0x06] })
    );
    let eoi = next(&mut reader);
    assert_eq!(eoi.kind, SegmentKind::Eoi);
    assert_eq!(eoi.position, 13);
}

#[test]
fn dht_single_table_and_dropped_rest() {
    let mut bytes = vec![0xFF, 0xD8, 0xFF, 0xC4, 0x00, 0x20, 0x13];
    bytes.extend([1, 2, 0, 0, 0, 0, 0, 0, 0, 0, 0, 0, 0, 0, 0, 0]);
    bytes.extend([0x0A, 0x0B, 0x0C]);
    bytes.extend([0xEE; 10]);
    bytes.extend([0xFF, 0xD9]);
    let mut reader = open(&bytes);
    let dht = next(&mut reader);
    assert_eq!(dht.length, 30);
    match dht.kind {
        SegmentKind::Dht(tables) => {
            assert_eq!(tables.len(), 1);
            assert_eq!(tables[0].class, 1);
            assert_eq!(tables[0].dest, 3);
            assert_eq!(tables[0].code_lengths[0], 1);
            assert_eq!(tables[0].code_lengths[1], 2);
            assert_eq!(tables[0].values, vec![0x0A, 0x0B, 0x0C]);
        }
        other => panic!("expected Huffman tables, got {:?}", other),
    }
    assert_eq!(next(&mut reader).kind, SegmentKind::Eoi);
}

#[test]
fn dht_two_tables() {
    let mut bytes = vec![0xFF, 0xD8, 0xFF, 0xC4, 0x00, 0x26];
    bytes.push(0x00);
    bytes.extend([1, 0, 0, 0, 0, 0, 0, 0, 0, 0, 0, 0, 0, 0, 0, 0]);
    bytes.push(0x07);
    bytes.push(0x10);
    bytes.extend([0, 1, 0, 0, 0, 0, 0, 0, 0, 0, 0, 0, 0, 0, 0, 0]);
    bytes.push(0x08);
    bytes.extend([0xFF, 0xD9]);
    let mut reader = open(&bytes);
    match next(&mut reader).kind {
        SegmentKind::Dht(tables) => {
            assert_eq!(tables.len(), 2);
            assert_eq!(tables[0].values, vec![0x07]);
            assert_eq!(tables[1].class, 1);
            assert_eq!(tables[1].values, vec![0x08]);
        }
        other => panic!("expected Huffman tables, got {:?}", other),
    }
    assert_eq!(next(&mut reader).kind, SegmentKind::Eoi);
}

#[test]
fn dht_values_past_segment_are_refused() {
    let mut bytes = vec![0xFF, 0xD8, 0xFF, 0xC4, 0x00, 0x14, 0x00];
    bytes.extend([5, 0, 0, 0, 0, 0, 0, 0, 0, 0, 0, 0, 0, 0, 0, 0]);
    bytes.push(0x01);
    bytes.extend([0x02, 0x03, 0x04, 0x05, 0xFF, 0xD9]);
    assert_eq!(error_of(&bytes), JfifError::InvalidDhtSegmentLength(20));
}

#[test]
fn app0_jfif_with_thumbnail() {
    let bytes = [
        0xFF, 0xD8, 0xFF, 0xE0, 0x00, 0x14, b'J', b'F', b'I', b'F', 0x00, 0x01, 0x02, 0x00, 0x00,
        0x48, 0x00, 0x30, 0x02, 0x02, 0x11, 0x22, 0x33, 0x44, 0xFF, 0xD9,
    ];
    let mut reader = open(&bytes);
    let app = next(&mut reader);
    assert_eq!(app.position, 4);
    assert_eq!(app.length, 18);
    assert_eq!(
        app.kind,
        SegmentKind::App0Jfif(App0Jfif {
            major: 1,
            minor: 2,
            unit: 0,
            x_density: 72,
            y_density: 48,
            x_thumbnail: 2,
            y_thumbnail: 2,
            thumbnail: Some(vec![0x11, 0x22, 0x33, 0x44]),
        })
    );
    assert_eq!(next(&mut reader).kind, SegmentKind::Eoi);
}

#[test]
fn app0_jfif_without_thumbnail() {
    let bytes = [
        0xFF, 0xD8, 0xFF, 0xE0, 0x00, 0x10, b'J', b'F', b'I', b'F', 0x00, 0x01, 0x01, 0x01, 0x01,
        0x2C, 0x01, 0x2C, 0x00, 0x00, 0xFF, 0xD9,
    ];
    let mut reader = open(&bytes);
    match next(&mut reader).kind {
        SegmentKind::App0Jfif(j) => {
            assert_eq!(j.unit, 1);
            assert_eq!(j.x_density, 300);
            assert_eq!(j.y_density, 300);
            assert_eq!(j.thumbnail, None);
        }
        other => panic!("expected a JFIF header, got {:?}", other),
    }
}

#[test]
fn app_segments_that_are_not_jfif_stay_raw() {
    let bytes = [
        0xFF, 0xD8, 0xFF, 0xE1, 0x00, 0x06, b'E', b'x', b'i', b'f', 0xFF, 0xE0, 0x00, 0x07, b'J',
        b'F', b'I', b'F', 0x00, 0xFF, 0xD9,
    ];
    let mut reader = open(&bytes);
    assert_eq!(next(&mut reader).kind, SegmentKind::App { nr: 1, data: b"Exif".to_vec() });
    assert_eq!(next(&mut reader).kind, SegmentKind::App { nr: 0, data: b"JFIF\0".to_vec() });
    assert_eq!(next(&mut reader).kind, SegmentKind::Eoi);
}

#[test]
fn dqt_remainder_is_dropped() {
    let mut bytes = vec![0xFF, 0xD8, 0xFF, 0xDB, 0x00, 0x45, 0x12];
    bytes.extend([7u8; 64]);
    bytes.extend([0xAA, 0xBB]);
    bytes.extend([0xFF, 0xD9]);
    let mut reader = open(&bytes);
    match next(&mut reader).kind {
        SegmentKind::Dqt(tables) => {
            assert_eq!(tables.len(), 1);
            assert_eq!(tables[0].precision, 1);
            assert_eq!(tables[0].dest, 2);
            assert_eq!(*tables[0].values, [7u8; 64]);
        }
        other => panic!("expected quantization tables, got {:?}", other),
    }
    assert_eq!(next(&mut reader).kind, SegmentKind::Eoi);
}

#[test]
fn dac_entries_and_odd_byte() {
    let bytes = [0xFF, 0xD8, 0xFF, 0xCC, 0x00, 0x07, 0x12, 0x34, 0x56, 0x78, 0xFF, 0xFF, 0xD9];
    let mut reader = open(&bytes);
    match next(&mut reader).kind {
        SegmentKind::Dac(Dac { params }) => {
            assert_eq!(params.len(), 2);
            assert_eq!((params[0].class, params[0].dest, params[0].value), (1, 2, 0x34));
            assert_eq!((params[1].class, params[1].dest, params[1].value), (5, 6, 0x78));
        }
        other => panic!("expected conditioning entries, got {:?}", other),
    }
    let eoi = next(&mut reader);
    assert_eq!(eoi.kind, SegmentKind::Eoi);
    assert_eq!(eoi.position, 13);
}

#[test]
fn dri_value_and_skipped_rest() {
    let bytes = [0xFF, 0xD8, 0xFF, 0xDD, 0x00, 0x05, 0x01, 0x02, 0xFF, 0xFF, 0xD9];
    let mut reader = open(&bytes);
    assert_eq!(next(&mut reader).kind, SegmentKind::Dri(0x0102));
    assert_eq!(next(&mut reader).kind, SegmentKind::Eoi);
}

#[test]
fn comment_and_unknown_segments() {
    let bytes = [
        0xFF, 0xD8, 0xFF, 0xFE, 0x00, 0x05, b'h', b'i', b'!', 0xFF, 0xF0, 0x00, 0x04, 0xAB, 0xCD,
        0xFF, 0xC8, 0x00, 0x03, 0x01, 0xFF, 0xD9,
    ];
    let mut reader = open(&bytes);
    assert_eq!(next(&mut reader).kind, SegmentKind::Comment(b"hi!".to_vec()));
    assert_eq!(
        next(&mut reader).kind,
        SegmentKind::Unknown { marker: 0xF0, data: vec![0xAB, 0xCD] }
    );
    assert_eq!(next(&mut reader).kind, SegmentKind::Unknown { marker: 0xC8, data: vec![0x01] });
    assert_eq!(next(&mut reader).kind, SegmentKind::Eoi);
}

#[test]
fn fill_bytes_and_stray_bytes_before_a_marker() {
    let bytes = [0xFF, 0xD8, 0x00, 0x12, 0xFF, 0xFF, 0xFF, 0xD9];
    let mut reader = open(&bytes);
    let eoi = next(&mut reader);
    assert_eq!(eoi.kind, SegmentKind::Eoi);
    assert_eq!(eoi.position, 8);
}

#[test]
fn zero_marker_code_is_refused() {
    assert_eq!(error_of(&[0xFF, 0xD8, 0xFF, 0x00, 0xFF, 0xD9]), JfifError::InvalidMarker(0));
}

#[test]
fn short_frame_header_is_refused() {
    let bytes = [0xFF, 0xD8, 0xFF, 0xC0, 0x00, 0x08, 0x08, 0x00, 0x10, 0x00, 0x10, 0x01, 0xFF, 0xD9];
    assert_eq!(error_of(&bytes), JfifError::InvalidFrameSegmentLength(8));
    let bytes = [0xFF, 0xD8, 0xFF, 0xC2, 0x00, 0x05, 0x08, 0x00, 0x10, 0xFF, 0xD9];
    assert_eq!(error_of(&bytes), JfifError::InvalidFrameSegmentLength(5));
}

#[test]
fn short_dri_is_refused() {
    let bytes = [0xFF, 0xD8, 0xFF, 0xDD, 0x00, 0x03, 0x00, 0xFF, 0xD9];
    assert_eq!(error_of(&bytes), JfifError::InvalidDriLength(3));
}

#[test]
fn short_scan_header_is_refused() {
    let bytes = [0xFF, 0xD8, 0xFF, 0xDA, 0x00, 0x04, 0x02, 0x00, 0xFF, 0xD9];
    assert_eq!(error_of(&bytes), JfifError::InvalidScanHeaderLength(4));
}

#[test]
fn stream_ending_inside_a_segment() {
    assert_eq!(error_of(&[0xFF, 0xD8, 0xFF, 0xFE, 0x00, 0x10, 0x41]), JfifError::UnexpectedEof);
    assert_eq!(error_of(&[0xFF, 0xD8, 0xFF, 0xFE, 0x00]), JfifError::UnexpectedEof);
    assert_eq!(error_of(&[0xFF, 0xD8, 0x00, 0xFF]), JfifError::UnexpectedEof);
    assert_eq!(error_of(&[0xFF, 0xD8, 0xFF, 0xD0, 0x01, 0x02]), JfifError::UnexpectedEof);
}

#[test]
fn stream_ending_between_segments() {
    assert_eq!(error_of(&[0xFF, 0xD8]), JfifError::EndOfStream);
    assert_eq!(error_of(&[0xFF, 0xD8, 0xFF, 0xFE, 0x00, 0x03, 0x41, 0x00]), JfifError::EndOfStream);
}

#[test]
fn sof_names() {
    let frame = |sof: u8| Frame {
        sof,
        precision: 8,
        dimension_y: 1,
        dimension_x: 1,
        components: vec![],
    };
    assert_eq!(frame(0xC2).get_sof_name(), "Progressive DCT");
    assert_eq!(frame(0xCB).get_sof_name(), "Lossless arithmetic coding");
    assert_eq!(frame(0xCF).get_sof_name(), "Differential lossless arithmetic");
    assert_eq!(frame(0xC8).get_sof_name(), "Unknown");
}

#[test]
fn marker_string_escapes_unprintable_bytes() {
    assert_eq!(get_marker_string(b"JFIF\0", 20), "JFIF\\x0x00");
    assert_eq!(get_marker_string(&[0x41, 0x20, 0x7F, 0x0A, 0xFF], 20), "A \\x0x7F\\x0x0A\\x0xFF");
    assert_eq!(get_marker_string(b"Exif data", 4), "Exif");
    assert_eq!(get_marker_string(b"", 4), "");
}

/// The position and marker of each object that a JSON handler collected.
fn calls(format: &JsonFormat) -> Vec<String> {
    format
        .markers()
        .iter()
        .map(|node| match node {
            JsonNode::Object(fields) => match (&fields[0].1, &fields[1].1) {
                (JsonNode::Number(p), JsonNode::Text(m)) => format!("{} {}", m, p),
                other => panic!("unexpected fields {:?}", other),
            },
            other => panic!("expected an object, got {:?}", other),
        })
        .collect()
}

#[test]
fn read_hands_every_segment_to_the_handler() {
    let mut bytes = vec![0xFF, 0xD8];
    bytes.extend(dqt_segment());
    bytes.extend(frame_segment());
    bytes.extend(scan_header());
    bytes.extend([0x12, 0xFF, 0x00, 0x34, 0xFF, 0xD9, 0xFF, 0xFE, 0x00, 0x03, 0x41]);
    let mut format = JsonFormat::new(false);
    assert_eq!(read(bytes, &mut format), Ok(()));
    assert_eq!(calls(&format), vec!["DQT 4", "SOF 73", "SOS 92", "EOI 110"]);
}

#[test]
fn read_stops_at_end_of_image() {
    let bytes = vec![0xFF, 0xD8, 0xFF, 0xD9, 0xFF, 0xFE, 0x00, 0x03, 0x41];
    let mut format = JsonFormat::new(false);
    assert_eq!(read(bytes, &mut format), Ok(()));
    assert_eq!(calls(&format), vec!["EOI 4"]);
}

#[test]
fn read_stops_cleanly_at_end_of_stream() {
    let bytes = vec![0xFF, 0xD8, 0xFF, 0xFE, 0x00, 0x04, 0x68, 0x69, 0xFF, 0xDD, 0x00, 0x04, 0x00, 0x08];
    let mut format = JsonFormat::new(false);
    assert_eq!(read(bytes, &mut format), Ok(()));
    assert_eq!(calls(&format), vec!["COM 4", "DRI 10"]);
}

#[test]
fn read_reports_errors() {
    let mut format = JsonFormat::new(false);
    assert_eq!(read(vec![0x00, 0x00, 0xFF, 0xD9], &mut format), Err(JfifError::JfifMarkerNotFound));
    assert!(calls(&format).is_empty());
    let bytes = vec![0xFF, 0xD8, 0xFF, 0xFE, 0x00, 0x05, 0x41];
    assert_eq!(read(bytes, &mut format), Err(JfifError::UnexpectedEof));
    assert!(calls(&format).is_empty());
    let bytes = vec![0xFF, 0xD8, 0xFF, 0xFE, 0x00, 0x03, 0x41, 0xFF, 0x00];
    assert_eq!(read(bytes, &mut format), Err(JfifError::InvalidMarker(0)));
    assert_eq!(calls(&format), vec!["COM 4"]);
    let bytes = vec![0xFF, 0xD8, 0xFF, 0xDB, 0x00, 0x02];
    assert_eq!(read(bytes, &mut format), Err(JfifError::InvalidMarkerLength(2)));
    assert_eq!(calls(&format), vec!["COM 4"]);
}

#[test]
fn largest_declared_length() {
    let mut bytes = vec![0xFF, 0xD8, 0xFF, 0xFE, 0xFF, 0xFF];
    bytes.extend(std::iter::repeat(b'a').take(65533));
    bytes.extend([0xFF, 0xD9]);
    let mut reader = open(&bytes);
    let comment = next(&mut reader);
    assert_eq!(comment.length, 65533);
    match comment.kind {
        SegmentKind::Comment(data) => {
            assert_eq!(data.len(), 65533);
            assert!(data.iter().all(|&b| b == b'a'));
        }
        other => panic!("expected a comment, got {:?}", other),
    }
    let eoi = next(&mut reader);
    assert_eq!(eoi.kind, SegmentKind::Eoi);
    assert_eq!(eoi.position, 65541);
}

#[test]
fn frame_with_most_components() {
    let mut bytes = vec![0xFF, 0xD8, 0xFF, 0xC1];
    let length: usize = 2 + 6 + 3 * 255;
    bytes.extend([(length >> 8) as u8, length as u8, 0x0C, 0x01, 0x00, 0x02, 0x00, 0xFF]);
    for id in 0..255u8 {
        bytes.extend([id, 0x12, id % 4]);
    }
    bytes.extend([0xFF, 0xD9]);
    let mut reader = open(&bytes);
    match next(&mut reader).kind {
        SegmentKind::Frame(f) => {
            assert_eq!(f.get_sof_name(), "Extended sequential DCT");
            assert_eq!(f.dimension_y, 256);
            assert_eq!(f.dimension_x, 512);
            assert_eq!(f.components.len(), 255);
            assert_eq!(f.components[254].id, 254);
            assert_eq!(f.components[254].horizontal_sampling_factor, 1);
            assert_eq!(f.components[254].vertical_sampling_factor, 2);
            assert_eq!(f.components[254].quantization_table, 2);
        }
        other => panic!("expected a frame, got {:?}", other),
    }
    assert_eq!(next(&mut reader).kind, SegmentKind::Eoi);
}

#[test]
fn frame_header_bytes_past_components_are_skipped() {
    let bytes = [
        0xFF, 0xD8, 0xFF, 0xC0, 0x00, 0x0D, 0x08, 0x00, 0x01, 0x00, 0x01, 0x01, 0x01, 0x11, 0x00,
        0xFF, 0xD9, 0x00, 0xFF, 0xD9,
    ];
    let mut reader = open(&bytes);
    match next(&mut reader).kind {
        SegmentKind::Frame(f) => assert_eq!(f.components.len(), 1),
        other => panic!("expected a frame, got {:?}", other),
    }
    let eoi = next(&mut reader);
    assert_eq!(eoi.kind, SegmentKind::Eoi);
    assert_eq!(eoi.position, 20);
}

#[test]
fn dht_table_without_values_and_no_rest_is_not_read() {
    let mut bytes = vec![0xFF, 0xD8, 0xFF, 0xC4, 0x00, 0x13, 0x00];
    bytes.extend([0u8; 16]);
    bytes.extend([0xFF, 0xD9]);
    let mut reader = open(&bytes);
    assert_eq!(next(&mut reader).kind, SegmentKind::Dht(vec![]));
    assert_eq!(next(&mut reader).kind, SegmentKind::Eoi);
}
