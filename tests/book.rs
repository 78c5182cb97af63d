use mobi::exth::ExthRecord;
use mobi::header::Header;
use mobi::{Compression, DecodeError, ExtHeader, Mobi, MobiMetadata, TextEncoding};

struct Spec {
    compression: u16,
    encryption: u16,
    record_count: u16,
    encoding: u32,
    exth_flags: u32,
    exth: Vec<u8>,
    title: Vec<u8>,
    records: Vec<Vec<u8>>,
}

fn put_u16(b: &mut Vec<u8>, at: usize, v: u16) {
    b[at..at + 2].copy_from_slice(&v.to_be_bytes());
}

fn put_u32(b: &mut Vec<u8>, at: usize, v: u32) {
    b[at..at + 4].copy_from_slice(&v.to_be_bytes());
}

fn exth_block(recs: &[(u32, &[u8])], declared: u32) -> Vec<u8> {
    let mut body = Vec::new();
    for (code, data) in recs {
        body.extend_from_slice(&code.to_be_bytes());
        body.extend_from_slice(&(data.len() as u32 + 8).to_be_bytes());
        body.extend_from_slice(data);
    }
    let mut out = Vec::new();
    out.extend_from_slice(b"EXTH");
    out.extend_from_slice(&(body.len() as u32 + 12).to_be_bytes());
    out.extend_from_slice(&declared.to_be_bytes());
    out.extend_from_slice(&body);
    out
}

/// Builds a book whose record 0 holds the headers and whose content records follow.
fn build(spec: &Spec) -> Vec<u8> {
    let n = spec.records.len() + 1;
    let base = 80 + 8 * n;
    let mut rec0 = vec![0u8; 248];
    put_u16(&mut rec0, 0, spec.compression);
    put_u32(&mut rec0, 4, 1234);
    put_u16(&mut rec0, 8, spec.record_count);
    put_u16(&mut rec0, 10, 4096);
    put_u16(&mut rec0, 12, spec.encryption);
    rec0[16..20].copy_from_slice(b"MOBI");
    put_u32(&mut rec0, 20, 232);
    put_u32(&mut rec0, 24, 2);
    put_u32(&mut rec0, 28, spec.encoding);
    put_u32(&mut rec0, 80, n as u32);
    put_u32(&mut rec0, 84, (248 + spec.exth.len()) as u32);
    put_u32(&mut rec0, 88, spec.title.len() as u32);
    put_u32(&mut rec0, 92, 0x0409);
    put_u32(&mut rec0, 128, spec.exth_flags);
    put_u16(&mut rec0, 194, 7);
    rec0.extend_from_slice(&spec.exth);
    rec0.extend_from_slice(&spec.title);

    let mut out = vec![0u8; 78 + 8 * n + 2];
    out[0..9].copy_from_slice(b"Test Book");
    put_u16(&mut out, 32, 0x0010);
    put_u16(&mut out, 34, 0xfffe);
    put_u32(&mut out, 36, 86400);
    put_u32(&mut out, 40, 90000);
    out[60..64].copy_from_slice(b"BOOK");
    out[64..68].copy_from_slice(b"MOBI");
    put_u16(&mut out, 76, n as u16);
    let mut all = vec![rec0];
    all.extend(spec.records.iter().cloned());
    let mut offset = base;
    for (i, r) in all.iter().enumerate() {
        put_u32(&mut out, 78 + 8 * i, offset as u32);
        put_u32(&mut out, 82 + 8 * i, 2 * i as u32);
        offset += r.len();
    }
    for r in all {
        out.extend_from_slice(&r);
    }
    out
}

fn plain_spec() -> Spec {
    Spec {
        compression: 1,
        encryption: 0,
        record_count: 5,
        encoding: 65001,
        exth_flags: 0,
        exth: Vec::new(),
        title: b"Sample".to_vec(),
        records: vec![b"one ".to_vec(), b"two ".to_vec(), b"three".to_vec(), b"tail".to_vec()],
    }
}

#[test]
fn short_buffer_is_truncated_header() {
    let bytes = vec![0u8; 77];
    assert!(matches!(Header::parse(&bytes), Err(DecodeError::TruncatedHeader)));
    assert!(matches!(Mobi::new(&bytes), Err(DecodeError::TruncatedHeader)));
    assert!(matches!(MobiMetadata::new(&bytes), Err(DecodeError::TruncatedHeader)));
}

#[test]
fn directory_longer_than_buffer_is_truncated_header() {
    let mut bytes = vec![0u8; 90];
    bytes[77] = 2;
    assert!(matches!(Header::parse(&bytes), Err(DecodeError::TruncatedHeader)));
}

#[test]
fn page_header_fields() {
    let bytes = build(&plain_spec());
    let h = Header::parse(&bytes).unwrap();
    assert_eq!(h.num_of_records, 5);
    assert_eq!(h.attributes, 16);
    assert_eq!(h.version, -2);
    assert_eq!(h.created, 86400);
    assert_eq!(h.modified, 90000);
    assert_eq!(h.typ_e, "BOOK");
    assert_eq!(h.creator, "MOBI");
    assert_eq!(h.name.len(), 32);
    assert!(h.name.starts_with("Test Book\0"));
}

#[test]
fn directory_matches_record_count_and_increases() {
    let bytes = build(&plain_spec());
    let h = Header::parse(&bytes).unwrap();
    assert_eq!(h.directory.len(), h.num_of_records as usize);
    for i in 1..h.directory.len() {
        assert!(h.directory[i - 1].data_offset < h.directory[i].data_offset);
        assert_eq!(h.directory[i].unique_id, 2 * i as u32);
    }
    assert_eq!(h.directory[0].data_offset, 80 + 8 * 5);
}

#[test]
fn unordered_directory_is_rejected() {
    let mut bytes = build(&plain_spec());
    let second = u32::from_be_bytes(bytes[86..90].try_into().unwrap());
    bytes[94..98].copy_from_slice(&second.to_be_bytes());
    assert!(matches!(Header::parse(&bytes), Err(DecodeError::MalformedDirectory)));
    assert!(matches!(Mobi::new(&bytes), Err(DecodeError::MalformedDirectory)));
}

#[test]
fn directory_past_buffer_is_rejected() {
    let mut bytes = build(&plain_spec());
    let len = bytes.len() as u32;
    bytes[110..114].copy_from_slice(&(len + 1).to_be_bytes());
    assert!(matches!(Header::parse(&bytes), Err(DecodeError::MalformedDirectory)));
}

#[test]
fn format_header_region_truncated() {
    let bytes = build(&plain_spec());
    let base = 80 + 8 * 5;
    let cut = bytes[..base + 100].to_vec();
    let mut fixed = cut.clone();
    // Keep the directory inside the shorter buffer.
    for i in 0..5 {
        fixed[78 + 8 * i..82 + 8 * i].copy_from_slice(&((base + i) as u32).to_be_bytes());
    }
    assert!(matches!(MobiMetadata::new(&fixed), Err(DecodeError::TruncatedHeader)));
}

#[test]
fn title_out_of_bounds() {
    let mut bytes = build(&plain_spec());
    let base = 80 + 8 * 5;
    bytes[base + 88..base + 92].copy_from_slice(&100000u32.to_be_bytes());
    assert!(matches!(MobiMetadata::new(&bytes), Err(DecodeError::OutOfBounds)));
}

#[test]
fn document_and_format_headers() {
    let bytes = build(&plain_spec());
    let m = MobiMetadata::new(&bytes).unwrap();
    assert_eq!(m.palmdoc.compression, 1);
    assert_eq!(m.palmdoc.text_length, 1234);
    assert_eq!(m.palmdoc.record_count, 5);
    assert_eq!(m.palmdoc.record_size, 4096);
    assert_eq!(m.palmdoc.encryption_type, 0);
    assert_eq!(m.palmdoc.compression_enum(), Compression::No);
    assert_eq!(m.mobi.identifier, u32::from_be_bytes(*b"MOBI"));
    assert_eq!(m.mobi.header_length, 232);
    assert_eq!(m.mobi.mobi_type, 2);
    assert_eq!(m.mobi.first_non_book_index, 5);
    assert_eq!(m.mobi.last_image_record, 7);
    assert_eq!(m.mobi.name, "Sample");
    assert!(!m.mobi.has_exth_header);
    assert_eq!(m.text_encoding(), TextEncoding::UTF8);
    assert_eq!(m.mobi_type(), Some("Mobipocket Book".to_string()));
    assert_eq!(m.language(), Some("English".to_string()));
    assert_eq!(m.compression(), "No Compression");
    assert_eq!(m.encryption(), "No Encryption");
    assert_eq!(m.created_time(), 86400);
    assert_eq!(m.mod_time(), 90000);
}

#[test]
fn datetimes_from_header() {
    let bytes = build(&plain_spec());
    let m = Mobi::new(&bytes).unwrap();
    assert_eq!(m.created_datetime().to_string(), "1970-01-02 00:00:00");
    assert_eq!(m.mod_datetime().to_string(), "1970-01-02 01:00:00");
}

#[test]
fn utf8_title_decoded() {
    let mut spec = plain_spec();
    spec.title = "Zażółć".as_bytes().to_vec();
    let m = MobiMetadata::new(&build(&spec)).unwrap();
    assert_eq!(m.mobi.name, "Zażółć");
}

#[test]
fn invalid_utf8_title_falls_back_to_bytes() {
    let mut spec = plain_spec();
    spec.title = vec![b'A', 0xe9, b'B'];
    let m = MobiMetadata::new(&build(&spec)).unwrap();
    assert_eq!(m.mobi.name, "A\u{e9}B");
}

#[test]
fn single_byte_title() {
    let mut spec = plain_spec();
    spec.encoding = 1252;
    spec.title = "Zażółć".as_bytes().to_vec();
    let m = MobiMetadata::new(&build(&spec)).unwrap();
    assert_eq!(m.text_encoding(), TextEncoding::CP1252);
    assert_eq!(m.mobi.name.chars().count(), spec.title.len());
}

#[test]
fn exth_absent_gives_empty_metadata() {
    let mut spec = plain_spec();
    spec.exth = exth_block(&[(100, b"Jane Doe")], 1);
    spec.exth_flags = 0x10;
    let m = MobiMetadata::new(&build(&spec)).unwrap();
    assert!(!m.mobi.has_exth_header);
    assert!(m.exth.records.is_empty());
    assert_eq!(m.exth.identifier, 0);
    assert_eq!(m.author(), None);
}

#[test]
fn exth_author_and_title() {
    let mut spec = plain_spec();
    spec.exth = exth_block(&[(100, b"Jane Doe"), (503, b"Sample")], 2);
    spec.exth_flags = 0x50;
    let bytes = build(&spec);
    let m = MobiMetadata::new(&bytes).unwrap();
    assert!(m.mobi.has_exth_header);
    assert_eq!(m.exth.identifier, u32::from_be_bytes(*b"EXTH"));
    assert_eq!(m.exth.record_count, 2);
    assert_eq!(m.exth.error, None);
    assert_eq!(m.author().map(|s| s.as_str()), Some("Jane Doe"));
    assert_eq!(m.title().map(|s| s.as_str()), Some("Sample"));
    assert_eq!(m.exth.get_record_code(1), None);
    assert_eq!(m.publisher(), None);
    let b = Mobi::new(&bytes).unwrap();
    assert_eq!(b.author().map(|s| s.as_str()), Some("Jane Doe"));
    assert_eq!(b.title().map(|s| s.as_str()), Some("Sample"));
}

#[test]
fn exth_named_kinds() {
    let mut spec = plain_spec();
    spec.exth = exth_block(
        &[(101, b"Pub"), (103, b"Desc"), (104, b"978"), (106, b"2020"), (108, b"Con"), (101, b"Second")],
        6,
    );
    spec.exth_flags = 0x40;
    let b = Mobi::new(&build(&spec)).unwrap();
    assert_eq!(b.publisher().map(|s| s.as_str()), Some("Pub"));
    assert_eq!(b.description().map(|s| s.as_str()), Some("Desc"));
    assert_eq!(b.isbn().map(|s| s.as_str()), Some("978"));
    assert_eq!(b.publish_date().map(|s| s.as_str()), Some("2020"));
    assert_eq!(b.contributor().map(|s| s.as_str()), Some("Con"));
    assert_eq!(ExthRecord::Title.code(), 503);
}

#[test]
fn malformed_exth_record_truncates_list() {
    let mut spec = plain_spec();
    let mut block = exth_block(&[(100, b"Jane Doe"), (503, b"Sample")], 3);
    // The second record declares far more bytes than the buffer has.
    let second = 12 + 16;
    block[second + 4..second + 8].copy_from_slice(&100000u32.to_be_bytes());
    spec.exth = block;
    spec.exth_flags = 0x40;
    let m = MobiMetadata::new(&build(&spec)).unwrap();
    assert_eq!(m.exth.records.len(), 1);
    assert_eq!(m.exth.error, Some(DecodeError::MalformedMetadataRecord));
    assert_eq!(m.author().map(|s| s.as_str()), Some("Jane Doe"));
    assert_eq!(m.title(), None);
}

#[test]
fn exth_record_shorter_than_its_header_stops_list() {
    let mut spec = plain_spec();
    let mut block = exth_block(&[(100, b"Jane Doe")], 1);
    block[16..20].copy_from_slice(&4u32.to_be_bytes());
    spec.exth = block;
    spec.exth_flags = 0x40;
    let m = MobiMetadata::new(&build(&spec)).unwrap();
    assert!(m.exth.records.is_empty());
    assert_eq!(m.exth.error, Some(DecodeError::MalformedMetadataRecord));
}

#[test]
fn exth_prologue_past_buffer() {
    let e = ExtHeader::parse(&[0u8; 100], 0, 1000);
    assert!(e.records.is_empty());
    assert_eq!(e.record_count, 0);
    assert_eq!(e.error, Some(DecodeError::MalformedMetadataRecord));
    let empty = ExtHeader::empty();
    assert_eq!(empty.error, None);
}

#[test]
fn content_of_five_records() {
    let spec = plain_spec();
    let b = Mobi::new(&build(&spec)).unwrap();
    assert_eq!(b.records.len(), 5);
    assert_eq!(b.content(), b"one two three".to_vec());
    assert_eq!(b.content_as_string(), "one two three");
    assert_eq!(b.records[4].record_data, b"tail".to_vec());
}

#[test]
fn uncompressed_records_are_verbatim() {
    let spec = plain_spec();
    let b = Mobi::new(&build(&spec)).unwrap();
    for i in 1..4 {
        assert_eq!(b.records[i].record_data, spec.records[i - 1]);
        assert_eq!(b.records[i].error, None);
    }
}

#[test]
fn compressed_content_is_expanded() {
    let mut spec = plain_spec();
    spec.compression = 2;
    spec.records = vec![
        vec![b'a', b'b', b'c', 0x80, 0x1e],
        vec![0xc8, 0x69],
        vec![b'x', 0x80, 0x00],
        b"raw".to_vec(),
    ];
    let b = Mobi::new(&build(&spec)).unwrap();
    assert_eq!(b.records[1].record_data, b"abcabcabcabc".to_vec());
    assert_eq!(b.records[2].record_data, b" Hi".to_vec());
    assert!(b.records[3].record_data.is_empty());
    assert_eq!(b.records[3].error, Some(DecodeError::InvalidBackReference));
    assert_eq!(b.records[4].record_data, b"raw".to_vec());
    assert_eq!(b.content(), b"abcabcabcabc Hi".to_vec());
    assert_eq!(b.compression(), "PalmDOC Compression");
}

#[test]
fn unsupported_compression_leaves_records_empty() {
    let mut spec = plain_spec();
    spec.compression = 17480;
    let b = Mobi::new(&build(&spec)).unwrap();
    assert_eq!(b.compression(), "HUFF/CDIC Compression");
    assert_eq!(b.metadata.palmdoc.compression_enum(), Compression::Unsupported(17480));
    assert!(b.records[1].record_data.is_empty());
    assert_eq!(b.records[1].error, Some(DecodeError::UnsupportedCompression));
    assert!(b.content().is_empty());
}

#[test]
fn encrypted_records_stay_raw() {
    let mut spec = plain_spec();
    spec.compression = 2;
    spec.encryption = 2;
    spec.records = vec![vec![0x80, 0x00], vec![1, 2], vec![3], vec![4]];
    let b = Mobi::new(&build(&spec)).unwrap();
    assert_eq!(b.encryption(), "Mobipocket Encryption");
    assert_eq!(b.records[1].record_data, vec![0x80, 0x00]);
    assert_eq!(b.records[1].error, None);
}

#[test]
fn record_count_beyond_directory_is_clamped() {
    let mut spec = plain_spec();
    spec.record_count = 40;
    let b = Mobi::new(&build(&spec)).unwrap();
    assert_eq!(b.content(), b"one two threetail".to_vec());
}

#[test]
fn small_record_count_gives_no_content() {
    let mut spec = plain_spec();
    spec.record_count = 0;
    let b = Mobi::new(&build(&spec)).unwrap();
    assert!(b.content().is_empty());
    assert_eq!(b.content_as_string(), "");
}

#[test]
fn raw_content_kept() {
    let bytes = build(&plain_spec());
    let b = Mobi::new(&bytes).unwrap();
    assert_eq!(b.raw_content, bytes);
    assert_eq!(b.records[0].record_data_offset, 80 + 40);
    assert_eq!(b.records[0].record_data.len(), 248 + 6);
}

#[test]
fn document_header_needs_only_its_fields() {
    let mut bytes = vec![0u8; 80 + 14];
    bytes[80] = 0x44;
    bytes[81] = 0x48;
    bytes[88] = 0;
    bytes[89] = 5;
    bytes[92] = 0;
    bytes[93] = 9;
    let p = mobi::PalmDocHeader::parse(&bytes, 0).unwrap();
    assert_eq!(p.compression, 17480);
    assert_eq!(p.record_count, 5);
    assert_eq!(p.encryption_type, 9);
    assert!(matches!(mobi::PalmDocHeader::parse(&bytes[..93], 0), Err(DecodeError::TruncatedHeader)));
}

#[test]
fn document_header_after_large_directory() {
    let n: u16 = 65535;
    let base = 80 + 8 * n as usize;
    let mut bytes = vec![0u8; base + 14];
    bytes[base + 1] = 2;
    let p = mobi::PalmDocHeader::parse(&bytes, n).unwrap();
    assert_eq!(p.compression, 2);
}

#[test]
fn title_read_from_short_buffer() {
    // Only the fields up to the title length, then the title itself.
    let mut bytes = vec![0u8; 80 + 92];
    bytes[80 + 28..80 + 32].copy_from_slice(&1252u32.to_be_bytes());
    bytes[80 + 84..80 + 88].copy_from_slice(&92u32.to_be_bytes());
    bytes[80 + 88..80 + 92].copy_from_slice(&3u32.to_be_bytes());
    bytes.extend_from_slice(&[b'A', 0xe9, b'Z']);
    assert_eq!(mobi::MobiHeader::name(&bytes, 0), Ok("A\u{e9}Z".to_string()));
    assert_eq!(mobi::MobiHeader::name(&bytes[..174], 0), Err(DecodeError::OutOfBounds));
    assert_eq!(mobi::MobiHeader::name(&bytes[..100], 0), Err(DecodeError::OutOfBounds));
}
