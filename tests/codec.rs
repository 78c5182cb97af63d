use mobi::encoding::{decode_text, TextEncoding};
use mobi::lz77::decompress;
use mobi::names::{language_string, mobi_type_string};
use mobi::reader::{read_bytes_at, read_i16_at, read_u16_at, read_u32_at, u8_as_string};
use mobi::record::Record;
use mobi::DecodeError;

#[test]
fn reads_big_endian_integers() {
    let b = [0x12u8, 0x34, 0x56, 0x78, 0xff, 0xfe];
    assert_eq!(read_u16_at(&b, 0), Ok(0x1234));
    assert_eq!(read_u16_at(&b, 1), Ok(0x3456));
    assert_eq!(read_u32_at(&b, 0), Ok(0x12345678));
    assert_eq!(read_u32_at(&b, 2), Ok(0x5678fffe));
    assert_eq!(read_i16_at(&b, 4), Ok(-2));
    assert_eq!(read_i16_at(&b, 0), Ok(0x1234));
}

#[test]
fn reads_past_end_are_out_of_bounds() {
    let b = [1u8, 2, 3, 4];
    assert_eq!(read_u16_at(&b, 3), Err(DecodeError::OutOfBounds));
    assert_eq!(read_u32_at(&b, 1), Err(DecodeError::OutOfBounds));
    assert_eq!(read_i16_at(&b, usize::MAX), Err(DecodeError::OutOfBounds));
    assert_eq!(read_bytes_at(&b, 2, 3), Err(DecodeError::OutOfBounds));
    assert_eq!(read_bytes_at(&b, usize::MAX, 2), Err(DecodeError::OutOfBounds));
    assert_eq!(read_bytes_at(&b, 1, 2), Ok(vec![2, 3]));
    assert_eq!(read_bytes_at(&b, 4, 0), Ok(vec![]));
}

#[test]
fn bytes_as_characters() {
    assert_eq!(u8_as_string(&[b'h', b'i', 0xe9, 0]), "hi\u{e9}\0");
    assert_eq!(u8_as_string(&[]), "");
}

#[test]
fn text_decoding() {
    assert_eq!(decode_text("żółw".as_bytes(), TextEncoding::UTF8), "żółw");
    assert_eq!(decode_text(&[0xff, b'a'], TextEncoding::UTF8), "\u{ff}a");
    assert_eq!(decode_text(&[0xe9], TextEncoding::CP1252), "\u{e9}");
    assert_eq!(TextEncoding::from_code(65001), TextEncoding::UTF8);
    assert_eq!(TextEncoding::from_code(1252), TextEncoding::CP1252);
    assert_eq!(TextEncoding::from_code(7), TextEncoding::CP1252);
}

#[test]
fn type_and_language_names() {
    assert_eq!(mobi_type_string(3), Some("PalmDoc Book".to_string()));
    assert_eq!(mobi_type_string(518), Some("HTML".to_string()));
    assert_eq!(mobi_type_string(1), None);
    assert_eq!(language_string(0x0407), Some("German".to_string()));
    assert_eq!(language_string(0x0c), Some("French".to_string()));
    assert_eq!(language_string(0xfe), None);
}

#[test]
fn control_byte_nul_is_literal() {
    assert_eq!(decompress(&[0x00, b'a']), Ok(vec![0x00, b'a']));
}

#[test]
fn control_byte_0x01_copies_one() {
    assert_eq!(decompress(&[0x01, 0xc5]), Ok(vec![0xc5]));
}

#[test]
fn control_byte_0x08_copies_eight() {
    let input = [0x08, 0x80, 0x81, 0xc0, 0x00, 0x01, 0x02, 0xff, b'z', b'!'];
    assert_eq!(
        decompress(&input),
        Ok(vec![0x80, 0x81, 0xc0, 0x00, 0x01, 0x02, 0xff, b'z', b'!'])
    );
}

#[test]
fn control_byte_0x09_is_tab() {
    assert_eq!(decompress(&[0x09]), Ok(vec![b'\t']));
}

#[test]
fn control_byte_0x7f_is_literal() {
    assert_eq!(decompress(&[0x7f]), Ok(vec![0x7f]));
}

#[test]
fn control_byte_0x80_starts_back_reference() {
    // distance 1, length 3
    assert_eq!(decompress(&[b'a', 0x80, 0x08]), Ok(b"aaaa".to_vec()));
}

#[test]
fn control_byte_0xbf_is_back_reference() {
    // distance 2047, length 10: needs 2047 bytes of output first.
    let mut input = Vec::new();
    let mut expected = Vec::new();
    for i in 0..2047u32 {
        let c = b'A' + (i % 26) as u8;
        input.push(c);
        expected.push(c);
    }
    input.extend_from_slice(&[0xbf, 0xff]);
    for k in 0..10 {
        expected.push(expected[k]);
    }
    assert_eq!(decompress(&input), Ok(expected));
    assert_eq!(decompress(&[b'a', 0xbf, 0xff]), Err(DecodeError::InvalidBackReference));
}

#[test]
fn control_byte_0xc0_is_space_pair() {
    assert_eq!(decompress(&[0xc0]), Ok(vec![b' ', 0x40]));
}

#[test]
fn control_byte_0xff_is_space_pair() {
    assert_eq!(decompress(&[0xff]), Ok(vec![b' ', 0x7f]));
}

#[test]
fn overlapping_back_reference() {
    // distance 3, length 9 > 3
    assert_eq!(decompress(&[b'a', b'b', b'c', 0x80, 0x1e]), Ok(b"abcabcabcabc".to_vec()));
    // distance 1, length 10
    assert_eq!(decompress(&[b'-', 0x80, 0x0f]), Ok(vec![b'-'; 11]));
}

#[test]
fn zero_distance_is_invalid() {
    assert_eq!(decompress(&[b'a', 0x80, 0x00]), Err(DecodeError::InvalidBackReference));
}

#[test]
fn back_reference_before_start_is_invalid() {
    assert_eq!(decompress(&[0x80, 0x08]), Err(DecodeError::InvalidBackReference));
}

#[test]
fn truncated_literal_run_is_malformed() {
    assert_eq!(decompress(&[b'a', 0x05, 1, 2]), Err(DecodeError::MalformedRecord));
}

#[test]
fn truncated_back_reference_is_malformed() {
    assert_eq!(decompress(&[b'a', 0x80]), Err(DecodeError::MalformedRecord));
}

#[test]
fn empty_record_decompresses_to_nothing() {
    assert_eq!(decompress(&[]), Ok(vec![]));
}

/// Encodes `plain` greedily: back-references of 3 to 10 bytes where an earlier match
/// exists, space pairs, literals, and literal runs for the other bytes.
fn reference_encode(plain: &[u8]) -> Vec<u8> {
    let mut out = Vec::new();
    let mut i = 0;
    while i < plain.len() {
        let mut best = (0usize, 0usize);
        let lo = i.saturating_sub(2047);
        for start in lo..i {
            let mut l = 0;
            while l < 10 && i + l < plain.len() && plain[start + l] == plain[i + l] {
                l += 1;
            }
            if l > best.1 {
                best = (i - start, l);
            }
        }
        if best.1 >= 3 {
            let v = 0x8000u16 | ((best.0 as u16) << 3) | (best.1 as u16 - 3);
            out.extend_from_slice(&v.to_be_bytes());
            i += best.1;
        } else if plain[i] == b' ' && i + 1 < plain.len() && (0x40..=0x7f).contains(&plain[i + 1]) {
            out.push(plain[i + 1] ^ 0x80);
            i += 2;
        } else if plain[i] == 0 || (0x09..=0x7f).contains(&plain[i]) {
            out.push(plain[i]);
            i += 1;
        } else {
            out.push(1);
            out.push(plain[i]);
            i += 1;
        }
    }
    out
}

#[test]
fn round_trip_through_reference_encoder() {
    let samples: [&[u8]; 4] = [
        b"the cat sat on the mat; the cat sat on the hat",
        b"aaaaaaaaaaaaaaaaaaaaaaaaaaaaaaaaaaaaaaaa",
        &[0x00, 0x01, 0x80, 0xff, b' ', b'Q', 0xc3, 0xa9, 0x80, 0xff],
        b"",
    ];
    for plain in samples {
        let packed = reference_encode(plain);
        assert_eq!(decompress(&packed), Ok(plain.to_vec()));
    }
    let packed = reference_encode(b"abababababab");
    assert!(packed.len() < 12);
}

#[test]
fn record_reads_its_span_and_decodes() {
    let content = [9u8, 9, b'a', 0x80, 0x08, 7];
    let mut r = Record::new();
    assert_eq!(r.record_data_offset, 0);
    r.record_data_offset = 2;
    r.record_data(&content, 5);
    assert_eq!(r.record_data, vec![b'a', 0x80, 0x08]);
    r.decompress(mobi::Compression::PalmDoc, 0);
    assert_eq!(r.record_data, b"aaaa".to_vec());
    assert_eq!(r.error, None);
}

#[test]
fn overlapping_back_reference_of_three() {
    // distance 3, length 6
    assert_eq!(decompress(&[0x61, 0x62, 0x63, 0x80, 0x1b]), Ok(b"abcabcabc".to_vec()));
    assert_eq!(decompress(&[0x61, 0x80, 0x0f]), Ok(b"aaaaaaaaaaa".to_vec()));
}
