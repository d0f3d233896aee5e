use epic_manifest_parser::ext::ReaderExt;
use epic_manifest_parser::reader::{read_tarray, read_sized_tarray, ByteReader};
use epic_manifest_parser::text::string_from_latin1;
use epic_manifest_parser::ErrorKind;

#[test]
fn reads_little_endian_integers() {
    let bytes: Vec<u8> = vec![
        0x0C, 0xC0, 0xBE, 0x44, // u32 le
        0xFE, 0xFF, 0xFF, 0xFF, // i32 le = -2
        0x08, 0x07, 0x06, 0x05, 0x04, 0x03, 0x02, 0x01, // u64 le
        0xFF, 0xFF, 0xFF, 0xFF, 0xFF, 0xFF, 0xFF, 0xFF, // i64 le = -1
        0x2A, // u8
    ];
    let mut reader = ByteReader::new(bytes);
    assert_eq!(reader.read_u32_le().unwrap(), 0x44BEC00C);
    assert_eq!(reader.read_i32_le().unwrap(), -2);
    assert_eq!(reader.read_u64_le().unwrap(), 0x0102030405060708);
    assert_eq!(reader.read_i64_le().unwrap(), -1);
    assert_eq!(reader.read_u8().unwrap(), 0x2A);
    assert_eq!(reader.position(), 25);
    assert_eq!(reader.remaining(), 0);
}

#[test]
fn reads_the_one_big_endian_integer() {
    let mut reader = ByteReader::new(vec![0x08, 0x09, 0xA0, 0xA1, 0x00]);
    assert_eq!(reader.read_u32_be().unwrap(), 0x0809A0A1);
    assert_eq!(reader.position(), 4);
    reader.seek(0);
    assert_eq!(reader.read_u32_le().unwrap(), 0xA1A00908);
}

#[test]
fn reads_the_smallest_and_largest_signed_values() {
    let mut reader = ByteReader::new(vec![
        0x00, 0x00, 0x00, 0x80, 0xFF, 0xFF, 0xFF, 0x7F, 0x00, 0x00, 0x00, 0x00, 0x00, 0x00, 0x00,
        0x80,
    ]);
    assert_eq!(reader.read_i32_le().unwrap(), i32::MIN);
    assert_eq!(reader.read_i32_le().unwrap(), i32::MAX);
    assert_eq!(reader.read_i64_le().unwrap(), i64::MIN);
}

#[test]
fn a_read_past_the_end_fails_and_does_not_move() {
    let mut reader = ByteReader::new(vec![1, 2, 3]);
    let e = reader.read_u32_le().unwrap_err();
    assert_eq!(e.kind, ErrorKind::CorruptManifest);
    assert_eq!(e.to_string(), "the data is corrupt or truncated");
    assert_eq!(reader.position(), 0);
    assert_eq!(reader.read_u8().unwrap(), 1);
    assert!(reader.read_u64_le().is_err());
    assert!(reader.read_i64_le().is_err());
    assert!(reader.read_i32_le().is_err());
    assert!(reader.read_u32_be().is_err());
    assert_eq!(reader.position(), 1);
}

#[test]
fn seek_may_pass_the_end_and_reads_there_fail() {
    let mut reader = ByteReader::new(vec![1, 2, 3]);
    reader.seek(10);
    assert_eq!(reader.position(), 10);
    assert_eq!(reader.remaining(), 0);
    assert!(!reader.has(0));
    assert!(reader.read_u8().is_err());
    reader.seek(3);
    assert!(reader.has(0));
    assert!(reader.read_u8().is_err());
    reader.seek(2);
    assert_eq!(reader.read_u8().unwrap(), 3);
}

#[test]
fn skip_moves_over_bytes_that_are_there() {
    let mut reader = ByteReader::new(vec![1, 2, 3, 4, 5]);
    reader.skip(2).unwrap();
    assert_eq!(reader.position(), 2);
    reader.skip(0).unwrap();
    assert_eq!(reader.position(), 2);
    let e = reader.skip(4).unwrap_err();
    assert_eq!(e.kind, ErrorKind::CorruptManifest);
    assert_eq!(reader.position(), 2);
    reader.skip(3).unwrap();
    assert_eq!(reader.position(), 5);
}

#[test]
fn fstring_of_length_zero_is_empty() {
    let mut reader = ByteReader::new(vec![0, 0, 0, 0, 9]);
    assert_eq!(reader.read_fstring().unwrap(), "");
    assert_eq!(reader.position(), 4);
}

#[test]
fn fstring_drops_the_closing_nul() {
    let mut reader = ByteReader::new(vec![6, 0, 0, 0, b'h', b'e', b'l', b'l', b'o', 0, 9]);
    assert_eq!(reader.read_fstring().unwrap(), "hello");
    assert_eq!(reader.position(), 10);
}

#[test]
fn fstring_of_length_one_is_empty_and_takes_one_byte() {
    let mut reader = ByteReader::new(vec![1, 0, 0, 0, 0, 9]);
    assert_eq!(reader.read_fstring().unwrap(), "");
    assert_eq!(reader.position(), 5);
}

#[test]
fn fstring_bytes_are_latin1_characters() {
    let mut reader = ByteReader::new(vec![4, 0, 0, 0, 0xE9, 0x41, 0xFF, 0]);
    assert_eq!(reader.read_fstring().unwrap(), "\u{e9}A\u{ff}");
    assert_eq!(string_from_latin1(&[0x80, 0x7F]), "\u{80}\u{7f}");
}

#[test]
fn fstring_with_negative_length_is_an_unsupported_encoding() {
    let mut bytes = (-3i32).to_le_bytes().to_vec();
    bytes.extend_from_slice(&[b'a', 0, b'b', 0, 0, 0]);
    let mut reader = ByteReader::new(bytes);
    let e = reader.read_fstring().unwrap_err();
    assert_eq!(e.kind, ErrorKind::UnsupportedEncoding);
    assert_eq!(e.to_string(), "UTF-16 strings are not supported");
    assert_eq!(reader.position(), 0);
}

#[test]
fn fstring_with_the_smallest_length_is_corrupt() {
    let mut reader = ByteReader::new(i32::MIN.to_le_bytes().to_vec());
    let e = reader.read_fstring().unwrap_err();
    assert_eq!(e.kind, ErrorKind::CorruptManifest);
    assert_eq!(reader.position(), 0);
}

#[test]
fn fstring_that_is_cut_short_is_corrupt() {
    let mut reader = ByteReader::new(vec![6, 0, 0, 0, b'h', b'e']);
    let e = reader.read_fstring().unwrap_err();
    assert_eq!(e.kind, ErrorKind::CorruptManifest);
    assert_eq!(reader.position(), 0);
    let mut short = ByteReader::new(vec![6, 0]);
    assert_eq!(short.read_fstring().unwrap_err().kind, ErrorKind::CorruptManifest);
}

#[test]
fn array_reads_a_count_and_then_the_items() {
    let mut bytes = 2i32.to_le_bytes().to_vec();
    bytes.extend_from_slice(&[3, 0, 0, 0, b'a', b'b', 0]);
    bytes.extend_from_slice(&[0, 0, 0, 0]);
    bytes.push(0x55);
    let mut reader = ByteReader::new(bytes);
    let items: Vec<String> = read_tarray::<String>(&mut reader).unwrap();
    assert_eq!(items, vec!["ab".to_string(), String::new()]);
    assert_eq!(reader.position(), 15);
}

#[test]
fn array_with_a_negative_count_is_corrupt() {
    let mut reader = ByteReader::new((-1i32).to_le_bytes().to_vec());
    let e = read_tarray::<u8>(&mut reader).unwrap_err();
    assert_eq!(e.kind, ErrorKind::CorruptManifest);
    assert_eq!(reader.position(), 0);
}

#[test]
fn array_that_fails_in_an_item_does_not_move() {
    let mut bytes = 2i32.to_le_bytes().to_vec();
    bytes.extend_from_slice(&[3, 0, 0, 0, b'a', b'b', 0]);
    bytes.extend_from_slice(&(-4i32).to_le_bytes());
    let mut reader = ByteReader::new(bytes);
    let e = read_tarray::<String>(&mut reader).unwrap_err();
    assert_eq!(e.kind, ErrorKind::UnsupportedEncoding);
    assert_eq!(reader.position(), 0);
}

#[test]
fn sized_array_reads_exactly_n_items() {
    let mut reader = ByteReader::new(vec![1, 0, 0, 0, 0, 0, 0, 0, 2, 0, 0, 0, 0, 0, 0, 0, 9]);
    let items: Vec<u64> = read_sized_tarray::<u64>(&mut reader, 2).unwrap();
    assert_eq!(items, vec![1u64, 2u64]);
    assert_eq!(reader.position(), 16);
    let none: Vec<u64> = read_sized_tarray::<u64>(&mut reader, 0).unwrap();
    assert!(none.is_empty());
    assert_eq!(reader.position(), 16);
    let e = read_sized_tarray::<u64>(&mut reader, 1).unwrap_err();
    assert_eq!(e.kind, ErrorKind::CorruptManifest);
    assert_eq!(reader.position(), 16);
}

#[test]
fn nested_arrays_are_read_in_byte_order() {
    let mut bytes = 2i32.to_le_bytes().to_vec();
    bytes.extend_from_slice(&1i32.to_le_bytes());
    bytes.extend_from_slice(&[2, 0, 0, 0, b'x', 0]);
    bytes.extend_from_slice(&0i32.to_le_bytes());
    let mut reader = ByteReader::new(bytes);
    let lists: Vec<Vec<String>> = read_tarray::<Vec<String>>(&mut reader).unwrap();
    assert_eq!(lists, vec![vec!["x".to_string()], vec![]]);
    assert_eq!(reader.remaining(), 0);
}

#[test]
fn reader_ext_reads_a_little_endian_i32() {
    let mut reader = ByteReader::new(vec![0xFE, 0xFF, 0xFF, 0xFF]);
    assert_eq!(ReaderExt::read_i32_le(&mut reader).unwrap(), -2);
    assert!(ReaderExt::read_i32_le(&mut reader).is_err());
}
