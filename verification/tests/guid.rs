use epic_manifest_parser::manifest::{ChunkSha, FGuid};
use epic_manifest_parser::reader::ByteReader;
use epic_manifest_parser::text::hex_u64;
use epic_manifest_parser::ErrorKind;

fn is_upper_hex(text: &str) -> bool {
    text.chars().all(|c| matches!(c, '0'..='9' | 'A'..='F'))
}

#[test]
fn guid_text_is_32_upper_hex_digits() {
    let g = FGuid { a: 0x00112233, b: 0x44556677, c: 0x8899AABB, d: 0xCCDDEEFF };
    assert_eq!(g.to_string(), "00112233445566778899AABBCCDDEEFF");
}

#[test]
fn guid_text_pads_each_lane_with_zeros() {
    let g = FGuid { a: 1, b: 0, c: 0xABC, d: 0xF0000000 };
    assert_eq!(g.to_string(), "000000010000000000000ABCF0000000");
    assert_eq!(g.to_string().len(), 32);
}

#[test]
fn guid_text_reads_back() {
    let samples = [
        FGuid { a: 0, b: 0, c: 0, d: 0 },
        FGuid { a: 1, b: 0xFFFFFFFF, c: 0, d: 0xDEADBEEF },
        FGuid { a: 0x00112233, b: 0x44556677, c: 0x8899AABB, d: 0xCCDDEEFF },
        FGuid { a: u32::MAX, b: u32::MAX, c: u32::MAX, d: u32::MAX },
    ];
    for g in samples {
        assert_eq!(FGuid::parse(&g.to_string()), Some(g));
    }
}

#[test]
fn guid_parse_refuses_what_is_not_canonical() {
    assert_eq!(FGuid::parse(""), None);
    assert_eq!(FGuid::parse("xyz"), None);
    assert_eq!(FGuid::parse("00112233445566778899aabbccddeeff"), None);
    assert_eq!(FGuid::parse("00112233445566778899AABBCCDDEEF"), None);
    assert_eq!(FGuid::parse("00112233445566778899AABBCCDDEEFF0"), None);
    assert_eq!(FGuid::parse("0011223344556677G899AABBCCDDEEFF"), None);
}

#[test]
fn guid_is_read_as_four_little_endian_lanes() {
    let bytes: Vec<u8> = vec![
        0x33, 0x22, 0x11, 0x00, 0x77, 0x66, 0x55, 0x44, 0xBB, 0xAA, 0x99, 0x88, 0xFF, 0xEE, 0xDD,
        0xCC, 0x01,
    ];
    let mut reader = ByteReader::new(bytes);
    let g = FGuid::new(&mut reader).unwrap();
    assert_eq!(g, FGuid { a: 0x00112233, b: 0x44556677, c: 0x8899AABB, d: 0xCCDDEEFF });
    assert_eq!(reader.position(), 16);
}

#[test]
fn guid_read_fails_on_fifteen_bytes_and_does_not_move() {
    let mut reader = ByteReader::new(vec![0u8; 15]);
    let e = FGuid::new(&mut reader).unwrap_err();
    assert_eq!(e.kind, ErrorKind::CorruptManifest);
    assert_eq!(reader.position(), 0);
}

#[test]
fn guid_key_orders_lanes_from_a_down() {
    let g = FGuid { a: 1, b: 2, c: 3, d: 4 };
    assert_eq!(g.to_key(), (1u128 << 96) | (2u128 << 64) | (3u128 << 32) | 4u128);
}

#[test]
fn rolling_hash_text_is_16_upper_hex_digits() {
    assert_eq!(hex_u64(0x0123456789ABCDEF), "0123456789ABCDEF");
    assert_eq!(hex_u64(0), "0000000000000000");
    assert_eq!(hex_u64(u64::MAX), "FFFFFFFFFFFFFFFF");
    assert_eq!(hex_u64(0xabc), "0000000000000ABC");
    for v in [0u64, 1, 0xdead_beef, u64::MAX, 0x8000_0000_0000_0000] {
        let text = hex_u64(v);
        assert_eq!(text.len(), 16);
        assert!(is_upper_hex(&text));
        assert_eq!(u64::from_str_radix(&text, 16).unwrap(), v);
    }
}

#[test]
fn sha_text_is_40_upper_hex_digits() {
    let mut bytes: Vec<u8> = (0u8..20).map(|i| i.wrapping_mul(13).wrapping_add(0xA5)).collect();
    bytes.push(0xFF);
    let mut reader = ByteReader::new(bytes.clone());
    let sha = ChunkSha::new(&mut reader).unwrap();
    assert_eq!(reader.position(), 20);
    assert_eq!(&sha.data[..], &bytes[..20]);
    let text = sha.to_string();
    assert_eq!(text.len(), 40);
    assert!(is_upper_hex(&text));
    let expected: String = bytes[..20].iter().map(|b| format!("{:02X}", b)).collect();
    assert_eq!(text, expected);
}

#[test]
fn sha_text_of_known_bytes() {
    let mut data = [0u8; 20];
    data[0] = 0xDE;
    data[1] = 0xAD;
    data[19] = 0x0F;
    let sha = ChunkSha { data };
    assert_eq!(sha.to_string(), "DEAD00000000000000000000000000000000000F");
}

#[test]
fn sha_read_fails_on_nineteen_bytes() {
    let mut reader = ByteReader::new(vec![7u8; 19]);
    let e = ChunkSha::new(&mut reader).unwrap_err();
    assert_eq!(e.kind, ErrorKind::CorruptManifest);
    assert_eq!(reader.position(), 0);
}
