use epic_manifest_parser::assemble::{place, zeroed};
use epic_manifest_parser::chunk::{
    checked_total_size, ChunkDownload, ChunkIndex, FileChunk, FileChunkPart, FileManifest,
    FileManifestBuilder, ManifestContext,
};
use epic_manifest_parser::fetch::{chunk_body, chunk_frame};
use epic_manifest_parser::manifest::FGuid;
use epic_manifest_parser::reader::ByteReader;
use epic_manifest_parser::ErrorKind;
use miniz_oxide::deflate::compress_to_vec_zlib;
use std::sync::Arc;

const G: FGuid = FGuid { a: 0x00112233, b: 0x44556677, c: 0x8899AABB, d: 0xCCDDEEFF };
const G1: FGuid = FGuid { a: 1, b: 1, c: 1, d: 1 };
const G2: FGuid = FGuid { a: 2, b: 2, c: 2, d: 2 };
const G_TEXT: &str = "00112233445566778899AABBCCDDEEFF";

fn chunk(guid: FGuid, group: u8) -> FileChunk {
    FileChunk::new(guid, 11, "0123456789ABCDEF", "AA", group, "https://h/")
}

fn index(guids: &[FGuid]) -> ChunkIndex {
    let mut chunks = ChunkIndex::new();
    for g in guids {
        chunks.insert(chunk(*g, 3));
    }
    chunks
}

fn context(guids: &[FGuid]) -> ManifestContext {
    ManifestContext::new(index(guids), None)
}

fn file(parts: Vec<FileChunkPart>) -> FileManifest {
    FileManifest::new("f".to_string(), "00".to_string(), vec![], parts)
}

/// A chunk file with a header of `header_size` bytes.
fn chunk_file(header_size: usize, flag: u8, stored: &[u8]) -> Vec<u8> {
    let mut raw = vec![0xB1, 0xFE, 0x3A, 0xA2, 3, 0, 0, 0];
    raw.extend_from_slice(&(header_size as i32).to_le_bytes());
    raw.extend_from_slice(&[0x11; 28]);
    raw.push(flag);
    while raw.len() < header_size {
        raw.push(0x22);
    }
    raw.extend_from_slice(stored);
    raw
}

#[test]
fn chunk_uri_is_composed_of_base_group_hash_and_guid() {
    let c = FileChunk::new(G, 11, "0123456789ABCDEF", "SHA", 7, "https://h/");
    assert_eq!(c.file_name, format!("0123456789ABCDEF_{}.chunk", G_TEXT));
    assert_eq!(c.uri, format!("https://h/07/0123456789ABCDEF_{}.chunk", G_TEXT));
    assert_eq!(c.guid, G);
    assert_eq!(c.size, 11);
    assert_eq!(c.hash, "0123456789ABCDEF");
    assert_eq!(c.sha, "SHA");
    assert_eq!(c.data_group, 7);
}

#[test]
fn data_group_is_written_in_at_least_two_decimal_digits() {
    let uri = |group: u8| chunk(G, group).uri;
    assert_eq!(uri(0), format!("https://h/00/0123456789ABCDEF_{}.chunk", G_TEXT));
    assert_eq!(uri(3), format!("https://h/03/0123456789ABCDEF_{}.chunk", G_TEXT));
    assert_eq!(uri(42), format!("https://h/42/0123456789ABCDEF_{}.chunk", G_TEXT));
    assert_eq!(uri(99), format!("https://h/99/0123456789ABCDEF_{}.chunk", G_TEXT));
    assert_eq!(uri(100), format!("https://h/100/0123456789ABCDEF_{}.chunk", G_TEXT));
    assert_eq!(uri(255), format!("https://h/255/0123456789ABCDEF_{}.chunk", G_TEXT));
}

#[test]
fn chunk_index_finds_by_identifier_and_replaces() {
    let mut chunks = ChunkIndex::new();
    assert_eq!(chunks.len(), 0);
    assert!(chunks.get(&G1).is_none());
    chunks.insert(chunk(G1, 1));
    chunks.insert(chunk(G2, 2));
    assert_eq!(chunks.len(), 2);
    assert_eq!(chunks.get(&G1).unwrap().data_group, 1);
    assert_eq!(chunks.get(&G2).unwrap().data_group, 2);
    chunks.insert(chunk(G1, 9));
    assert_eq!(chunks.len(), 2);
    assert_eq!(chunks.get(&G1).unwrap().data_group, 9);
    assert!(chunks.contains(&G2));
    assert!(!chunks.contains(&G));
    let near = FGuid { a: 1, b: 1, c: 1, d: 2 };
    assert!(chunks.get(&near).is_none());
}

#[test]
fn part_record_is_28_bytes() {
    let mut bytes = vec![28, 0, 0, 0];
    for lane in [G.a, G.b, G.c, G.d] {
        bytes.extend_from_slice(&lane.to_le_bytes());
    }
    bytes.extend_from_slice(&4i32.to_le_bytes());
    bytes.extend_from_slice(&(-3i32).to_le_bytes());
    bytes.push(0xFF);
    let mut reader = ByteReader::new(bytes.clone());
    let part = FileChunkPart::new(&mut reader).unwrap();
    assert_eq!(part, FileChunkPart { guid: G, offset: 4, size: -3 });
    assert_eq!(reader.position(), 28);
    let mut short = ByteReader::new(bytes[..27].to_vec());
    let e = FileChunkPart::new(&mut short).unwrap_err();
    assert_eq!(e.kind, ErrorKind::CorruptManifest);
    assert_eq!(short.position(), 0);
}

#[test]
fn file_size_is_the_sum_of_part_sizes() {
    let parts = vec![
        FileChunkPart { guid: G1, offset: 4, size: 3 },
        FileChunkPart { guid: G2, offset: 0, size: 2 },
        FileChunkPart { guid: G2, offset: 9, size: 0 },
        FileChunkPart { guid: G2, offset: 9, size: 1000 },
    ];
    assert_eq!(checked_total_size(&parts), Some(1005));
    assert_eq!(checked_total_size(&vec![]), Some(0));
    let f = FileManifest::new("n".to_string(), "h".to_string(), vec!["t".to_string()], parts.clone());
    assert_eq!(f.size, 1005);
    assert_eq!(f.name, "n");
    assert_eq!(f.hash, "h");
    assert_eq!(f.install_tags, vec!["t".to_string()]);
    assert_eq!(f.chunk_parts, parts);
}

#[test]
fn negative_part_size_adds_nothing_to_the_file_size() {
    let parts = vec![
        FileChunkPart { guid: G1, offset: 0, size: 5 },
        FileChunkPart { guid: G1, offset: 0, size: -4 },
    ];
    assert_eq!(checked_total_size(&parts), Some(5));
    assert_eq!(file(parts).size, 5);
}

#[test]
fn builder_builds_what_was_set() {
    let parts = vec![FileChunkPart { guid: G1, offset: 1, size: 2 }];
    let mut builder = FileManifestBuilder::new("dir/a.bin");
    assert_eq!(builder.name, "dir/a.bin");
    assert!(builder.hash.is_none());
    assert!(builder.install_tags.is_none());
    assert!(builder.chunk_parts.is_none());
    assert!(builder.chunks.is_none());
    builder
        .set_hash("ABCD")
        .set_install_tags(vec!["x".to_string()])
        .set_chunk_parts(parts.clone())
        .set_chunks(Arc::new(index(&[G1])));
    assert_eq!(builder.hash, Some("ABCD".to_string()));
    assert!(builder.chunks.is_some());
    let f = builder.build();
    assert_eq!(f.name, "dir/a.bin");
    assert_eq!(f.hash, "ABCD");
    assert_eq!(f.install_tags, vec!["x".to_string()]);
    assert_eq!(f.chunk_parts, parts);
    assert_eq!(f.size, 2);
}

#[test]
fn builder_leaves_empty_what_was_not_set() {
    let f = FileManifestBuilder::new("n").build();
    assert_eq!(f.name, "n");
    assert_eq!(f.hash, "");
    assert!(f.install_tags.is_empty());
    assert!(f.chunk_parts.is_empty());
    assert_eq!(f.size, 0);
}

#[test]
fn download_takes_uri_and_name_from_the_chunk() {
    let chunks = context(&[G]);
    let part = FileChunkPart { guid: G, offset: 4, size: 3 };
    let d = ChunkDownload::new(&part, &chunks, 17).ok().unwrap();
    assert_eq!(d.uri, format!("https://h/03/0123456789ABCDEF_{}.chunk", G_TEXT));
    assert_eq!(d.file_name, format!("0123456789ABCDEF_{}.chunk", G_TEXT));
    assert_eq!(d.offset, 4);
    assert_eq!(d.size, 3);
    assert_eq!(d.position, 17);
}

#[test]
fn download_of_an_unsound_part_is_corrupt() {
    let chunks = context(&[G]);
    let unknown = "unknown chunk 00000001000000010000000100000001".to_string();
    let negative = format!("negative range in chunk {}", G_TEXT);
    for (part, words) in [
        (FileChunkPart { guid: G1, offset: 0, size: 1 }, &unknown),
        (FileChunkPart { guid: G1, offset: -1, size: -1 }, &unknown),
        (FileChunkPart { guid: G, offset: -1, size: 1 }, &negative),
        (FileChunkPart { guid: G, offset: 0, size: -1 }, &negative),
    ] {
        let e = ChunkDownload::new(&part, &chunks, 0).err().unwrap();
        assert_eq!(e.kind, ErrorKind::CorruptManifest);
        assert_eq!(&e.to_string(), words);
    }
}

#[test]
fn plan_places_each_part_behind_the_parts_before_it() {
    let chunks = context(&[G1, G2]);
    let f = file(vec![
        FileChunkPart { guid: G1, offset: 4, size: 3 },
        FileChunkPart { guid: G2, offset: 0, size: 2 },
        FileChunkPart { guid: G1, offset: 1, size: 0 },
        FileChunkPart { guid: G1, offset: 0, size: 7 },
    ]);
    let plan = f.plan(&chunks).ok().unwrap();
    let laid: Vec<(usize, usize, usize)> =
        plan.iter().map(|d| (d.offset, d.size, d.position)).collect();
    assert_eq!(laid, vec![(4, 3, 0), (0, 2, 3), (1, 0, 5), (0, 7, 5)]);
    assert_eq!(plan[1].uri, chunks.chunks.get(&G2).unwrap().uri);
    assert!(file(vec![]).plan(&chunks).ok().unwrap().is_empty());
}

#[test]
fn plan_of_a_file_with_an_unknown_chunk_is_corrupt() {
    let chunks = context(&[G1]);
    let f = file(vec![
        FileChunkPart { guid: G1, offset: 0, size: 1 },
        FileChunkPart { guid: G2, offset: 0, size: 1 },
    ]);
    let e = f.plan(&chunks).err().unwrap();
    assert_eq!(e.kind, ErrorKind::CorruptManifest);
    assert_eq!(e.to_string(), "file f: unknown chunk 00000002000000020000000200000002");
}

#[test]
fn place_copies_the_range_and_leaves_the_rest() {
    let chunks = context(&[G]);
    let d = ChunkDownload::new(&FileChunkPart { guid: G, offset: 4, size: 3 }, &chunks, 2)
        .ok()
        .unwrap();
    let mut out = vec![9u8; 7];
    place(&mut out, &d, b"xxxxABCdd").unwrap();
    assert_eq!(out, vec![9, 9, b'A', b'B', b'C', 9, 9]);
}

#[test]
fn place_refuses_what_does_not_fit_and_writes_nothing() {
    let chunks = context(&[G]);
    let d = ChunkDownload::new(&FileChunkPart { guid: G, offset: 4, size: 3 }, &chunks, 2)
        .ok()
        .unwrap();
    let mut out = vec![9u8; 7];
    let e = place(&mut out, &d, b"xxxxAB").unwrap_err();
    assert_eq!(e.kind, ErrorKind::CorruptManifest);
    assert_eq!(
        e.to_string(),
        format!("chunk 0123456789ABCDEF_{}.chunk: the data is corrupt or truncated", G_TEXT)
    );
    assert_eq!(out, vec![9u8; 7]);
    let mut small = vec![9u8; 4];
    assert!(place(&mut small, &d, b"xxxxABCdd").is_err());
    assert_eq!(small, vec![9u8; 4]);
    let mut exact = vec![9u8; 5];
    place(&mut exact, &d, b"xxxxABC").unwrap();
    assert_eq!(exact, vec![9, 9, b'A', b'B', b'C']);
}

#[test]
fn zeroed_output_is_all_zero() {
    assert_eq!(zeroed(0), Vec::<u8>::new());
    assert_eq!(zeroed(5), vec![0u8; 5]);
}

#[test]
fn single_part_file_is_assembled_from_a_fetched_chunk() {
    let mut chunks = ChunkIndex::new();
    chunks.insert(FileChunk::new(G, 11, "0123456789ABCDEF", "", 3, "https://cdn/base/"));
    assert_eq!(
        chunks.get(&G).unwrap().uri,
        format!("https://cdn/base/03/0123456789ABCDEF_{}.chunk", G_TEXT)
    );
    let chunks = ManifestContext::new(chunks, None);
    let f = file(vec![FileChunkPart { guid: G, offset: 0, size: 11 }]);
    let body = chunk_body(chunk_file(41, 0, b"hello world")).unwrap();
    let out = f.assemble(&chunks, &vec![body]).unwrap();
    assert_eq!(out, b"hello world".to_vec());
    assert_eq!(out.len(), f.size);
}

#[test]
fn multi_part_file_is_assembled_in_part_order() {
    let chunks = context(&[G1, G2]);
    let f = file(vec![
        FileChunkPart { guid: G1, offset: 4, size: 3 },
        FileChunkPart { guid: G2, offset: 0, size: 2 },
    ]);
    let bodies = vec![b"xxxxABCdd".to_vec(), b"YZ...".to_vec()];
    let out = f.assemble(&chunks, &bodies).unwrap();
    assert_eq!(out, b"ABCYZ".to_vec());
    assert_eq!(out.len(), 5);
}

#[test]
fn assembled_length_is_the_sum_of_part_sizes() {
    let chunks = context(&[G1, G2]);
    let body1: Vec<u8> = (0u8..200).collect();
    let body2: Vec<u8> = (0u8..200).rev().collect();
    let parts = vec![
        FileChunkPart { guid: G1, offset: 10, size: 50 },
        FileChunkPart { guid: G2, offset: 0, size: 0 },
        FileChunkPart { guid: G2, offset: 199, size: 1 },
        FileChunkPart { guid: G1, offset: 0, size: 200 },
        FileChunkPart { guid: G1, offset: 10, size: 50 },
    ];
    let f = file(parts.clone());
    let bodies = vec![body1.clone(), body2.clone(), body2.clone(), body1.clone(), body1.clone()];
    let out = f.assemble(&chunks, &bodies).unwrap();
    assert_eq!(out.len(), 301);
    assert_eq!(out.len(), parts.iter().map(|p| p.size as usize).sum::<usize>());
    let mut expected = body1[10..60].to_vec();
    expected.push(body2[199]);
    expected.extend_from_slice(&body1);
    expected.extend_from_slice(&body1[10..60]);
    assert_eq!(out, expected);
    assert_eq!(file(vec![]).assemble(&chunks, &vec![]).unwrap(), Vec::<u8>::new());
}

#[test]
fn assemble_fails_where_file_or_bodies_do_not_fit() {
    let chunks = context(&[G1, G]);
    let f = file(vec![
        FileChunkPart { guid: G1, offset: 0, size: 1 },
        FileChunkPart { guid: G, offset: 4, size: 3 },
        FileChunkPart { guid: G1, offset: 4, size: 3 },
    ]);
    let short = vec![b"a".to_vec(), b"xxxxAB".to_vec(), b"".to_vec()];
    let e = f.assemble(&chunks, &short).unwrap_err();
    assert_eq!(e.kind, ErrorKind::CorruptManifest);
    assert_eq!(
        e.to_string(),
        format!("chunk 0123456789ABCDEF_{}.chunk: the data is corrupt or truncated", G_TEXT)
    );
    let e = f.assemble(&chunks, &vec![]).unwrap_err();
    assert_eq!(e.to_string(), "chunk file: the data is corrupt or truncated");
    let many = vec![b"a".to_vec(), b"xxxxABC".to_vec(), b"xxxxABC".to_vec(), vec![]];
    let e = f.assemble(&chunks, &many).unwrap_err();
    assert_eq!(e.kind, ErrorKind::CorruptManifest);
    assert_eq!(e.to_string(), "chunk file: the data is corrupt or truncated");
    let unknown = file(vec![FileChunkPart { guid: G2, offset: 0, size: 1 }]);
    let e = unknown.assemble(&chunks, &vec![b"a".to_vec()]).unwrap_err();
    assert_eq!(e.to_string(), "file f: unknown chunk 00000002000000020000000200000002");
}

#[test]
fn placing_in_any_order_gives_the_same_file() {
    let chunks = context(&[G1, G2]);
    let f = file(vec![
        FileChunkPart { guid: G1, offset: 4, size: 3 },
        FileChunkPart { guid: G2, offset: 0, size: 2 },
        FileChunkPart { guid: G1, offset: 0, size: 4 },
        FileChunkPart { guid: G2, offset: 2, size: 3 },
    ]);
    let bodies = vec![b"xxxxABCdd".to_vec(), b"YZ...".to_vec(), b"xxxxABCdd".to_vec(), b"YZ...".to_vec()];
    let expected = f.assemble(&chunks, &bodies).unwrap();
    assert_eq!(expected, b"ABCYZxxxx...".to_vec());
    let plan = f.plan(&chunks).ok().unwrap();
    let orders: [&[usize]; 5] =
        [&[0, 1, 2, 3], &[3, 2, 1, 0], &[2, 0, 3, 1], &[1, 3, 0, 2], &[0, 0, 3, 1, 2, 3]];
    for order in orders {
        let mut out = zeroed(f.size);
        for &i in order {
            place(&mut out, &plan[i], &bodies[i]).unwrap();
        }
        assert_eq!(out, expected);
    }
}

#[test]
fn chunk_header_gives_start_and_compression_of_the_body() {
    let raw = chunk_file(41, 0, b"hello world");
    let (back, start, compressed) = chunk_frame(raw.clone()).unwrap();
    assert_eq!(back, raw);
    assert_eq!(start, 41);
    assert!(!compressed);
    let (_, start, compressed) = chunk_frame(chunk_file(62, 1, b"zz")).unwrap();
    assert_eq!(start, 62);
    assert!(compressed);
    let (_, _, compressed) = chunk_frame(chunk_file(41, 2, b"zz")).unwrap();
    assert!(!compressed);
}

#[test]
fn uncompressed_chunk_body_runs_from_the_header_to_the_end() {
    assert_eq!(chunk_body(chunk_file(41, 0, b"hello world")).unwrap(), b"hello world".to_vec());
    assert_eq!(chunk_body(chunk_file(66, 0, b"abc")).unwrap(), b"abc".to_vec());
    assert_eq!(chunk_body(chunk_file(41, 0, b"")).unwrap(), Vec::<u8>::new());
}

#[test]
fn compressed_chunk_body_is_inflated() {
    let plain: Vec<u8> = (0..5000u32).map(|i| (i % 251) as u8).collect();
    let packed = compress_to_vec_zlib(&plain, 6);
    assert_ne!(packed, plain);
    assert_eq!(chunk_body(chunk_file(62, 1, &packed)).unwrap(), plain);
    assert_eq!(
        chunk_body(chunk_file(41, 1, &compress_to_vec_zlib(b"hello world", 9))).unwrap(),
        b"hello world".to_vec()
    );
}

#[test]
fn chunk_file_that_is_cut_or_does_not_inflate_is_corrupt() {
    for raw in [vec![], vec![0u8; 11], vec![0u8; 40]] {
        let e = chunk_body(raw).unwrap_err();
        assert_eq!(e.kind, ErrorKind::CorruptManifest);
        assert_eq!(e.to_string(), "chunk file: the data is corrupt or truncated");
    }
    let mut far = chunk_file(41, 0, b"abc");
    far[8..12].copy_from_slice(&45i32.to_le_bytes());
    assert_eq!(chunk_body(far).unwrap_err().kind, ErrorKind::CorruptManifest);
    let mut negative = chunk_file(41, 0, b"abc");
    negative[8..12].copy_from_slice(&(-1i32).to_le_bytes());
    assert_eq!(chunk_body(negative).unwrap_err().kind, ErrorKind::CorruptManifest);
    let e = chunk_body(chunk_file(41, 1, b"this is no zlib stream")).unwrap_err();
    assert_eq!(e.kind, ErrorKind::CorruptManifest);
    let mut cut = compress_to_vec_zlib(b"hello world, hello world", 6);
    cut.truncate(cut.len() - 3);
    assert_eq!(chunk_body(chunk_file(41, 1, &cut)).unwrap_err().kind, ErrorKind::CorruptManifest);
    let end = chunk_file(44, 0, b"");
    assert_eq!(chunk_body(end).unwrap(), Vec::<u8>::new());
}
