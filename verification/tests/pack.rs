use gdpatch::pack::{Pack, PackBuilder, PackConfig, PackFormat, PackedFile};
use gdpatch::Error;

fn u32le(v: u32) -> [u8; 4] {
    v.to_le_bytes()
}

fn entry(out: &mut Vec<u8>, path: &[u8], offset: u64, size: u64, hash: u8, flags: u32) {
    out.extend_from_slice(&u32le(path.len() as u32));
    out.extend_from_slice(path);
    out.extend_from_slice(&offset.to_le_bytes());
    out.extend_from_slice(&size.to_le_bytes());
    out.extend_from_slice(&[hash; 16]);
    out.extend_from_slice(&u32le(flags));
}

fn v2_pack(flags: u32) -> Vec<u8> {
    let mut out = Vec::new();
    out.extend_from_slice(b"GDPC");
    out.extend_from_slice(&u32le(2));
    out.extend_from_slice(&u32le(4));
    out.extend_from_slice(&u32le(2));
    out.extend_from_slice(&u32le(1));
    out.extend_from_slice(&u32le(flags));
    out.extend_from_slice(&1000u64.to_le_bytes());
    out.extend_from_slice(&[0u8; 64]);
    out.extend_from_slice(&u32le(3));
    entry(&mut out, b"res://a.txt\0", 100, 5, 1, 0);
    entry(&mut out, b"res://b.bin", 200, 1, 2, 4);
    entry(&mut out, b"res://a.txt", 300, 7, 3, 1);
    out
}

#[test]
fn parses_a_version_2_pack() {
    let pack = Pack::parse(&v2_pack(0), &PackConfig::default(), 0).unwrap();
    assert_eq!(pack.format, PackFormat::V2);
    assert_eq!(pack.engine_version, (4, 2, 1));
    assert_eq!(pack.file_base, 1000);
    assert!(pack.salt.is_none());
    assert_eq!(pack.files.len(), 1);
    let a = pack.files.get("res://a.txt").unwrap();
    assert_eq!(a.offset, 1300);
    assert_eq!(a.size, 7);
    assert!(a.encrypted);
    assert_eq!(a.hash, [3u8; 16]);
    assert_eq!(pack.deltas.len(), 1);
    let d = pack.deltas.get(&[2u8; 16]).unwrap();
    assert_eq!(d.len(), 1);
    assert_eq!(d[0].offset, 1200);
}

#[test]
fn parses_a_version_3_pack() {
    let mut out = Vec::new();
    out.extend_from_slice(b"GDPC");
    out.extend_from_slice(&u32le(3));
    out.extend_from_slice(&u32le(4));
    out.extend_from_slice(&u32le(3));
    out.extend_from_slice(&u32le(0));
    out.extend_from_slice(&u32le(2));
    out.extend_from_slice(&0u64.to_le_bytes());
    out.extend_from_slice(&48u64.to_le_bytes());
    out.extend_from_slice(&[0u8; 8]);
    out.extend_from_slice(&u32le(1));
    entry(&mut out, b"x", 5, 6, 0, 0);
    let pack = Pack::parse(&out, &PackConfig::default(), 0).unwrap();
    assert_eq!(pack.format, PackFormat::V3);
    assert_eq!(pack.files.get("x").unwrap().offset, 5);
}

#[test]
fn header_errors() {
    let mut bad_magic = v2_pack(0);
    bad_magic[0] = b'X';
    assert!(matches!(Pack::parse(&bad_magic, &PackConfig::default(), 0), Err(Error::BadData)));
    let mut bad_format = v2_pack(0);
    bad_format[4] = 9;
    assert!(matches!(Pack::parse(&bad_format, &PackConfig::default(), 0), Err(Error::UnknownVersion(9))));
    assert!(matches!(Pack::parse(&v2_pack(0)[..50], &PackConfig::default(), 0), Err(Error::TooShort)));
    assert!(matches!(Pack::parse(&v2_pack(1), &PackConfig::default(), 0), Err(Error::BadData)));
    assert!(matches!(Pack::parse(&[1, 2], &PackConfig::default(), 0), Err(Error::TooShort)));
}

#[test]
fn truncated_directory() {
    let full = v2_pack(0);
    assert!(matches!(Pack::parse(&full[..full.len() - 1], &PackConfig::default(), 0), Err(Error::TooShort)));
}

#[test]
fn custom_header_magic() {
    assert_eq!(PackConfig::default().header_magic(), 0x43504447);
    let config = PackConfig::new(Some("ABCDE".to_string()));
    assert_eq!(config.header_magic(), u32::from_le_bytes(*b"ABCD"));
    let mut data = v2_pack(0);
    data[..4].copy_from_slice(b"ABCD");
    assert!(Pack::parse(&data, &config, 0).is_ok());
}

fn builder_with_two_files(format: PackFormat) -> PackBuilder {
    let mut b = PackBuilder::new(format, (4, 3, 0));
    b.files.insert(
        "res://one.txt".to_string(),
        PackedFile { encrypted: false, offset: 0, size: 3, hash: [7u8; 16] },
    );
    b.files.insert(
        "res://two.bin".to_string(),
        PackedFile { encrypted: false, offset: 3, size: 10, hash: [9u8; 16] },
    );
    b
}

#[test]
fn builder_writes_a_version_3_header() {
    let bytes = builder_with_two_files(PackFormat::V3).encode(&PackConfig::default(), 0);
    assert_eq!(&bytes[0..4], b"GDPC");
    assert_eq!(&bytes[4..8], &u32le(3));
    assert_eq!(&bytes[8..20], &[4, 0, 0, 0, 3, 0, 0, 0, 0, 0, 0, 0]);
    assert_eq!(&bytes[20..24], &u32le(0));
    // header 40, count 4, two entries of 40 + 13 bytes
    let dir_len = 4 + 2 * (40 + 13);
    assert_eq!(bytes.len(), 40 + dir_len);
    assert_eq!(&bytes[24..32], &((40 + dir_len) as u64).to_le_bytes());
    assert_eq!(&bytes[32..40], &40u64.to_le_bytes());
    assert_eq!(&bytes[40..44], &u32le(2));
    assert_eq!(&bytes[44..48], &u32le(13));
    assert_eq!(&bytes[48..61], b"res://one.txt");
}

#[test]
fn builder_output_parses_back() {
    for format in [PackFormat::V2, PackFormat::V3, PackFormat::V4] {
        let bytes = builder_with_two_files(format).encode(&PackConfig::default(), 0);
        let pack = Pack::parse(&bytes, &PackConfig::default(), 0).unwrap();
        assert_eq!(pack.format, format);
        assert_eq!(pack.engine_version, (4, 3, 0));
        assert!(pack.salt.is_none());
        assert_eq!(pack.file_base, bytes.len() as u64);
        let names: Vec<&String> = pack.files.keys().collect();
        assert_eq!(names, vec!["res://one.txt", "res://two.bin"]);
        let two = pack.files.get("res://two.bin").unwrap();
        assert_eq!(two.offset, bytes.len() as u64 + 3);
        assert_eq!(two.size, 10);
        assert_eq!(two.hash, [9u8; 16]);
        assert!(!two.encrypted);
        assert!(pack.deltas.is_empty());
    }
}

#[test]
fn builder_version_2_base_is_absolute() {
    let b = builder_with_two_files(PackFormat::V2);
    let bytes = b.encode(&PackConfig::default(), 1000);
    assert_eq!(bytes.len(), 96 + 4 + 2 * 53);
    assert_eq!(&bytes[24..32], &(1000 + bytes.len() as u64).to_le_bytes());
    assert!(bytes[32..96].iter().all(|&x| x == 0));
    let v3 = builder_with_two_files(PackFormat::V3).encode(&PackConfig::default(), 1000);
    assert_eq!(&v3[24..32], &(v3.len() as u64).to_le_bytes());
}

#[test]
fn builder_uses_configured_magic() {
    let config = PackConfig::new(Some("ABCDEF".to_string()));
    let bytes = PackBuilder::new(PackFormat::V4, (4, 4, 1)).encode(&config, 0);
    assert_eq!(&bytes[0..4], b"ABCD");
    assert_eq!(bytes.len(), 44);
    let pack = Pack::parse(&bytes, &config, 0).unwrap();
    assert!(pack.files.is_empty());
    assert_eq!(pack.engine_version, (4, 4, 1));
}

#[test]
fn header_position_moves_relative_file_bases() {
    let mut out = Vec::new();
    out.extend_from_slice(b"GDPC");
    out.extend_from_slice(&u32le(3));
    out.extend_from_slice(&u32le(4));
    out.extend_from_slice(&u32le(3));
    out.extend_from_slice(&u32le(0));
    out.extend_from_slice(&u32le(2));
    out.extend_from_slice(&0u64.to_le_bytes());
    out.extend_from_slice(&48u64.to_le_bytes());
    out.extend_from_slice(&[0u8; 8]);
    out.extend_from_slice(&u32le(1));
    entry(&mut out, b"x", 5, 6, 0, 0);
    let pack = Pack::parse(&out, &PackConfig::default(), 100).unwrap();
    assert_eq!(pack.file_base, 100);
    assert_eq!(pack.files.get("x").unwrap().offset, 105);
    let v2 = Pack::parse(&v2_pack(0), &PackConfig::default(), 100).unwrap();
    assert_eq!(v2.file_base, 1000);
    let v2_relative = Pack::parse(&v2_pack(2), &PackConfig::default(), 100).unwrap();
    assert_eq!(v2_relative.file_base, 1100);
    assert!(matches!(Pack::parse(&out, &PackConfig::default(), u64::MAX), Err(Error::BadData)));
}
