use loose_odb::find::{decode_file, decode_object_bytes, header_file, header_of_bytes, FindError};
use loose_odb::hash::{HashKind, Identifier};
use loose_odb::header::ObjectKind;
use loose_odb::iter::{id_from_entry, Iter, IterError, RawEntry};
use loose_odb::store::Store;

fn compress(data: &[u8]) -> Vec<u8> {
    let mut enc = flate2::bufread::ZlibEncoder::new(data, flate2::Compression::default());
    let mut out = Vec::new();
    std::io::Read::read_to_end(&mut enc, &mut out).unwrap();
    out
}

fn hex_string(bytes: &[u8]) -> String {
    let mut s = String::new();
    for b in bytes {
        s.push_str(&format!("{:02x}", b));
    }
    s
}

fn demo_store() -> Store {
    Store::at(b"objects".to_vec(), HashKind::Sha1)
}

#[test]
fn round_trip_blob() {
    let store = demo_store();
    let pw = store.prepare_write(ObjectKind::Blob, b"hello world");
    let d = decode_object_bytes(&pw.compressed, None).unwrap();
    assert!(matches!(d.kind, ObjectKind::Blob));
    assert_eq!(d.size, 11);
    assert_eq!(d.data, b"hello world".to_vec());
}

#[test]
fn round_trip_each_kind() {
    let store = demo_store();
    for kind in [ObjectKind::Tree, ObjectKind::Blob, ObjectKind::Commit, ObjectKind::Tag] {
        let pw = store.prepare_write(kind, b"payload");
        let d = decode_object_bytes(&pw.compressed, None).unwrap();
        assert_eq!(d.kind, kind);
        assert_eq!(d.size, 7);
        assert_eq!(d.data, b"payload".to_vec());
    }
}

#[test]
fn empty_blob_has_known_sha1() {
    let store = demo_store();
    let pw = store.prepare_write(ObjectKind::Blob, b"");
    assert_eq!(
        String::from_utf8(pw.id.to_hex()).unwrap(),
        "e69de29bb2d1d6434b8b29ae775ad8c2e48c5391"
    );
}

#[test]
fn empty_tree_has_known_sha1() {
    let store = demo_store();
    let pw = store.prepare_write(ObjectKind::Tree, b"");
    assert_eq!(
        String::from_utf8(pw.id.to_hex()).unwrap(),
        "4b825dc642cb6eb9a060e54bf8d69288fbee4904"
    );
}

#[test]
fn empty_blob_has_known_sha256() {
    let store = Store::at(b"objects".to_vec(), HashKind::Sha256);
    let pw = store.prepare_write(ObjectKind::Blob, b"");
    assert_eq!(
        String::from_utf8(pw.id.to_hex()).unwrap(),
        "473a0f4c3be8a93681a267e3b1e9a7dcda1185436fe141f7749120a303721813"
    );
}

#[test]
fn write_is_deterministic() {
    let store = demo_store();
    let a = store.prepare_write(ObjectKind::Blob, b"same bytes");
    let b = store.prepare_write(ObjectKind::Blob, b"same bytes");
    assert!(a.id == b.id);
    assert_eq!(a.compressed, b.compressed);
    assert_eq!(store.object_path(&a.id), store.object_path(&b.id));
}

#[test]
fn distinct_payloads_get_distinct_ids_and_paths() {
    let store = demo_store();
    let a = store.prepare_write(ObjectKind::Blob, b"one");
    let b = store.prepare_write(ObjectKind::Blob, b"two");
    assert!(!(a.id == b.id));
    assert_ne!(store.object_path(&a.id), store.object_path(&b.id));
}

#[test]
fn object_path_layout() {
    let store = demo_store();
    let id = Identifier::from_hex(
        HashKind::Sha1,
        b"0123456789abcdef0123456789abcdef01234567",
    )
    .unwrap();
    assert_eq!(
        store.object_path(&id),
        b"objects/01/23456789abcdef0123456789abcdef01234567".to_vec()
    );
}

#[test]
fn decode_verifies_hash_when_asked() {
    let store = demo_store();
    let pw = store.prepare_write(ObjectKind::Blob, b"check me");
    let ok = decode_object_bytes(&pw.compressed, Some(&pw.id)).unwrap();
    assert_eq!(ok.data, b"check me".to_vec());

    let other = store.prepare_write(ObjectKind::Blob, b"something else");
    let err = decode_object_bytes(&pw.compressed, Some(&other.id)).unwrap_err();
    assert_eq!(err, FindError::HashMismatch);
}

#[test]
fn size_mismatch_is_detected() {
    let crafted = compress(b"blob 10\x00hello");
    let err = decode_object_bytes(&crafted, None).unwrap_err();
    assert_eq!(err, FindError::SizeMismatch);
}

#[test]
fn malformed_headers_are_rejected() {
    let unknown_kind = compress(b"bogus 5\x00hello");
    assert_eq!(
        decode_object_bytes(&unknown_kind, None).unwrap_err(),
        FindError::MalformedHeader
    );

    let bad_size = compress(b"blob abc\x00hello");
    assert_eq!(
        decode_object_bytes(&bad_size, None).unwrap_err(),
        FindError::MalformedHeader
    );

    let no_space = compress(b"blob\x00");
    assert_eq!(
        decode_object_bytes(&no_space, None).unwrap_err(),
        FindError::MalformedHeader
    );

    let no_nul = compress(&vec![b'a'; 600]);
    assert_eq!(
        decode_object_bytes(&no_nul, None).unwrap_err(),
        FindError::MalformedHeader
    );
}

#[test]
fn corrupt_stream_is_rejected() {
    let garbage = b"this is not a zlib stream at all";
    assert_eq!(
        decode_object_bytes(garbage, None).unwrap_err(),
        FindError::CorruptCompression
    );
    assert_eq!(
        header_of_bytes(garbage).unwrap_err(),
        FindError::CorruptCompression
    );
}

#[test]
fn header_reports_kind_and_size_without_full_decode() {
    let store = demo_store();
    // A payload the compressor cannot shrink, so the header-only read
    // stays far short of the whole stream.
    let mut payload = Vec::with_capacity(100_000);
    let mut x: u32 = 0x12345678;
    for _ in 0..100_000 {
        x = x.wrapping_mul(1664525).wrapping_add(1013904223);
        payload.push((x >> 24) as u8);
    }
    let mut pw = store.prepare_write(ObjectKind::Blob, &payload);
    let (kind, size) = header_of_bytes(&pw.compressed).unwrap();
    assert_eq!(kind, ObjectKind::Blob);
    assert_eq!(size, 100_000);

    // Corrupt the stream after the part the header needs: the header is
    // still readable, while a full decode fails.
    let n = pw.compressed.len();
    for b in &mut pw.compressed[n - 8..] {
        *b = !*b;
    }
    let (kind, size) = header_of_bytes(&pw.compressed).unwrap();
    assert_eq!(kind, ObjectKind::Blob);
    assert_eq!(size, 100_000);
    assert!(decode_object_bytes(&pw.compressed, None).is_err());
}

#[test]
fn header_agrees_with_decode() {
    let store = demo_store();
    let pw = store.prepare_write(ObjectKind::Commit, b"tree 0\n");
    let (kind, size) = header_of_bytes(&pw.compressed).unwrap();
    let d = decode_object_bytes(&pw.compressed, None).unwrap();
    assert_eq!(kind, d.kind);
    assert_eq!(size, d.size);
}

#[test]
fn identifier_from_hex_validates() {
    assert!(Identifier::from_hex(HashKind::Sha1, b"0123").is_none());
    assert!(Identifier::from_hex(
        HashKind::Sha1,
        b"zz23456789abcdef0123456789abcdef01234567"
    )
    .is_none());
    let id = Identifier::from_hex(
        HashKind::Sha1,
        b"0123456789ABCDEF0123456789abcdef01234567",
    )
    .unwrap();
    assert_eq!(
        String::from_utf8(id.to_hex()).unwrap(),
        "0123456789abcdef0123456789abcdef01234567"
    );
}

#[test]
fn identifier_from_bytes_checks_width() {
    assert!(Identifier::from_bytes(HashKind::Sha1, vec![0u8; 19]).is_none());
    assert!(Identifier::from_bytes(HashKind::Sha1, vec![0u8; 20]).is_some());
    assert!(Identifier::from_bytes(HashKind::Sha256, vec![0u8; 20]).is_none());
    assert!(Identifier::from_bytes(HashKind::Sha256, vec![0u8; 32]).is_some());
}

#[test]
fn iteration_yields_written_identifiers() {
    let store = demo_store();
    let mut expected = Vec::new();
    let mut entries = Vec::new();
    for payload in [b"a".as_slice(), b"bb", b"ccc"] {
        let pw = store.prepare_write(ObjectKind::Blob, payload);
        let hex = pw.id.to_hex();
        entries.push(RawEntry {
            dir: hex[..2].to_vec(),
            file: hex[2..].to_vec(),
        });
        expected.push(hex_string(pw.id.as_bytes()));
    }
    let mut it = Iter::new(entries, HashKind::Sha1);
    let mut seen = Vec::new();
    while let Some(item) = it.next_entry() {
        seen.push(hex_string(item.unwrap().as_bytes()));
    }
    expected.sort();
    seen.sort();
    assert_eq!(seen, expected);
}

#[test]
fn iteration_reports_noise_as_not_an_object() {
    let entries = vec![
        RawEntry {
            dir: b"ab".to_vec(),
            file: b"stray".to_vec(),
        },
        RawEntry {
            dir: b"tmp".to_vec(),
            file: b"0123456789abcdef0123456789abcdef012345".to_vec(),
        },
    ];
    let mut it = Iter::new(entries, HashKind::Sha1);
    let first = it.next_entry().unwrap().unwrap_err();
    assert_eq!(first, IterError::NotAnObject(b"ab/stray".to_vec()));
    let second = it.next_entry().unwrap().unwrap_err();
    assert!(matches!(second, IterError::NotAnObject(_)));
    assert!(it.next_entry().is_none());
}

#[test]
fn entry_round_trip() {
    let store = demo_store();
    let pw = store.prepare_write(ObjectKind::Tag, b"tagged");
    let hex = pw.id.to_hex();
    let back = id_from_entry(&hex[..2], &hex[2..], HashKind::Sha1).unwrap();
    assert!(back == pw.id);
}

#[test]
fn concurrent_writers_compute_identical_files() {
    // Two writers racing on the same object prepare byte-identical
    // files for the same path; whichever rename wins, the store holds
    // one file with the agreed content.
    let store = demo_store();
    let w1 = store.prepare_write(ObjectKind::Blob, b"raced");
    let w2 = store.prepare_write(ObjectKind::Blob, b"raced");
    assert!(w1.id == w2.id);
    assert_eq!(w1.compressed, w2.compressed);
    assert_eq!(store.object_path(&w1.id), store.object_path(&w2.id));
}

#[test]
fn missing_object_is_not_found() {
    // An identifier nothing was written under maps to a path with no
    // file behind it; reading it yields `NotFound`.
    assert_eq!(decode_file(None, None).unwrap_err(), FindError::NotFound);
    assert_eq!(header_file(None).unwrap_err(), FindError::NotFound);
}

#[test]
fn present_object_decodes_through_the_located_file() {
    let store = demo_store();
    let pw = store.prepare_write(ObjectKind::Blob, b"present");
    let d = decode_file(Some(&pw.compressed), Some(&pw.id)).unwrap();
    assert_eq!(d.data, b"present".to_vec());
    assert_eq!(header_file(Some(&pw.compressed)).unwrap(), (ObjectKind::Blob, 7));
}
