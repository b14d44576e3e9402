use icn_runtime::car::{
    block_present, check_archive_blocks, parse_car_archive, read_car_archive, check_federation_match, core_file, create_cid,
    default_archive_name, encode_car, extracts_file, file_extension, guess_content_type,
    read_unsigned_varint, write_unsigned_varint, ArchiveBlock, CarBlock, FileEntry, ImportError,
    VarintError,
};
use sha2::Digest;

#[test]
fn varints_are_written_little_endian_in_groups_of_seven() {
    let mut out = Vec::new();
    write_unsigned_varint(&mut out, 0);
    write_unsigned_varint(&mut out, 127);
    write_unsigned_varint(&mut out, 300);
    assert_eq!(out, vec![0x00, 0x7f, 0xac, 0x02]);
    assert_eq!(read_unsigned_varint(&out, 2), Ok((300, 4)));
    assert_eq!(read_unsigned_varint(&out, 4), Err(VarintError::UnexpectedEnd));
    assert_eq!(read_unsigned_varint(&vec![0x80u8; 10], 0), Err(VarintError::Overflow));
}

#[test]
fn varint_round_trip_on_large_values() {
    for v in [1u64, 128, 16384, u64::MAX / 3, u64::MAX] {
        let mut out = vec![0xffu8];
        write_unsigned_varint(&mut out, v);
        out.push(0x42);
        let (read, next) = read_unsigned_varint(&out, 1).unwrap();
        assert_eq!(read, v);
        assert_eq!(out[next], 0x42);
    }
}

#[test]
fn extensions_are_taken_after_the_last_dot() {
    assert_eq!(file_extension("a.tar.gz"), Some("gz".to_string()));
    assert_eq!(file_extension("README"), None);
    assert_eq!(file_extension(".hidden"), None);
    assert_eq!(file_extension("x."), Some(String::new()));
}

#[test]
fn extensions_come_from_the_file_name_alone() {
    assert_eq!(file_extension("a.d/b"), None);
    assert_eq!(file_extension("dir/x.json"), Some("json".to_string()));
    assert_eq!(file_extension("dir/x.json/"), Some("json".to_string()));
    assert_eq!(file_extension("dir/x.json/."), Some("json".to_string()));
    assert_eq!(file_extension("a.b/.."), None);
    assert_eq!(file_extension(".."), None);
    assert_eq!(file_extension("a/.hidden"), None);
    assert_eq!(file_extension("/"), None);
    assert_eq!(file_extension(""), None);
    assert_eq!(guess_content_type("conf.d/readme"), "application/octet-stream");
    for p in ["a.d/b", "dir/x.json", "dir/x.json/", "dir/x.json/.", "a.b/..", "..", "a/.hidden", "x.", "a..", ".a.b"] {
        let expected = std::path::Path::new(p).extension().map(|e| e.to_string_lossy().to_string());
        assert_eq!(file_extension(p), expected, "{}", p);
    }
}

#[test]
fn content_types_follow_the_extension() {
    assert_eq!(guess_content_type("federation.toml"), "application/toml");
    assert_eq!(guess_content_type("genesis_bundle.json"), "application/json");
    assert_eq!(guess_content_type("notes.txt"), "text/plain");
    assert_eq!(guess_content_type("doc.md"), "text/markdown");
    assert_eq!(guess_content_type("x.car"), "application/vnd.ipld.car");
    assert_eq!(guess_content_type("x.pdf"), "application/pdf");
    assert_eq!(guess_content_type("x.png"), "image/png");
    assert_eq!(guess_content_type("x.jpg"), "image/jpeg");
    assert_eq!(guess_content_type("x.jpeg"), "image/jpeg");
    assert_eq!(guess_content_type("x.gif"), "image/gif");
    assert_eq!(guess_content_type("x.bin"), "application/octet-stream");
    assert_eq!(guess_content_type("Makefile"), "application/octet-stream");
}

#[test]
fn core_files_are_recognised() {
    assert!(core_file("federation.toml"));
    assert!(core_file("genesis_bundle.json"));
    assert!(core_file("genesis_event.json"));
    assert!(!core_file("keys/a.json"));
}

#[test]
fn cids_are_version_one_dag_json_sha256() {
    let data = b"hello";
    let (bytes, text) = create_cid(data);
    let digest = sha2::Sha256::digest(data);
    assert_eq!(&bytes[..5], &[0x01, 0xa9, 0x02, 0x12, 0x20]);
    assert_eq!(&bytes[5..], digest.as_slice());
    let parsed = cid::Cid::try_from(bytes.as_slice()).unwrap();
    assert_eq!(parsed.to_string(), text);
    assert!(text.starts_with('b'));
    assert_ne!(create_cid(b"other").0, bytes);
}

#[test]
fn archives_frame_header_and_blocks() {
    let header = vec![1u8, 2, 3];
    let blocks = vec![CarBlock { cid: vec![9], data: vec![7, 7] }, CarBlock { cid: vec![5, 5], data: vec![] }];
    assert_eq!(encode_car(&header, &blocks), vec![3, 1, 2, 3, 3, 9, 7, 7, 2, 5, 5]);
    let long = vec![0u8; 200];
    let out = encode_car(&long, &Vec::new());
    assert_eq!(&out[..2], &[0xc8, 0x01]);
    assert_eq!(out.len(), 202);
}

#[test]
fn default_archive_is_named_after_the_federation() {
    assert_eq!(default_archive_name("my-fed"), "my-fed.car");
}

fn block(cid: &str) -> ArchiveBlock {
    ArchiveBlock { cid: cid.to_string(), data: vec![1] }
}

fn file(cid: &str) -> FileEntry {
    FileEntry { path: "f".to_string(), cid: cid.to_string(), size: 1, content_type: "text/plain".to_string() }
}

#[test]
fn archives_must_hold_every_listed_block() {
    let blocks = vec![block("b"), block("e"), block("f1")];
    assert!(block_present(&blocks, "e"));
    assert!(!block_present(&blocks, "zz"));
    assert!(check_archive_blocks("b", "e", &vec![file("f1")], &blocks).is_ok());
    match check_archive_blocks("x", "e", &vec![], &blocks) {
        Err(ImportError::FileNotFound(m)) => assert_eq!(m, "Required file with CID x not found in archive"),
        other => panic!("unexpected {:?}", other),
    }
    match check_archive_blocks("b", "y", &vec![file("z")], &blocks) {
        Err(ImportError::FileNotFound(m)) => assert_eq!(m, "Required file with CID y not found in archive"),
        other => panic!("unexpected {:?}", other),
    }
    match check_archive_blocks("b", "e", &vec![file("f1"), file("f2"), file("f3")], &blocks) {
        Err(ImportError::FileNotFound(m)) => assert_eq!(m, "Required file with CID f2 not found in archive"),
        other => panic!("unexpected {:?}", other),
    }
}

#[test]
fn federation_ids_must_match() {
    assert!(check_federation_match("fed-1", "fed-1").is_ok());
    match check_federation_match("fed-1", "fed-2") {
        Err(ImportError::VerificationFailed(m)) => {
            assert_eq!(m, "Federation ID mismatch: fed-1 in manifest, fed-2 in TrustBundle")
        }
        other => panic!("unexpected {:?}", other),
    }
}

#[test]
fn key_files_are_skipped_only_when_asked() {
    assert!(extracts_file(false, "keys/a.json"));
    assert!(!extracts_file(true, "keys/a.json"));
    assert!(extracts_file(true, "docs/a.md"));
}

fn archive(header: &str, tail: &[u8]) -> Vec<u8> {
    let mut out = Vec::new();
    write_unsigned_varint(&mut out, header.len() as u64);
    out.extend_from_slice(header.as_bytes());
    out.extend_from_slice(tail);
    out
}

fn car_message(r: Result<(Vec<u8>, Vec<icn_runtime::car::ArchiveBlock>), ImportError>) -> String {
    match r {
        Err(ImportError::Car(m)) => m,
        other => panic!("unexpected {:?}", other),
    }
}

fn v0_cid(fill: u8) -> (Vec<u8>, String) {
    let digest = [fill; 32];
    let mh = multihash::Multihash::<64>::wrap(0x12, &digest).unwrap();
    let cid = cid::Cid::new_v0(mh).unwrap();
    (cid.to_bytes(), cid.to_string())
}

#[test]
fn archive_headers_are_checked() {
    assert_eq!(car_message(parse_car_archive(&vec![])), "Unexpected end of file");
    assert_eq!(car_message(parse_car_archive(&vec![0x80; 10])), "Varint overflow");
    assert!(car_message(parse_car_archive(&archive("{", &[]))).starts_with("Failed to parse CAR header: "));
    assert_eq!(
        car_message(parse_car_archive(&archive("{\"roots\":[\"m\"],\"version\":2}", &[]))),
        "Unsupported CAR version: 2"
    );
    assert_eq!(
        car_message(parse_car_archive(&archive("{\"roots\":[],\"version\":1}", &[]))),
        "CAR archive has no roots"
    );
    assert!(car_message(parse_car_archive(&archive("{\"roots\":[1],\"version\":1}", &[])))
        .starts_with("Failed to parse CAR header: "));
    match parse_car_archive(&archive("[[\"m\"],1]", &[])) {
        Err(ImportError::FileNotFound(m)) => assert_eq!(m, "Manifest not found with CID: m"),
        other => panic!("unexpected {:?}", other),
    }
    match parse_car_archive(&vec![5, 1, 2]) {
        Err(ImportError::Io(_)) => {}
        other => panic!("unexpected {:?}", other),
    }
}

#[test]
fn archive_blocks_are_located_by_their_first_byte() {
    let (cid_bytes, cid_text) = v0_cid(7);
    let header = format!("{{\"version\":1,\"roots\":[\"{}\"]}}", cid_text);
    let mut tail = Vec::new();
    write_unsigned_varint(&mut tail, cid_bytes.len() as u64);
    tail.extend_from_slice(&cid_bytes);
    let (manifest, blocks) = parse_car_archive(&archive(&header, &tail)).unwrap();
    assert!(manifest.is_empty());
    assert_eq!(blocks.len(), 1);
    assert_eq!(blocks[0].cid, cid_text);

    assert_eq!(
        car_message(parse_car_archive(&archive(&header, &[3, 5, 0, 0]))),
        "Unsupported CID version prefix: 05"
    );
    assert!(car_message(parse_car_archive(&archive("[[\"m\"],1]", &[3, 1, 0, 0])))
        .starts_with("Failed to parse CID: "));
    assert!(car_message(parse_car_archive(&archive(&header, &[3, 0x12, 0x21, 0])))
        .starts_with("Failed to parse CID: "));
    match parse_car_archive(&archive("[[\"m\"],1]", &[0, 9, 9])) {
        Err(ImportError::FileNotFound(m)) => assert_eq!(m, "Manifest not found with CID: m"),
        other => panic!("unexpected {:?}", other),
    }
}

#[test]
fn archive_blocks_shorter_than_their_cid_are_refused() {
    let (cid_bytes, cid_text) = v0_cid(3);
    let header = format!("{{\"version\":1,\"roots\":[\"{}\"]}}", cid_text);
    let mut tail = vec![1u8];
    tail.extend_from_slice(&cid_bytes);
    assert!(read_car_archive(&archive(&header, &tail)).is_none());
    let mut whole = Vec::new();
    write_unsigned_varint(&mut whole, 34);
    whole.extend_from_slice(&cid_bytes);
    assert!(read_car_archive(&archive(&header, &whole)).unwrap().is_ok());
}

#[test]
fn exported_archives_read_back() {
    let datas: Vec<Vec<u8>> = vec![b"{\"name\":\"fed\"}".to_vec(), b"second block".to_vec(), Vec::new()];
    let mut blocks = Vec::new();
    let mut texts = Vec::new();
    for d in &datas {
        let (bytes, text) = create_cid(d);
        texts.push(text);
        blocks.push(CarBlock { cid: bytes, data: d.clone() });
    }
    let header = format!("{{\"roots\":[\"{}\"],\"version\":1}}", texts[1]);
    let bytes = encode_car(&header.as_bytes().to_vec(), &blocks);
    let (manifest, read) = parse_car_archive(&bytes).unwrap();
    assert_eq!(manifest, datas[1]);
    assert_eq!(read.len(), 3);
    for i in 0..3 {
        assert_eq!(read[i].cid, texts[i]);
        assert_eq!(read[i].data, datas[i]);
    }
}

#[test]
fn cid_text_reads_back_as_the_cid() {
    for data in [&b""[..], b"x", b"{\"name\":\"fed\"}"] {
        let (bytes, text) = create_cid(data);
        assert!(text.starts_with('b'));
        assert_eq!(cid::Cid::try_from(text.as_str()).unwrap().to_bytes(), bytes);
    }
}
