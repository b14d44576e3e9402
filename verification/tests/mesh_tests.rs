use base64::Engine;
use ed25519_dalek::Signer;
use ed25519_dalek::SigningKey;
use icn_runtime::json::{JsonNumber, JsonValue};
use icn_runtime::mesh::{
    bid_cells, check_signed_manifest, names_content, sample_bids, verify_signed_manifest, BidDetails,
    describe_capability, did_key_part, ed25519_key_from_multicodec, inline_job_manifest, list_nodes,
    parse_resource_type, read_key_file, sample_nodes, select_bid_index, to_32_bytes, NodeCapability,
    ResourceType,
};

fn num(n: u64) -> JsonValue {
    JsonValue::Number(JsonNumber::PosInt(n))
}

#[test]
fn keys_have_thirty_two_bytes() {
    let v = [9u8; 32];
    assert_eq!(to_32_bytes(&v).unwrap(), v);
    assert_eq!(to_32_bytes(&v[..31]).unwrap_err().message, "Expected 32 bytes for ed25519 key, got 31");
}

#[test]
fn key_files_are_read() {
    let (did, key) = read_key_file("{\"did\": \"did:icn:a\", \"privateKey\": \"00ff10\"}").unwrap();
    assert_eq!(did, "did:icn:a");
    assert_eq!(key, vec![0x00, 0xff, 0x10]);
    assert_eq!(read_key_file("{\"privateKey\": \"00\"}").unwrap_err().message, "DID not found in key file");
    assert_eq!(read_key_file("{\"did\": \"d\"}").unwrap_err().message, "Private key not found in key file");
    assert_eq!(
        read_key_file("{\"did\": \"d\", \"privateKey\": \"0\"}").unwrap_err().message,
        "Invalid private key hex format: Odd number of digits"
    );
    assert!(read_key_file("{\"did\": \"d\", \"privateKey\": \"0g\"}")
        .unwrap_err()
        .message
        .starts_with("Invalid private key hex format: "));
    assert_eq!(read_key_file("{\"did\": \"d\", \"privateKey\": \"aB\"}").unwrap().1, vec![0xab]);
    assert!(read_key_file("nope").unwrap_err().message.starts_with("Invalid key file format, expected JSON: "));
}

#[test]
fn resources_are_named() {
    assert_eq!(parse_resource_type("memory", &num(512)), Some(ResourceType::RamMb(512)));
    assert_eq!(parse_resource_type("ram_mb", &num(1)), Some(ResourceType::RamMb(1)));
    assert_eq!(parse_resource_type("cpu", &num(4)), Some(ResourceType::CpuCores(4)));
    assert_eq!(parse_resource_type("gpu_cores", &num(2)), Some(ResourceType::GpuCores(2)));
    assert_eq!(parse_resource_type("storage", &num(9)), Some(ResourceType::StorageMb(9)));
    assert_eq!(parse_resource_type("disk", &num(9)), None);
    assert_eq!(parse_resource_type("cpu", &JsonValue::Str("4".to_string())), None);
}

#[test]
fn inline_manifests_take_defaults() {
    let m = inline_job_manifest("job-1", &Some("bafy-w".to_string()), Some(256), Some(2), &None, "did:o", &None).unwrap();
    assert_eq!(m.id, "job-1");
    assert_eq!(m.wasm_module_cid, "bafy-w");
    assert_eq!(m.resource_requirements.len(), 2);
    assert!(m.resource_requirements.contains(&ResourceType::RamMb(256)));
    assert!(m.resource_requirements.contains(&ResourceType::CpuCores(2)));
    assert!(matches!(m.parameters, JsonValue::Null));
    assert_eq!(m.federation_id, "default");
    assert_eq!(m.max_compute_units, Some(1000));
    assert_eq!(m.origin_coop_id, "default");
    assert_eq!(
        inline_job_manifest("j", &None, None, None, &None, "o", &None).unwrap_err().message,
        "WASM module CID is required"
    );
    let bad = Some("[1,".to_string());
    assert!(inline_job_manifest("j", &Some("w".to_string()), None, None, &bad, "o", &Some("f".to_string()))
        .unwrap_err()
        .message
        .starts_with("Failed to parse parameters JSON: "));
}

#[test]
fn nodes_are_listed_by_filter() {
    let nodes = sample_nodes();
    assert_eq!(nodes.len(), 3);
    assert_eq!(list_nodes(&nodes, None, None, &None, 10), vec![0, 1, 2]);
    assert_eq!(list_nodes(&nodes, Some(2048), None, &None, 10), vec![0, 2]);
    assert_eq!(list_nodes(&nodes, None, Some(4), &None, 10), vec![0, 2]);
    assert_eq!(list_nodes(&nodes, None, None, &Some("GPU".to_string()), 10), vec![2]);
    assert_eq!(list_nodes(&nodes, None, None, &Some("sgx".to_string()), 10), vec![0, 1, 2]);
    assert_eq!(list_nodes(&nodes, None, None, &None, 2), vec![0, 1]);
    assert_eq!(list_nodes(&nodes, Some(100_000), None, &None, 10), Vec::<usize>::new());
}

#[test]
fn capabilities_are_shown() {
    let c = |r| NodeCapability { resource_type: r, available: true };
    assert_eq!(describe_capability(&c(ResourceType::CpuCores(4))), "4c");
    assert_eq!(describe_capability(&c(ResourceType::RamMb(2048))), "2048MB");
    assert_eq!(describe_capability(&c(ResourceType::StorageMb(512000))), "512000MB storage");
    assert_eq!(describe_capability(&c(ResourceType::GpuCores(1))), "unknown");
}

#[test]
fn bids_are_chosen_by_number() {
    assert_eq!(select_bid_index("1", 3).unwrap(), 0);
    assert_eq!(select_bid_index("3", 3).unwrap(), 2);
    assert_eq!(select_bid_index("0", 3).unwrap_err().message, "Invalid bid ID. Must be between 1 and 3");
    assert_eq!(select_bid_index("4", 3).unwrap_err().message, "Invalid bid ID. Must be between 1 and 3");
    assert_eq!(select_bid_index("x", 3).unwrap_err().message, "Bid ID must be a number");
}

#[test]
fn did_keys_are_split() {
    assert_eq!(did_key_part("did:key:z6Mk").unwrap(), "z6Mk");
    assert_eq!(did_key_part("a:b:c:d:e").unwrap(), "c");
    assert_eq!(did_key_part("a:b:").unwrap(), "");
    assert_eq!(did_key_part("did:z6Mk").unwrap_err().message, "Invalid DID format");
}

#[test]
fn multicodec_keys_are_read() {
    let public = SigningKey::from_bytes(&[4u8; 32]).verifying_key().to_bytes();
    let mut v = vec![0xed, 0x01];
    v.extend_from_slice(&public);
    assert_eq!(ed25519_key_from_multicodec(&v).unwrap(), public);
    assert_eq!(ed25519_key_from_multicodec(&vec![0x12, 0x20, 1]).unwrap_err().message, "Unsupported key type");
    assert_eq!(ed25519_key_from_multicodec(&vec![0xed, 0x01, 1]).unwrap_err().message, "Invalid public key");
}

fn did_key_for(key: &SigningKey) -> String {
    let mut bytes = vec![0xed, 0x01];
    bytes.extend_from_slice(key.verifying_key().as_bytes());
    format!("did:key:{}", multibase::encode(multibase::Base::Base58Btc, bytes))
}

fn b64(bytes: &[u8]) -> String {
    base64::engine::general_purpose::STANDARD.encode(bytes)
}

#[test]
fn signed_manifests_are_checked_against_the_signer_key() {
    let key = SigningKey::from_bytes(&[11u8; 32]);
    let did = did_key_for(&key);
    let manifest = b"{\"id\":\"job-1\"}";
    let sig = b64(&key.sign(manifest).to_bytes());
    assert_eq!(verify_signed_manifest(manifest, &sig, &did).unwrap(), true);
    assert_eq!(verify_signed_manifest(b"other", &sig, &did).unwrap(), false);
    assert_eq!(verify_signed_manifest(manifest, &sig, "did:x").unwrap_err().message, "Invalid DID format");
    assert!(verify_signed_manifest(manifest, &sig, "did:key:!!")
        .unwrap_err()
        .message
        .starts_with("Failed to decode key part: "));
    assert!(verify_signed_manifest(manifest, "***", &did).unwrap_err().message.starts_with("Failed to decode signature: "));
    assert_eq!(verify_signed_manifest(manifest, &b64(&[1, 2, 3]), &did).unwrap_err().message, "Invalid signature format");
    let other = format!("did:key:{}", multibase::encode(multibase::Base::Base58Btc, vec![0xec, 0x01, 1, 2]));
    assert_eq!(verify_signed_manifest(manifest, &sig, &other).unwrap_err().message, "Unsupported key type");
    let tiny = format!("did:key:{}", multibase::encode(multibase::Base::Base58Btc, vec![0xed]));
    assert!(check_signed_manifest(manifest, &sig, &tiny).is_none());
    assert_eq!(check_signed_manifest(manifest, &sig, &did).unwrap().unwrap(), true);
}

#[test]
fn bids_are_listed_by_their_cells() {
    let bids = sample_bids();
    assert_eq!(bids.len(), 3);
    assert_eq!(
        bid_cells(&bids[0]),
        vec!["100 COMPUTE", "50ms", "2048MB", "4", "95%", "80%", "did:icn:node:12345"]
    );
    let bare = BidDetails {
        bidder_did: "did:x".to_string(),
        bid_cid: "c".to_string(),
        price: 7,
        latency: None,
        memory: 1,
        cores: 1,
        reputation: None,
        renewable: None,
        comment: None,
    };
    assert_eq!(bid_cells(&bare), vec!["7 COMPUTE", "N/A", "1MB", "1", "N/A", "N/A", "did:x"]);
    assert!(names_content("bafyabc"));
    assert!(names_content("QmXyz"));
    assert!(!names_content("job-1"));
}

#[test]
fn submissions_signed_under_their_did_key_verify() {
    let secret = [21u8; 32];
    let manifest = b"{\"id\":\"job-2\"}".to_vec();
    let signed = icn_runtime::mesh::sign_job_submission(&secret, &manifest);
    assert_eq!(signed.manifest, manifest);
    assert_eq!(signed.signer, did_key_for(&SigningKey::from_bytes(&secret)));
    assert!(verify_signed_manifest(&signed.manifest, &signed.signature, &signed.signer).unwrap());
    let plain = icn_runtime::mesh::sign_job_manifest(&manifest, &secret, "did:x").unwrap();
    assert_eq!(plain.signature, signed.signature);
    assert_eq!(
        icn_runtime::mesh::sign_job_manifest(&manifest, &secret[..5], "did:x").unwrap_err().message,
        "Expected 32 bytes for ed25519 key, got 5"
    );
}
