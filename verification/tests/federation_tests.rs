use base64::Engine;
use ed25519_dalek::{Signer, SigningKey};
use icn_runtime::bundle::{
    to_signature_bytes, verify_bundle, BundleSignature, ParticipantVerifyingKey, ParticipantWeight,
    QuorumType, TrustBundle, VerifyError,
};
use icn_runtime::federation::{
    check_join_request, check_key_format, describe_quorum, genesis_bundle_cid, genesis_description,
    join_approval_payload, join_vote_payload, parse_quorum_spec, read_join_request, read_join_vote,
    settle_federation_identity,
};
use icn_runtime::dag::DagPayload;
use icn_runtime::governance::CliError;
use icn_runtime::json::{JsonMember, JsonValue};
use icn_runtime::keys::{load_verifying_key_from_json, BootstrapError, ParticipantKey};
use icn_runtime::policy::NodeScope;

fn text(key: &str, value: &str) -> JsonMember {
    JsonMember { key: key.to_string(), value: JsonValue::Str(value.to_string()) }
}

fn invalid_quorum(r: Result<QuorumType, BootstrapError>) -> String {
    match r {
        Err(BootstrapError::InvalidQuorum(m)) => m,
        other => panic!("expected an invalid quorum, got {:?}", other),
    }
}

#[test]
fn quorum_specs_read_and_read_back() {
    assert!(matches!(parse_quorum_spec("all").unwrap(), QuorumType::All));
    assert!(matches!(parse_quorum_spec("majority").unwrap(), QuorumType::Majority));
    assert!(matches!(parse_quorum_spec("threshold:67").unwrap(), QuorumType::Threshold(67)));
    for q in [QuorumType::All, QuorumType::Majority, QuorumType::Threshold(1), QuorumType::Threshold(100)] {
        let d = describe_quorum(&q);
        let back = parse_quorum_spec(&d).unwrap();
        assert_eq!(describe_quorum(&back), d);
    }
    assert_eq!(describe_quorum(&QuorumType::Threshold(67)), "threshold:67");
    assert_eq!(describe_quorum(&QuorumType::Weighted(vec![])), "weighted");
}

#[test]
fn quorum_spec_errors() {
    assert_eq!(
        invalid_quorum(parse_quorum_spec("threshold:5:5")),
        "Invalid threshold format: threshold:5:5. Expected 'threshold:<number>'"
    );
    assert_eq!(
        invalid_quorum(parse_quorum_spec("threshold:x")),
        "Invalid threshold value: x. Expected a number between 1 and 100"
    );
    assert_eq!(
        invalid_quorum(parse_quorum_spec("threshold:101")),
        "Threshold must be between 1 and 100, got: 101"
    );
    assert_eq!(
        invalid_quorum(parse_quorum_spec("some")),
        "Unsupported quorum type: some. Valid values: all, majority, threshold:<num>"
    );
}

#[test]
fn key_formats_are_checked() {
    assert!(check_key_format("jwk").is_ok());
    assert!(check_key_format("base58").is_ok());
    match check_key_format("pem") {
        Err(BootstrapError::KeyError(m)) => {
            assert_eq!(m, "Unsupported key format: pem. Supported formats: jwk, base58")
        }
        other => panic!("unexpected {:?}", other),
    }
}

#[test]
fn the_federation_identity_is_settled() {
    let one = vec!["did:key:a".to_string()];
    let id = settle_federation_identity(&one, "did:key:gen", true);
    assert_eq!(id.did, "did:key:a");
    assert_eq!(id.guardians, one);
    let two = vec!["did:key:a".to_string(), "did:key:b".to_string()];
    let id = settle_federation_identity(&two, "did:key:gen", true);
    assert_eq!(id.did, "did:key:gen");
    assert_eq!(id.guardians, vec!["did:key:a", "did:key:b", "did:key:gen"]);
    let id = settle_federation_identity(&two, "did:key:gen", false);
    assert_eq!(id.guardians, two);
}

#[test]
fn the_genesis_bundle_is_named_by_its_hash() {
    let hash: Vec<u8> = (0u8..32).collect();
    let cid = genesis_bundle_cid(&hash);
    assert_eq!(cid, format!("bafy{}", &hex::encode(&hash)[..46]));
    assert_eq!(cid.len(), 50);
    assert!(cid.starts_with("bafy000102"));
    assert_eq!(genesis_description("Alpha"), "Genesis bundle for federation 'Alpha'");
}

fn keypair(seed: u8) -> ([u8; 32], [u8; 32]) {
    let sk = SigningKey::from_bytes(&[seed; 32]);
    (sk.verifying_key().to_bytes(), sk.to_bytes())
}

#[test]
fn participant_keys_round_trip_in_both_formats() {
    let (public, secret) = keypair(7);
    for format in ["jwk", "base58"] {
        let key = ParticipantKey::new(&secret, format).unwrap();
        assert_eq!(key.did, format!("did:key:{}", multibase::encode(multibase::Base::Base58Btc, public)));
        assert!(key.metadata.is_empty());
        assert_eq!(key.format, format);
        assert_eq!(key.to_signing_key().unwrap(), secret);
        assert_eq!(load_verifying_key_from_json(&key.public_key).unwrap(), public);
    }
    match ParticipantKey::new(&secret, "pem") {
        Err(BootstrapError::KeyError(m)) => assert_eq!(m, "Unsupported key format: pem"),
        other => panic!("unexpected {:?}", other),
    }
}

#[test]
fn key_descriptions_are_read() {
    let (public, _) = keypair(9);
    let x = base64::engine::general_purpose::STANDARD.encode(public);
    let jwk = JsonValue::Object(vec![text("kty", "OKP"), text("crv", "Ed25519"), text("x", &x)]);
    assert_eq!(load_verifying_key_from_json(&jwk).unwrap(), public);
    let described = JsonValue::Object(vec![
        text("format", "jwk"),
        JsonMember { key: "public_key".to_string(), value: jwk },
    ]);
    assert_eq!(load_verifying_key_from_json(&described).unwrap(), public);
    let key_error = |v: &JsonValue| match load_verifying_key_from_json(v) {
        Err(VerifyError::KeyError(m)) => m,
        other => panic!("unexpected {:?}", other),
    };
    assert_eq!(key_error(&JsonValue::Null), "Unsupported key format");
    assert_eq!(key_error(&JsonValue::Object(vec![text("format", "jwk")])), "No public_key field found");
    assert_eq!(
        key_error(&JsonValue::Object(vec![text("format", "pem"), text("public_key", "")])),
        "Unsupported key format: pem"
    );
    let short = JsonValue::Object(vec![text("kty", "OKP"), text("x", "AAAA")]);
    assert_eq!(key_error(&short), "Invalid public key length");
    assert!(key_error(&JsonValue::Str("!!".to_string())).starts_with("Failed to decode Base58 key: "));
}

#[test]
fn signing_keys_need_private_material() {
    let (public, secret) = keypair(3);
    let mut key = ParticipantKey::new(&secret, "jwk").unwrap();
    key.private_key = None;
    match key.to_signing_key() {
        Err(BootstrapError::KeyError(m)) => assert_eq!(m, "No private key available"),
        other => panic!("unexpected {:?}", other),
    }
    key.private_key = Some(JsonValue::Object(vec![text("d", "AAAA")]));
    match key.to_signing_key() {
        Err(BootstrapError::KeyError(m)) => assert_eq!(m, "Invalid Ed25519 key length: 3"),
        other => panic!("unexpected {:?}", other),
    }
}

#[test]
fn signature_bytes_have_sixty_four_bytes() {
    let v: Vec<u8> = (0..64).map(|i| i as u8).collect();
    assert_eq!(to_signature_bytes(&v).unwrap().to_vec(), v);
    match to_signature_bytes(&v[..10]) {
        Err(VerifyError::KeyError(m)) => assert_eq!(m, "Invalid signature length: expected 64 bytes, got 10"),
        other => panic!("unexpected {:?}", other),
    }
}

fn signed_bundle(hash: &[u8], signers: &[u8], quorum: QuorumType, required: usize) -> TrustBundle {
    let signatures = signers
        .iter()
        .map(|s| {
            let sk = SigningKey::from_bytes(&[*s; 32]);
            BundleSignature { signer: format!("did:key:{}", s), signature: sk.sign(hash).to_bytes().to_vec() }
        })
        .collect();
    TrustBundle {
        federation_id: "fed".to_string(),
        bundle_cid: None,
        bundle_hash: hash.to_vec(),
        referenced_events: vec!["e1".to_string()],
        signatures,
        quorum_type: quorum,
        required_signatures: required,
    }
}

fn keys(seeds: &[u8]) -> Vec<ParticipantVerifyingKey> {
    seeds
        .iter()
        .map(|s| ParticipantVerifyingKey {
            did: format!("did:key:{}", s),
            public_key: SigningKey::from_bytes(&[*s; 32]).verifying_key().to_bytes(),
        })
        .collect()
}

#[test]
fn a_signed_bundle_verifies() {
    let hash = [5u8; 32];
    let bundle = signed_bundle(&hash, &[1, 2], QuorumType::Majority, 2);
    let r = verify_bundle(&bundle, &vec!["e1".to_string()], &keys(&[1, 2]));
    assert!(r.is_valid);
    assert_eq!(r.valid_signatures, 2);
    assert_eq!(r.valid_signers, vec!["did:key:1", "did:key:2"]);
    assert!(r.invalid_signers.is_empty());
    assert_eq!(r.verified_events, vec!["e1"]);
}

#[test]
fn the_last_key_given_for_a_did_counts() {
    let hash = [5u8; 32];
    let bundle = signed_bundle(&hash, &[1], QuorumType::All, 1);
    let wrong = ParticipantVerifyingKey {
        did: "did:key:1".to_string(),
        public_key: SigningKey::from_bytes(&[9u8; 32]).verifying_key().to_bytes(),
    };
    let mut first_wrong = vec![wrong.clone()];
    first_wrong.extend(keys(&[1]));
    let r = verify_bundle(&bundle, &vec!["e1".to_string()], &first_wrong);
    assert_eq!(r.valid_signers, vec!["did:key:1"]);
    assert!(r.is_valid);
    let mut last_wrong = keys(&[1]);
    last_wrong.push(wrong);
    let r = verify_bundle(&bundle, &vec!["e1".to_string()], &last_wrong);
    assert_eq!(r.invalid_signers, vec!["did:key:1"]);
    assert!(!r.is_valid);
}

#[test]
fn a_forged_signature_is_caught() {
    let hash = [5u8; 32];
    let mut bundle = signed_bundle(&hash, &[1, 2], QuorumType::Majority, 1);
    bundle.signatures[1].signature[0] ^= 1;
    let r = verify_bundle(&bundle, &vec!["e1".to_string()], &keys(&[1, 2]));
    assert!(!r.is_valid);
    assert!(!r.signatures_valid);
    assert!(r.quorum_valid);
    assert_eq!(r.invalid_signers, vec!["did:key:2"]);
    bundle.signatures[0].signature.truncate(10);
    let r = verify_bundle(&bundle, &vec!["e1".to_string()], &keys(&[1, 2]));
    assert_eq!(r.invalid_signers, vec!["did:key:1", "did:key:2"]);
    assert!(!r.quorum_valid);
}

#[test]
fn missing_events_and_cids_are_caught() {
    let hash = [5u8; 32];
    let mut bundle = signed_bundle(&hash, &[], QuorumType::All, 0);
    let r = verify_bundle(&bundle, &vec![], &vec![]);
    assert!(!r.events_valid);
    assert_eq!(r.missing_events, vec!["e1"]);
    assert!(r.signatures_valid && r.quorum_valid);
    bundle.referenced_events.clear();
    bundle.bundle_cid = Some(format!("bafy{}", &hex::encode(hash)[..20]));
    assert!(verify_bundle(&bundle, &vec![], &vec![]).is_valid);
    bundle.bundle_cid = Some("bafyffff".to_string());
    let r = verify_bundle(&bundle, &vec![], &vec![]);
    assert!(!r.cid_valid && !r.is_valid);
    bundle.bundle_cid = Some(format!("éab{}", &hex::encode(hash)[..6]));
    assert!(verify_bundle(&bundle, &vec![], &vec![]).cid_valid);
}

#[test]
fn a_weighted_quorum_needs_more_than_half_the_weight() {
    let hash = [8u8; 32];
    let weights = vec![
        ParticipantWeight { did: "did:key:1".to_string(), weight: 3 },
        ParticipantWeight { did: "did:key:2".to_string(), weight: 2 },
        ParticipantWeight { did: "did:key:3".to_string(), weight: 2 },
    ];
    let bundle = signed_bundle(&hash, &[1, 2], QuorumType::Weighted(weights.clone()), 9);
    let r = verify_bundle(&bundle, &vec!["e1".to_string()], &keys(&[1, 2, 3]));
    assert_eq!(r.required_signatures, 4);
    assert!(r.quorum_valid);
    let bundle = signed_bundle(&hash, &[1], QuorumType::Weighted(weights), 9);
    let r = verify_bundle(&bundle, &vec!["e1".to_string()], &keys(&[1, 2, 3]));
    assert!(!r.quorum_valid);
}

#[test]
fn join_requests_are_read() {
    let payload = DagPayload::Json(JsonValue::Object(vec![
        text("type", "CooperativeJoinRequest"),
        text("cooperativeId", "coop-1"),
        text("cooperativeGenesisCid", "bafy-g"),
    ]));
    let j = read_join_request(&payload).unwrap();
    assert_eq!(j.scope_type, NodeScope::Cooperative);
    assert_eq!(j.scope_id, "coop-1");
    assert_eq!(j.scope_genesis_cid, "bafy-g");
    let validation = |p: &DagPayload| match read_join_request(p) {
        Err(CliError::ValidationError(m)) => m,
        other => panic!("unexpected {:?}", other),
    };
    assert_eq!(validation(&DagPayload::Raw(vec![])), "Invalid join request: not a JSON payload");
    assert_eq!(validation(&DagPayload::Json(JsonValue::Object(vec![]))), "Invalid join request: missing type");
    assert_eq!(
        validation(&DagPayload::Json(JsonValue::Object(vec![text("type", "Other")]))),
        "Invalid join request type: Other"
    );
    assert_eq!(
        validation(&DagPayload::Json(JsonValue::Object(vec![text("type", "CommunityJoinRequest")]))),
        "Invalid join request: missing communityId"
    );
    assert!(check_join_request("c1", &payload).is_ok());
    match check_join_request("c1", &DagPayload::Json(JsonValue::Object(vec![text("type", "Vote")]))) {
        Err(CliError::ValidationError(m)) => assert_eq!(m, "Node c1 is not a join request"),
        other => panic!("unexpected {:?}", other),
    }
}

#[test]
fn join_votes_are_read_and_written() {
    let v = join_vote_payload("YES", &None, "t0", "did:a", "req-1");
    let (voter, yes) = read_join_vote(&v).unwrap();
    assert_eq!(voter, "did:a");
    assert!(yes);
    let v = join_vote_payload("no", &Some("later".to_string()), "t0", "did:b", "req-1");
    assert!(!read_join_vote(&v).unwrap().1);
    match read_join_vote(&JsonValue::Object(vec![text("vote", "yes")])) {
        Err(CliError::ValidationError(m)) => assert_eq!(m, "Invalid vote: missing voter"),
        other => panic!("unexpected {:?}", other),
    }
    let j = read_join_request(&DagPayload::Json(JsonValue::Object(vec![
        text("type", "CommunityJoinRequest"),
        text("communityId", "c"),
        text("communityGenesisCid", "g"),
    ])))
    .unwrap();
    match join_approval_payload(&j, "fed", "req", "att", "lin", "t1", "did:x") {
        JsonValue::Object(ms) => {
            assert_eq!(ms.len(), 9);
            assert_eq!(ms[1].key, "scopeType");
            assert!(matches!(&ms[1].value, JsonValue::Str(s) if s == "Community"));
        }
        other => panic!("unexpected {:?}", other),
    }
}

#[test]
fn generated_keys_are_named_by_their_public_key() {
    let secret = [5u8; 32];
    let public = SigningKey::from_bytes(&secret).verifying_key().to_bytes();
    let (did, private) = icn_runtime::keys::generated_key_identity(&secret);
    assert_eq!(did, format!("did:icn:{}", hex::encode(&public[..8])));
    assert_eq!(private, format!("ed25519-priv:{}", base64::engine::general_purpose::STANDARD.encode(secret)));
    assert!(icn_runtime::keys::check_key_type("ed25519").is_ok());
    match icn_runtime::keys::check_key_type("rsa") {
        Err(icn_runtime::governance::CliError::Config(m)) => {
            assert_eq!(m, "Unsupported key type: rsa. Only ed25519 is supported.")
        }
        other => panic!("unexpected {:?}", other),
    }
}

#[test]
fn imported_keys_must_be_icn_ed25519_keys() {
    use_ok(icn_runtime::keys::check_imported_key("did:icn:abc", "ed25519-priv:xyz"));
    match icn_runtime::keys::check_imported_key("did:key:abc", "ed25519-priv:xyz") {
        Err(icn_runtime::governance::CliError::IoError(m)) => assert_eq!(m, "Invalid DID format in key file"),
        other => panic!("unexpected {:?}", other),
    }
    match icn_runtime::keys::check_imported_key("did:icn:abc", "rsa:xyz") {
        Err(icn_runtime::governance::CliError::IoError(m)) => assert_eq!(m, "Invalid private key format in key file"),
        other => panic!("unexpected {:?}", other),
    }
}

fn use_ok(r: Result<(), icn_runtime::governance::CliError>) {
    assert!(r.is_ok());
}

fn a_cid() -> (String, Vec<u8>) {
    let mh = multihash::Multihash::<64>::wrap(0x12, &[9u8; 32]).unwrap();
    let c = cid::Cid::new_v1(0x71, mh);
    (c.to_string(), c.to_bytes())
}

#[test]
fn anchor_strings_name_a_cid_a_kind_and_a_time() {
    let (text, bytes) = a_cid();
    let now = (1_700_000_000i64, 5u32);
    let a = icn_runtime::bundle::parse_anchor_ref_str(&text, now).unwrap();
    assert_eq!(a.cid, bytes);
    assert_eq!(a.object_type, None);
    assert_eq!(a.timestamp, now);
    let b = icn_runtime::bundle::parse_anchor_ref_str(&format!("{}:Bundle:2024-01-02T03:04:05Z", text), now).unwrap();
    assert_eq!(b.object_type.as_deref(), Some("Bundle"));
    assert_eq!(b.timestamp, (1_704_164_645, 0));
    match icn_runtime::bundle::parse_anchor_ref_str("nope:Bundle", now) {
        Err(icn_runtime::governance::CliError::InvalidArgument(m)) => {
            assert!(m.starts_with("Invalid CID 'nope' in anchor string: "))
        }
        other => panic!("unexpected {:?}", other),
    }
    match icn_runtime::bundle::parse_anchor_ref_str(&format!("{}:Bundle:yesterday", text), now) {
        Err(icn_runtime::governance::CliError::InvalidArgument(m)) => {
            assert!(m.starts_with("Invalid timestamp format 'yesterday' in anchor string (expected RFC3339): "))
        }
        other => panic!("unexpected {:?}", other),
    }
}
