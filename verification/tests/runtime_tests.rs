use icn_runtime::cli::{did_from_verifying_key, submit_endpoint, submit_payload_bytes, DagReplay};
use icn_runtime::car::{read_unsigned_varint, write_unsigned_varint, VarintError};
use icn_runtime::dag::{
    approved_proposal, check_policy_update, extract_policy_from_proposal, DagError, DagNode, DagNodeMetadata,
    DagPayload, DagProcessor, PolicyUpdateError, SignedDagNode,
};
use icn_runtime::json::{JsonMember, JsonValue};
use icn_runtime::engine::{
    authorization_status, collect_metrics, default_receipt_export_dir, default_true,
    find_entry_point, guest_string_range, receipt_file_name, receipt_plan, ExecutionConfig, RuntimeConfig, RuntimeError,
    WasmExecutionConfig,
};
use icn_runtime::node::{default_config_path, load_federation_config};
use icn_runtime::policy::{MembershipIndex, NodeScope, PolicyError, PolicyLoader};
use icn_runtime::text::{contains_str, decimal_text, join_texts, parse_unsigned_decimal};
use icn_runtime::{init_runtime, placeholder};

#[test]
fn varints_round_trip() {
    for v in [0u64, 1, 127, 128, 300, 16384, u32::MAX as u64, u64::MAX] {
        let mut out = vec![0xaa];
        write_unsigned_varint(&mut out, v);
        let (back, next) = read_unsigned_varint(&out, 1).unwrap();
        assert_eq!(back, v);
        assert_eq!(next, out.len());
    }
    let mut out = Vec::new();
    write_unsigned_varint(&mut out, 300);
    assert_eq!(out, vec![0xac, 0x02]);
}

#[test]
fn varints_take_one_to_ten_bytes() {
    for (v, n) in [(0u64, 1usize), (127, 1), (128, 2), (16383, 2), (16384, 3), (u64::MAX, 10)] {
        let mut out = Vec::new();
        write_unsigned_varint(&mut out, v);
        assert_eq!(out.len(), n);
    }
}

#[test]
fn varint_errors() {
    assert!(matches!(read_unsigned_varint(&vec![], 0), Err(VarintError::UnexpectedEnd)));
    let long = vec![0xffu8; 11];
    assert!(matches!(read_unsigned_varint(&long, 0), Err(VarintError::Overflow)));
}

#[test]
fn text_helpers() {
    assert_eq!(decimal_text(0), "0");
    assert_eq!(decimal_text(1234567890), "1234567890");
    assert_eq!(decimal_text(u64::MAX), "18446744073709551615");
    assert_eq!(join_texts(&vec!["a".to_string(), "b".to_string(), "c".to_string()], ", "), "a, b, c");
    assert_eq!(join_texts(&vec![], ", "), "");
    assert!(contains_str("CooperativeJoinRequest", "JoinRequest"));
    assert!(contains_str("abc", ""));
    assert!(!contains_str("Join", "JoinRequest"));
    assert_eq!(parse_unsigned_decimal("255", 255), Some(255));
    assert_eq!(parse_unsigned_decimal("256", 255), None);
    assert_eq!(parse_unsigned_decimal("+7", 255), Some(7));
    assert_eq!(parse_unsigned_decimal("+", 255), None);
    assert_eq!(parse_unsigned_decimal("", 255), None);
}

#[test]
fn configuration_defaults() {
    assert!(default_true());
    assert_eq!(default_receipt_export_dir().as_deref(), Some("output/receipts"));
    let c = ExecutionConfig::default();
    assert!(c.auto_issue_receipts && c.anchor_receipts);
    let r = RuntimeConfig::default();
    assert_eq!(r.execution.receipt_export_dir.as_deref(), Some("output/receipts"));
    let w = WasmExecutionConfig::default();
    assert_eq!(w.max_memory, 100 * 1024 * 1024);
    assert_eq!(w.max_fuel, 10_000_000);
    assert!(!w.enable_wasi && !w.enable_debug);
    placeholder();
    init_runtime();
}

#[test]
fn metrics_report_fuel_used() {
    let m = collect_metrics(1000, Some(400), 12);
    assert_eq!(m.fuel_consumed, 400);
    assert_eq!(m.execution_time_ms, 12);
    assert_eq!(m.memory_used_bytes, 0);
    assert_eq!(collect_metrics(1000, None, 0).fuel_consumed, 0);
}

#[test]
fn runtime_errors_report_dag_errors() {
    match RuntimeError::from_dag_error(DagError::MissingParent("c1".to_string())) {
        RuntimeError::DagVerification(m) => assert_eq!(m, "Missing parent for node c1"),
        other => panic!("unexpected {:?}", other),
    }
    assert_eq!(authorization_status(&Ok(())), 0);
    assert_eq!(authorization_status(&Err(PolicyError::DidNotInAllowlist)), 3);
    assert_eq!(authorization_status(&Err(PolicyError::InternalError("x".to_string()))), 5);
}

#[test]
fn guest_memory_ranges() {
    assert_eq!(guest_string_range(4, 6, 100), Some((4, 10)));
    assert_eq!(guest_string_range(96, 6, 100), None);
}

#[test]
fn entry_points_are_preferred_in_order() {
    let names = vec!["run".to_string(), "main".to_string()];
    assert_eq!(find_entry_point(&names).as_deref(), Some("main"));
    assert_eq!(find_entry_point(&vec!["execute".to_string()]).as_deref(), Some("execute"));
    assert_eq!(find_entry_point(&vec!["other".to_string()]), None);
}

#[test]
fn node_configuration() {
    assert_eq!(default_config_path(), "federation_icn.toml");
    assert_eq!(load_federation_config("any.toml").metadata.name, "dummy");
}

#[test]
fn raw_payloads_name_their_action_in_json() {
    let processor = DagProcessor::new(MembershipIndex::new(), PolicyLoader::new());
    let node = SignedDagNode {
        node: DagNode {
            author: "did:a".to_string(),
            metadata: DagNodeMetadata {
                federation_id: "f".to_string(),
                timestamp: 0,
                label: None,
                scope: NodeScope::Cooperative,
                scope_id: Some("coop:1".to_string()),
            },
            payload: DagPayload::Raw(b"{\"action_type\": \"vote\"}".to_vec()),
            parents: Vec::new(),
        },
        signature: Vec::new(),
        cid: None,
    };
    assert_eq!(processor.get_action_type(&node).as_deref(), Some("vote"));
    assert_eq!(processor.determine_scope_type("coop:1"), "Cooperative");
    assert_eq!(processor.determine_scope_type("fed:1"), "Federation");
    assert_eq!(processor.determine_scope_type("x"), "Unknown");
}

fn json_node(members: &[(&str, &str)]) -> SignedDagNode {
    SignedDagNode {
        node: DagNode {
            author: "did:a".to_string(),
            metadata: DagNodeMetadata {
                federation_id: "f".to_string(),
                timestamp: 0,
                label: None,
                scope: NodeScope::Cooperative,
                scope_id: Some("coop:1".to_string()),
            },
            payload: DagPayload::Json(JsonValue::Object(
                members
                    .iter()
                    .map(|(k, v)| JsonMember { key: k.to_string(), value: JsonValue::Str(v.to_string()) })
                    .collect(),
            )),
            parents: Vec::new(),
        },
        signature: Vec::new(),
        cid: None,
    }
}

fn some_cid() -> String {
    let mh = multihash::Multihash::<64>::wrap(0x12, &[4u8; 32]).unwrap();
    cid::Cid::new_v1(0x71, mh).to_string()
}

#[test]
fn policy_update_approvals_name_their_proposal() {
    assert!(matches!(approved_proposal(&json_node(&[("type", "Vote")])), Ok(None)));
    let c = some_cid();
    match approved_proposal(&json_node(&[("type", "PolicyUpdateApproval"), ("proposal_cid", c.as_str())])) {
        Ok(Some(x)) => assert_eq!(x, c),
        other => panic!("unexpected {:?}", other),
    }
    match approved_proposal(&json_node(&[("type", "PolicyUpdateApproval")])) {
        Err(PolicyUpdateError::InvalidQuorumProof(m)) => assert_eq!(m, "Missing proposal_cid"),
        other => panic!("unexpected {:?}", other),
    }
    match approved_proposal(&json_node(&[("type", "PolicyUpdateApproval"), ("proposal_cid", "nope")])) {
        Err(PolicyUpdateError::InvalidProposal(m)) => assert!(m.starts_with("Invalid proposal CID: ")),
        other => panic!("unexpected {:?}", other),
    }
}

#[test]
fn policy_update_proposals_carry_their_policy() {
    let proposal = json_node(&[("type", "PolicyUpdateProposal"), ("proposed_policy", "{\"rules\":[]}")]);
    assert_eq!(extract_policy_from_proposal(&proposal).unwrap(), "{\"rules\":[]}");
    match extract_policy_from_proposal(&json_node(&[("type", "PolicyUpdateProposal")])) {
        Err(PolicyUpdateError::InvalidProposal(m)) => assert_eq!(m, "Missing proposed_policy"),
        other => panic!("unexpected {:?}", other),
    }
    match extract_policy_from_proposal(&json_node(&[("type", "Vote")])) {
        Err(PolicyUpdateError::InvalidProposal(m)) => assert_eq!(m, "Not a valid policy update proposal"),
        other => panic!("unexpected {:?}", other),
    }
    let approval = json_node(&[("type", "PolicyUpdateApproval"), ("quorum_proof", "p")]);
    assert_eq!(check_policy_update(&approval, &proposal).unwrap(), "{\"rules\":[]}");
    match check_policy_update(&json_node(&[("type", "PolicyUpdateApproval")]), &proposal) {
        Err(PolicyUpdateError::InvalidQuorumProof(m)) => assert_eq!(m, "Missing quorum proof"),
        other => panic!("unexpected {:?}", other),
    }
}

#[test]
fn dag_submissions_go_to_the_submit_endpoint() {
    assert_eq!(submit_endpoint("http://127.0.0.1:8080"), "http://127.0.0.1:8080/dag/submit");
    assert_eq!(submit_endpoint("http://h//"), "http://h/dag/submit");
    assert_eq!(submit_payload_bytes(&JsonValue::Str("aGk=".to_string())).unwrap(), b"hi".to_vec());
    assert_eq!(
        submit_payload_bytes(&JsonValue::Str("***".to_string())).unwrap_err(),
        "Payload string is not valid base64: ***"
    );
    let obj = JsonValue::Object(vec![JsonMember { key: "a".to_string(), value: JsonValue::Bool(true) }]);
    assert_eq!(submit_payload_bytes(&obj).unwrap(), b"{\"a\":true}".to_vec());
    let public = [3u8; 32];
    assert_eq!(
        did_from_verifying_key(&public),
        format!("did:key:{}", multibase::encode(multibase::Base::Base58Btc, public))
    );
}

#[test]
fn receipts_follow_the_execution_configuration() {
    let off = ExecutionConfig { auto_issue_receipts: false, anchor_receipts: true, receipt_export_dir: None };
    assert!(receipt_plan(&off).is_none());
    let on = ExecutionConfig {
        auto_issue_receipts: true,
        anchor_receipts: false,
        receipt_export_dir: Some("out".to_string()),
    };
    let plan = receipt_plan(&on).unwrap();
    assert!(!plan.anchor);
    assert_eq!(plan.export_dir.as_deref(), Some("out"));
    assert_eq!(receipt_file_name("r1"), "receipt-r1.json");
}

#[test]
fn dag_replays_visit_each_node_once_breadth_first() {
    let strings = |v: &[&str]| v.iter().map(|s| s.to_string()).collect::<Vec<String>>();
    let mut replay = DagReplay::start("a");
    assert_eq!(replay.next_cid().as_deref(), Some("a"));
    replay.queue_parents(&strings(&["b", "c", "a"]));
    assert_eq!(replay.queue, strings(&["b", "c"]));
    assert_eq!(replay.next_cid().as_deref(), Some("b"));
    replay.queue_parents(&strings(&["c", "d"]));
    assert_eq!(replay.next_cid().as_deref(), Some("c"));
    replay.queue_parents(&strings(&[]));
    assert_eq!(replay.next_cid().as_deref(), Some("d"));
    assert_eq!(replay.next_cid(), None);
    assert_eq!(replay.visited, strings(&["a", "b", "c", "d"]));
}
