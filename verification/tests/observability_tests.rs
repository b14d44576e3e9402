use icn_runtime::dag::{DagNode, DagNodeMetadata, DagPayload, SignedDagNode};
use icn_runtime::governance::CliError;
use icn_runtime::json::{JsonMember, JsonValue};
use icn_runtime::observability::{
    activity_of, check_quorum_proof, missing_signers_message, newest_first, node_info, scope_activities,
    scope_node_infos, ActivityType, FederationInspector, PolicyInspector,
};
use icn_runtime::policy::NodeScope;

fn text(key: &str, value: &str) -> JsonMember {
    JsonMember { key: key.to_string(), value: JsonValue::Str(value.to_string()) }
}

fn node(scope: NodeScope, scope_id: Option<&str>, ts: i64, payload: Vec<JsonMember>) -> SignedDagNode {
    SignedDagNode {
        node: DagNode {
            author: "did:icn:author".to_string(),
            metadata: DagNodeMetadata {
                federation_id: "fed-test".to_string(),
                timestamp: ts,
                label: None,
                scope,
                scope_id: scope_id.map(|s| s.to_string()),
            },
            payload: DagPayload::Json(JsonValue::Object(payload)),
            parents: Vec::new(),
        },
        signature: Vec::new(),
        cid: None,
    }
}

fn sample_dag() -> Vec<SignedDagNode> {
    vec![
        node(NodeScope::Federation, None, 1, vec![
            text("type", "FederationCreate"),
            text("name", "Test Federation"),
            text("description", "A federation for testing"),
        ]),
        node(NodeScope::Cooperative, Some("coop-test"), 2, vec![
            text("type", "CooperativeCreate"),
            text("name", "Test Cooperative"),
        ]),
        node(NodeScope::Cooperative, Some("coop-test"), 3, vec![text("type", "Policy"), text("policy_type", "ScopePolicy")]),
        node(NodeScope::Cooperative, Some("coop-test"), 4, vec![text("type", "Proposal"), text("title", "Test Proposal")]),
        node(NodeScope::Cooperative, Some("coop-test"), 5, vec![
            text("type", "Vote"),
            text("vote", "approve"),
            text("target_cid", "cid-3"),
        ]),
        node(NodeScope::Cooperative, Some("coop-test"), 6, vec![text("type", "PolicyUpdate")]),
        node(NodeScope::Community, Some("com-1"), 7, vec![text("type", "CommunityCreate"), text("name", "Neighbours")]),
    ]
}

fn cids(n: usize) -> Vec<String> {
    (0..n).map(|i| format!("cid-{}", i)).collect()
}

#[test]
fn newest_first_is_a_stable_sort() {
    let ts = vec![5, 9, 5, 1, 9];
    assert_eq!(newest_first(&ts, 10), vec![1, 4, 0, 2, 3]);
    assert_eq!(newest_first(&ts, 2), vec![1, 4]);
    assert_eq!(newest_first(&ts, 0), Vec::<usize>::new());
    assert_eq!(newest_first(&vec![], 3), Vec::<usize>::new());
}

#[test]
fn activities_are_classified() {
    let p = |m: Vec<JsonMember>| DagPayload::Json(JsonValue::Object(m));
    let (a, d) = activity_of(&p(vec![text("type", "Proposal")])).unwrap();
    assert!(matches!(a, ActivityType::ProposalSubmitted));
    assert_eq!(d, "Proposal: Untitled proposal");
    let (a, d) = activity_of(&p(vec![text("type", "Vote"), text("vote", "yes")])).unwrap();
    assert_eq!(a.label(), "Vote Cast");
    assert_eq!(d, "Vote: yes on unknown");
    let (a, d) = activity_of(&p(vec![text("type", "PolicyUpdate")])).unwrap();
    assert_eq!(a.label(), "Policy Changed");
    assert_eq!(d, "Policy updated");
    let (a, d) = activity_of(&p(vec![text("type", "FederationJoin"), text("federation_id", "f")])).unwrap();
    assert_eq!(a.label(), "Federation Join");
    assert_eq!(d, "Joined federation: f");
    let (a, d) = activity_of(&p(vec![text("type", "Audit")])).unwrap();
    assert_eq!(a.label(), "Audit");
    assert_eq!(d, "Activity: Audit");
    assert!(activity_of(&p(vec![text("title", "x")])).is_none());
    assert!(activity_of(&DagPayload::Raw(vec![1])).is_none());
}

#[test]
fn the_activity_log_lists_newest_first() {
    let dag = sample_dag();
    let log = scope_activities(&dag, &cids(dag.len()), NodeScope::Cooperative, &Some("coop-test".to_string()), 10);
    let positions: Vec<usize> = log.iter().map(|e| e.position).collect();
    assert_eq!(positions, vec![5, 4, 3, 2, 1]);
    assert_eq!(log[1].description, "Vote: approve on cid-3");
    assert_eq!(log[2].description, "Proposal: Test Proposal");
    assert_eq!(log[0].cid, "cid-5");
    assert_eq!(log[0].actor, "did:icn:author");
    let limited = scope_activities(&dag, &cids(dag.len()), NodeScope::Cooperative, &None, 2);
    assert_eq!(limited.len(), 2);
    assert_eq!(limited[0].position, 5);
}

#[test]
fn the_active_policy_is_the_newest() {
    let dag = sample_dag();
    let inspector = PolicyInspector::new(dag);
    let scope = Some("coop-test".to_string());
    assert_eq!(inspector.policy_nodes(NodeScope::Cooperative, &scope), vec![5, 2]);
    assert_eq!(inspector.active_policy(NodeScope::Cooperative, &scope), Some(5));
    assert_eq!(inspector.active_policy(NodeScope::Community, &None), None);
}

#[test]
fn quorum_proofs_are_checked() {
    let proof = JsonValue::Object(vec![
        JsonMember {
            key: "required_signers".to_string(),
            value: JsonValue::Array(vec![JsonValue::Str("did:a".to_string()), JsonValue::Str("did:b".to_string())]),
        },
        JsonMember {
            key: "signers".to_string(),
            value: JsonValue::Array(vec![
                JsonValue::Object(vec![text("did", "did:a"), text("role", "admin")]),
                JsonValue::Str("did:c".to_string()),
                JsonValue::Null,
            ]),
        },
    ]);
    let payload = DagPayload::Json(JsonValue::Object(vec![JsonMember { key: "quorum_proof".to_string(), value: proof }]));
    let q = check_quorum_proof(&payload).unwrap();
    assert_eq!(q.required_signers, vec!["did:a", "did:b"]);
    assert_eq!(q.actual_signers.len(), 2);
    assert_eq!(q.actual_signers[0].role.as_deref(), Some("admin"));
    assert_eq!(q.actual_signers[1].did, "did:c");
    assert!(!q.is_valid);
    assert_eq!(q.missing, vec!["did:b"]);
    assert_eq!(missing_signers_message(&q.missing), "Missing required signers: did:b");
    match check_quorum_proof(&DagPayload::Raw(vec![])) {
        Err(CliError::ValidationError(m)) => assert_eq!(m, "Node payload is not JSON"),
        other => panic!("unexpected {:?}", other),
    }
    match check_quorum_proof(&DagPayload::Json(JsonValue::Object(vec![]))) {
        Err(CliError::ValidationError(m)) => assert_eq!(m, "Node does not contain a quorum proof"),
        other => panic!("unexpected {:?}", other),
    }
}

#[test]
fn the_federation_overview_lists_members() {
    let dag = sample_dag();
    let n = dag.len();
    let inspector = FederationInspector::new(dag);
    let o = inspector.federation_overview(&cids(n), "fed-test");
    assert_eq!(o.federation_id, "fed-test");
    assert_eq!(o.description.as_deref(), Some("A federation for testing"));
    assert_eq!(o.federation_head.as_deref(), Some("cid-0"));
    assert_eq!(o.cooperatives.len(), 1);
    assert_eq!(o.cooperatives[0].id, "coop-test");
    assert_eq!(o.cooperatives[0].member_type, "Cooperative");
    assert_eq!(o.cooperatives[0].name.as_deref(), Some("Test Cooperative"));
    assert_eq!(o.cooperatives[0].latest_head.as_deref(), Some("cid-5"));
    assert_eq!(o.cooperatives[0].latest_timestamp, Some(6));
    assert_eq!(o.communities.len(), 1);
    assert_eq!(o.communities[0].name.as_deref(), Some("Neighbours"));
    let other = inspector.federation_overview(&cids(n), "fed-other");
    assert!(other.description.is_none() && other.federation_head.is_none() && other.cooperatives.is_empty());
}

#[test]
fn policy_updates_list_their_votes_newest_first() {
    let mut dag = sample_dag();
    dag.push(node(NodeScope::Cooperative, Some("coop-test"), 8, vec![
        text("type", "Vote"),
        text("target_cid", "cid-5"),
        text("vote", "approve"),
        text("reason", "good"),
    ]));
    dag.push(node(NodeScope::Community, Some("com-1"), 9, vec![text("type", "Vote"), text("target_cid", "cid-5")]));
    dag.push(node(NodeScope::Cooperative, Some("coop-test"), 10, vec![text("type", "PolicyUpdate")]));
    let ids = cids(dag.len());
    let inspector = PolicyInspector::new(dag);
    let votes = inspector.update_votes(&ids, "cid-5");
    assert_eq!(votes.len(), 2);
    assert_eq!(votes[0].cid, "cid-7");
    assert_eq!(votes[0].decision, "approve");
    assert_eq!(votes[0].reason.as_deref(), Some("good"));
    assert_eq!(votes[1].cid, "cid-8");
    assert_eq!(votes[1].decision, "unknown");
    assert_eq!(votes[1].reason, None);

    let trail = inspector.update_trail(&ids, NodeScope::Cooperative, &Some("coop-test".to_string()));
    assert_eq!(trail.len(), 2);
    assert_eq!(trail[0].cid, "cid-9");
    assert_eq!(trail[0].timestamp, 10);
    assert!(trail[0].votes.is_empty());
    assert_eq!(trail[1].cid, "cid-5");
    assert_eq!(trail[1].proposer, "did:icn:author");
    assert_eq!(trail[1].votes.len(), 2);
    assert!(inspector.update_trail(&ids, NodeScope::Community, &None).is_empty());
}

fn with_payload(payload: DagPayload) -> SignedDagNode {
    let mut n = node(NodeScope::Cooperative, Some("coop-test"), 1, vec![]);
    n.node.payload = payload;
    n
}

#[test]
fn the_dag_view_describes_payloads() {
    let info = node_info(&with_payload(DagPayload::Raw(vec![1, 2, 3])), "c");
    assert_eq!(info.payload_type, "Raw");
    assert_eq!(info.payload_preview, "<3 bytes>");
    assert_eq!(info.cid, "c");
    assert_eq!(info.signer_did, "did:icn:author");
    assert_eq!(info.scope_id.as_deref(), Some("coop-test"));
    let proposal = node(NodeScope::Cooperative, None, 1, vec![text("type", "Proposal"), text("title", "Test Proposal")]);
    assert_eq!(node_info(&proposal, "c").payload_preview, "Proposal: Test Proposal");
    assert_eq!(node_info(&proposal, "c").payload_type, "Proposal");
    let vote = node(NodeScope::Cooperative, None, 1, vec![text("type", "Vote"), text("vote", "approve")]);
    assert_eq!(node_info(&vote, "c").payload_preview, "Vote: approve");
    let approval = node(NodeScope::Cooperative, None, 1, vec![text("type", "PolicyUpdateApproval")]);
    assert_eq!(node_info(&approval, "c").payload_preview, "Policy Update Approval");
    let other = node(NodeScope::Cooperative, None, 1, vec![text("type", "Custom")]);
    assert_eq!(node_info(&other, "c").payload_preview, "Custom");
    let untyped = node(NodeScope::Cooperative, None, 1, vec![text("zeta", "a long value that runs past thirty characters")]);
    assert_eq!(node_info(&untyped, "c").payload_type, "Json");
    assert_eq!(node_info(&untyped, "c").payload_preview, "{\"zeta\":\"a long value that run...");
    assert_eq!(node_info(&with_payload(DagPayload::Reference("r1".to_string())), "c").payload_preview, "Reference to r1");
    assert_eq!(node_info(&with_payload(DagPayload::TrustBundle("t1".to_string())), "c").payload_type, "TrustBundle");
    assert_eq!(
        node_info(&with_payload(DagPayload::ExecutionReceipt("e1".to_string())), "c").payload_preview,
        "ExecutionReceipt e1"
    );
}

#[test]
fn the_dag_view_lists_the_first_nodes_of_a_scope() {
    let dag = sample_dag();
    let ids = cids(dag.len());
    let view = scope_node_infos(&dag, &ids, NodeScope::Cooperative, &Some("coop-test".to_string()), 10);
    assert_eq!(view.len(), 5);
    assert_eq!(view[0].cid, "cid-1");
    assert!(view.iter().any(|n| n.payload_preview.contains("Test Proposal")));
    assert!(view.iter().any(|n| n.payload_preview.contains("Vote: approve")));
    let two = scope_node_infos(&dag, &ids, NodeScope::Cooperative, &None, 2);
    assert_eq!(two.len(), 2);
    assert_eq!(two[1].cid, "cid-2");
}

#[test]
fn scope_kinds_are_read_in_any_case() {
    use_scope(icn_runtime::observability::parse_scope_type("Coop"), NodeScope::Cooperative);
    use_scope(icn_runtime::observability::parse_scope_type("COMMUNITY"), NodeScope::Community);
    match icn_runtime::observability::parse_scope_type("guild") {
        Err(CliError::SerializationError(m)) => assert_eq!(m, "Invalid scope type: guild"),
        other => panic!("unexpected {:?}", other),
    }
    use_scope(icn_runtime::cli::parse_node_scope("Federation"), NodeScope::Federation);
    match icn_runtime::cli::parse_node_scope("coop") {
        Err(CliError::InvalidInput(m)) => {
            assert_eq!(m, "Invalid scope string: 'coop'. Use Federation, Community, or Cooperative.")
        }
        other => panic!("unexpected {:?}", other),
    }
}

fn use_scope(r: Result<NodeScope, CliError>, expected: NodeScope) {
    assert_eq!(r.unwrap(), expected);
}
