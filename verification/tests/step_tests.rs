use icn_runtime::bundle::QuorumType;
use icn_runtime::dag::{DagNode, DagNodeMetadata, DagPayload, DagProcessor, PolicyUpdateError, SignedDagNode};
use icn_runtime::federation::{
    join_approval_draft, join_attestation_draft, join_lineage_draft, join_quorum_gate, plan_federation_init,
    JoinRequest,
};
use icn_runtime::governance::CliError;
use icn_runtime::json::{JsonMember, JsonValue};
use icn_runtime::keys::BootstrapError;
use icn_runtime::mesh::{accept_bid, verify_signed_manifest, BidDetails};
use icn_runtime::policy::{MembershipIndex, NodeScope, PolicyLoader, PolicyRule, ScopePolicyConfig};
use icn_runtime::scope::{
    charter_draft, join_federation_draft, policy_update_approval_draft, proposal_payload, scope_genesis_draft,
    policy_update_vote_draft, scope_thread_draft, scope_vote_draft, votes_on, NodeDraft, ScopeType,
};

fn node(author: &str, scope_id: Option<&str>, members: &[(&str, &str)]) -> SignedDagNode {
    SignedDagNode {
        node: DagNode {
            author: author.to_string(),
            metadata: DagNodeMetadata {
                federation_id: "fed-1".to_string(),
                timestamp: 0,
                label: None,
                scope: NodeScope::Cooperative,
                scope_id: scope_id.map(|s| s.to_string()),
            },
            payload: DagPayload::Json(JsonValue::Object(
                members
                    .iter()
                    .map(|(k, v)| JsonMember { key: k.to_string(), value: JsonValue::Str(v.to_string()) })
                    .collect(),
            )),
            parents: Vec::new(),
        },
        signature: Vec::new(),
        cid: None,
    }
}

fn texts_of(v: &JsonValue) -> Vec<(String, String)> {
    match v {
        JsonValue::Object(ms) => ms
            .iter()
            .map(|m| {
                let t = match &m.value {
                    JsonValue::Str(s) => s.clone(),
                    _ => "<value>".to_string(),
                };
                (m.key.clone(), t)
            })
            .collect(),
        _ => panic!("not an object"),
    }
}

fn pairs(xs: &[(&str, &str)]) -> Vec<(String, String)> {
    xs.iter().map(|(k, v)| (k.to_string(), v.to_string())).collect()
}

#[test]
fn cooperative_genesis_opens_its_scope() {
    let d = scope_genesis_draft(ScopeType::Cooperative, "coop-1", "fed-1", &None, "2024-01-01T00:00:00Z", "did:key:z1");
    assert_eq!(d.author, "did:key:z1");
    assert_eq!(d.federation_id, "fed-1");
    assert_eq!(d.scope, NodeScope::Cooperative);
    assert_eq!(d.scope_id.as_deref(), Some("coop-1"));
    assert_eq!(d.label.as_deref(), Some("CooperativeGenesis"));
    assert!(d.parents.is_empty());
    assert_eq!(
        texts_of(&d.payload),
        pairs(&[
            ("type", "CooperativeGenesis"),
            ("name", "coop-1"),
            ("federationId", "fed-1"),
            ("description", "Cooperative coop-1"),
            ("createdAt", "2024-01-01T00:00:00Z"),
            ("founder", "did:key:z1"),
        ])
    );
    let c = scope_genesis_draft(ScopeType::Community, "c", "f", &Some("ours".to_string()), "t", "did:x");
    assert_eq!(c.scope, NodeScope::Community);
    assert_eq!(c.label.as_deref(), Some("CommunityGenesis"));
    assert_eq!(texts_of(&c.payload)[3], ("description".to_string(), "ours".to_string()));
}

#[test]
fn joining_needs_both_genesis_nodes() {
    let nodes = vec![
        node("did:a", None, &[("type", "Note")]),
        node("did:a", None, &[("type", "FederationGenesis")]),
        node("did:b", Some("coop-2"), &[("type", "CooperativeGenesis")]),
        node("did:b", Some("coop-1"), &[("type", "CooperativeGenesis")]),
    ];
    let cids: Vec<String> = vec!["c0".into(), "c1".into(), "c2".into(), "c3".into()];
    let first = vec![node("did:a", None, &[("type", "Note")])];
    match join_federation_draft(&first, &cids[..1].to_vec(), ScopeType::Cooperative, "coop-1", "fed-1", "t", "did:r") {
        Err(CliError::SerializationError(m)) => assert_eq!(m, "Federation 'fed-1' not found"),
        other => panic!("unexpected {:?}", other),
    }
    match join_federation_draft(&nodes, &cids, ScopeType::Cooperative, "coop-9", "fed-1", "t", "did:r") {
        Err(CliError::SerializationError(m)) => assert_eq!(m, "Cooperative 'coop-9' not found"),
        other => panic!("unexpected {:?}", other),
    }
    match join_federation_draft(&nodes, &cids, ScopeType::Community, "coop-1", "fed-1", "t", "did:r") {
        Err(CliError::SerializationError(m)) => assert_eq!(m, "Community 'coop-1' not found"),
        other => panic!("unexpected {:?}", other),
    }
    let d = join_federation_draft(&nodes, &cids, ScopeType::Cooperative, "coop-1", "fed-1", "t", "did:r").unwrap();
    assert_eq!(d.author, "did:r");
    assert_eq!(d.scope, NodeScope::Federation);
    assert_eq!(d.scope_id, None);
    assert_eq!(d.label.as_deref(), Some("CooperativeJoinRequest"));
    assert_eq!(d.parents, vec!["c1".to_string(), "c3".to_string()]);
    assert_eq!(
        texts_of(&d.payload),
        pairs(&[
            ("type", "CooperativeJoinRequest"),
            ("cooperativeId", "coop-1"),
            ("federationId", "fed-1"),
            ("cooperativeGenesisCid", "c3"),
            ("federationGenesisCid", "c1"),
            ("requestedAt", "t"),
            ("requester", "did:r"),
        ])
    );
}

fn vote(voter: &str, cid: &str, choice: &str) -> SignedDagNode {
    node(voter, Some("coop-1"), &[("type", "PolicyUpdateVote"), ("proposal_cid", cid), ("choice", choice)])
}

#[test]
fn policy_updates_are_approved_by_a_majority_of_three_or_more() {
    let few = vec![vote("did:1", "p", "approve"), vote("did:2", "p", "approve"), vote("did:3", "q", "approve")];
    match policy_update_approval_draft(&few, "p", ScopeType::Cooperative, "coop-1", "fed-1", "did:z", "now") {
        Err(CliError::SerializationError(m)) => {
            assert_eq!(m, "Not enough votes to approve policy update. Need at least 3, got 2")
        }
        other => panic!("unexpected {:?}", other),
    }
    let split = vec![
        vote("did:1", "p", "approve"),
        vote("did:2", "p", "reject"),
        vote("did:3", "p", "reject"),
        vote("did:4", "p", "approve"),
    ];
    match policy_update_approval_draft(&split, "p", ScopeType::Cooperative, "coop-1", "fed-1", "did:z", "now") {
        Err(CliError::SerializationError(m)) => assert_eq!(m, "Policy update not approved. Need majority, got 2/4"),
        other => panic!("unexpected {:?}", other),
    }
    let good = vec![
        vote("did:1", "p", "approve"),
        node("did:x", None, &[("type", "Note")]),
        vote("did:2", "p", "reject"),
        vote("did:3", "p", "approve"),
    ];
    let d: NodeDraft =
        policy_update_approval_draft(&good, "p", ScopeType::Cooperative, "coop-1", "fed-1", "did:z", "now").unwrap();
    assert_eq!(d.author, "did:z");
    assert_eq!(d.label.as_deref(), Some("PolicyUpdateApproval"));
    assert_eq!(d.parents, vec!["p".to_string()]);
    assert_eq!(d.scope_id.as_deref(), Some("coop-1"));
    match &d.payload {
        JsonValue::Object(ms) => {
            assert_eq!(ms[1].key, "proposal_cid");
            match &ms[2].value {
                JsonValue::Object(qs) => match &qs[1].value {
                    JsonValue::Array(a) => {
                        let voters: Vec<String> = a
                            .iter()
                            .map(|x| match x {
                                JsonValue::Str(s) => s.clone(),
                                _ => panic!("not a string"),
                            })
                            .collect();
                        assert_eq!(voters, vec!["did:1", "did:2", "did:3"]);
                    }
                    _ => panic!("signatures not an array"),
                },
                _ => panic!("quorum proof not an object"),
            }
        }
        _ => panic!("not an object"),
    }
}

#[test]
fn an_applied_policy_update_is_what_the_loader_returns() {
    let mut p = DagProcessor::new(MembershipIndex::new(), PolicyLoader::new());
    let proposal = node("did:a", None, &[("type", "PolicyUpdateProposal"), ("proposed_policy", "{\"rules\":[]}")]);
    let approval = node("did:a", None, &[("type", "PolicyUpdateApproval"), ("quorum_proof", "q")]);
    let policy = ScopePolicyConfig {
        scope_type: NodeScope::Cooperative,
        scope_id: "coop-1".to_string(),
        allowed_actions: vec![PolicyRule {
            action_type: "vote".to_string(),
            required_membership: None,
            allowed_dids: None,
        }],
    };
    assert_eq!(p.apply_policy_update(&approval, &proposal, policy).unwrap(), "{\"rules\":[]}");
    let loaded = p.policy_loader.load_for_scope("Cooperative", "coop-1").unwrap();
    assert_eq!(loaded.allowed_actions.len(), 1);
    assert_eq!(loaded.allowed_actions[0].action_type, "vote");
    let bare = node("did:a", None, &[("type", "PolicyUpdateApproval")]);
    let other = ScopePolicyConfig { scope_type: NodeScope::Community, scope_id: "c".to_string(), allowed_actions: vec![] };
    match p.apply_policy_update(&bare, &proposal, other) {
        Err(PolicyUpdateError::InvalidQuorumProof(m)) => assert_eq!(m, "Missing quorum proof"),
        other => panic!("unexpected {:?}", other),
    }
    assert!(p.policy_loader.load_for_scope("Community", "c").is_err());
}

#[test]
fn finalising_a_join_writes_three_linked_nodes() {
    let a = join_attestation_draft("fed-1", "req", "did:z", JsonValue::Null);
    assert_eq!(a.label.as_deref(), Some("FederationMembershipAttestation"));
    assert_eq!(a.parents, vec!["req".to_string()]);
    assert_eq!(a.scope, NodeScope::Federation);
    let l = join_lineage_draft("fed-1", "req", "att", "did:z", JsonValue::Bool(true));
    assert_eq!(l.label.as_deref(), Some("LineageAttestation"));
    assert_eq!(l.parents, vec!["req".to_string(), "att".to_string()]);
    let request = JoinRequest {
        scope_type: NodeScope::Community,
        scope_id: "c-1".to_string(),
        scope_genesis_cid: "g".to_string(),
    };
    let d = join_approval_draft(&request, "fed-1", "req", "att", "lin", "now", "did:z");
    assert_eq!(d.label.as_deref(), Some("FederationJoinApproval"));
    assert_eq!(d.parents, vec!["req".to_string(), "att".to_string(), "lin".to_string()]);
    assert_eq!(d.author, "did:z");
    assert_eq!(
        texts_of(&d.payload),
        pairs(&[
            ("type", "FederationJoinApproval"),
            ("scopeType", "Community"),
            ("scopeId", "c-1"),
            ("federationId", "fed-1"),
            ("requestCid", "req"),
            ("attestationCid", "att"),
            ("lineageCid", "lin"),
            ("approvedAt", "now"),
            ("approver", "did:z"),
        ])
    );
}

fn bid(did: &str, price: u64) -> BidDetails {
    BidDetails {
        bidder_did: did.to_string(),
        bid_cid: "b".to_string(),
        price,
        latency: None,
        memory: 1024,
        cores: 2,
        reputation: None,
        renewable: None,
        comment: None,
    }
}

#[test]
fn accepted_bids_are_signed_by_the_requester() {
    let secret = [7u8; 32];
    let bids = vec![bid("did:p1", 10), bid("did:p2", 25)];
    let a = accept_bid(&secret, "job-1", "2", &bids, "2024-01-01T00:00:00Z").unwrap();
    assert_eq!(a.bid_index, 2);
    assert_eq!(a.bidder_did, "did:p2");
    assert_eq!(a.price, 25);
    let text = "{\"job_id\":\"job-1\",\"bid_index\":2,\"bidder_did\":\"did:p2\",\"price\":25,\"timestamp\":\"2024-01-01T00:00:00Z\"}";
    let sk = ed25519_dalek::SigningKey::from_bytes(&secret);
    use_signature(&sk, text, &a.signature);
    assert_eq!(accept_bid(&secret, "job-1", "3", &bids, "t").unwrap_err().message, "Invalid bid ID. Must be between 1 and 2");
    assert_eq!(accept_bid(&secret, "job-1", "x", &bids, "t").unwrap_err().message, "Bid ID must be a number");
}

fn use_signature(sk: &ed25519_dalek::SigningKey, text: &str, signature_b64: &str) {
    let sig = ed25519_dalek::Signer::sign(sk, text.as_bytes());
    let expected = base64::Engine::encode(&base64::engine::general_purpose::STANDARD, sig.to_bytes());
    assert_eq!(signature_b64, expected);
    let did = format!(
        "did:key:{}",
        multibase::encode(multibase::Base::Base58Btc, [&[0xed, 0x01][..], &sk.verifying_key().to_bytes()[..]].concat())
    );
    assert_eq!(verify_signed_manifest(text.as_bytes(), signature_b64, &did).unwrap(), true);
}

#[test]
fn founding_plans_follow_the_arguments() {
    let one = vec!["did:key:z1".to_string()];
    let p = plan_federation_init("fed", &None, false, &one, "did:key:gen", "majority", true, "jwk").unwrap();
    assert!(p.write_files);
    assert_eq!(p.output_dir, "federation");
    assert_eq!(p.federation_did, "did:key:z1");
    assert_eq!(p.guardians, one);
    assert_eq!(p.quorum_config, "majority");
    assert_eq!(p.bundle_description, "Genesis bundle for federation 'fed'");
    assert_eq!(p.files, vec!["federation.toml", "genesis_bundle.json", "genesis_event.json", "federation_keys.json"]);
    let two = vec!["did:a".to_string(), "did:b".to_string()];
    let q = plan_federation_init("fed", &Some("out".to_string()), true, &two, "did:gen", "threshold:60", true, "base58")
        .unwrap();
    assert!(!q.write_files);
    assert!(q.files.is_empty());
    assert_eq!(q.output_dir, "out");
    assert_eq!(q.federation_did, "did:gen");
    assert_eq!(q.guardians, vec!["did:a", "did:b", "did:gen"]);
    assert!(matches!(q.quorum, QuorumType::Threshold(60)));
    assert_eq!(q.quorum_config, "threshold:60");
    match plan_federation_init("fed", &None, false, &one, "g", "bogus", false, "pem") {
        Err(BootstrapError::KeyError(m)) => assert_eq!(m, "Unsupported key format: pem. Supported formats: jwk, base58"),
        other => panic!("unexpected {:?}", other),
    }
    match plan_federation_init("fed", &None, false, &one, "g", "bogus", false, "jwk") {
        Err(BootstrapError::InvalidQuorum(m)) => {
            assert_eq!(m, "Unsupported quorum type: bogus. Valid values: all, majority, threshold:<num>")
        }
        other => panic!("unexpected {:?}", other),
    }
}

#[test]
fn scope_nodes_hang_from_the_scope() {
    let scope_ids = vec![Some("coop-1".to_string()), None, Some("coop-2".to_string()), Some("coop-1".to_string())];
    let cids: Vec<String> = vec!["a".into(), "b".into(), "c".into(), "d".into()];
    let payload = proposal_payload(ScopeType::Cooperative, "T", "body", "now", "did:p");
    let d = scope_thread_draft(
        ScopeType::Cooperative, "coop-1", "fed-1", "did:p", "CooperativeProposal", payload, &scope_ids, &cids,
    );
    assert_eq!(d.parents, vec!["a".to_string(), "d".to_string()]);
    assert_eq!(d.label.as_deref(), Some("CooperativeProposal"));
    assert_eq!(d.scope_id.as_deref(), Some("coop-1"));
    assert_eq!(texts_of(&d.payload)[5], ("status".to_string(), "Open".to_string()));
    let none = scope_thread_draft(ScopeType::Community, "x", "f", "did:p", "CommunityProposal", JsonValue::Null, &scope_ids, &cids);
    assert!(none.parents.is_empty());
    let c = charter_draft(ScopeType::Cooperative, "coop-1", "fed-1", "Bylaws", "text", "now", "did:p", &scope_ids, &cids);
    assert_eq!(c.parents, vec!["a".to_string()]);
    assert_eq!(c.label.as_deref(), Some("CooperativeBylaws"));
    let c2 = charter_draft(ScopeType::Community, "zz", "fed-1", "Charter", "text", "now", "did:p", &scope_ids, &cids);
    assert!(c2.parents.is_empty());
    assert_eq!(c2.label.as_deref(), Some("CommunityCharter"));
    let v = scope_vote_draft(ScopeType::Community, "c", "fed-1", "prop", "yes", &None, "now", "did:v");
    assert_eq!(v.parents, vec!["prop".to_string()]);
    assert_eq!(v.label.as_deref(), Some("CommunityVote"));
    assert_eq!(v.author, "did:v");
    assert_eq!(texts_of(&v.payload)[5], ("proposalCid".to_string(), "prop".to_string()));
    let pv = policy_update_vote_draft(ScopeType::Cooperative, "coop-1", "fed-1", "pp", "approve", &None, "did:v", "now");
    assert_eq!(pv.parents, vec!["pp".to_string()]);
    assert_eq!(pv.label.as_deref(), Some("PolicyUpdateVote"));
    assert_eq!(pv.scope, NodeScope::Cooperative);
    assert_eq!(texts_of(&pv.payload)[2], ("choice".to_string(), "approve".to_string()));
}

#[test]
fn a_join_is_finalised_only_with_an_approving_quorum() {
    match join_quorum_gate(false, true, 2, 6) {
        Err(CliError::ValidationError(m)) => assert_eq!(m, "Quorum not reached: 2/6 votes required"),
        other => panic!("unexpected {:?}", other),
    }
    match join_quorum_gate(true, false, 7, 6) {
        Err(CliError::ValidationError(m)) => assert_eq!(m, "Join request was rejected by federation members"),
        other => panic!("unexpected {:?}", other),
    }
    assert!(join_quorum_gate(true, true, 7, 6).is_ok());
    let nodes = vec![
        node("did:1", None, &[("type", "FederationJoinVote"), ("requestCid", "req"), ("vote", "yes")]),
        node("did:2", None, &[("type", "FederationJoinVote"), ("requestCid", "other"), ("vote", "yes")]),
        node("did:3", None, &[("type", "CooperativeVote"), ("requestCid", "req")]),
        node("did:4", None, &[("type", "FederationJoinVote"), ("requestCid", "req"), ("vote", "no")]),
    ];
    let payloads: Vec<DagPayload> = nodes.into_iter().map(|n| n.node.payload).collect();
    assert_eq!(votes_on(&payloads, "FederationJoinVote", "requestCid", "req"), vec![0, 3]);
}
