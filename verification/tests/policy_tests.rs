use icn_runtime::dag::{
    DagNode, DagNodeMetadata, DagPayload, DagProcessor, SignedDagNode, ValidationResult,
};
use icn_runtime::json::{JsonMember, JsonValue};
use icn_runtime::policy::{
    Did, MembershipIndex, NodeScope, PolicyError, PolicyLoader, PolicyRule, ScopePolicyConfig, ScopeType,
};

fn create_test_did(id: &str) -> Did {
    format!("did:icn:test:{}", id)
}

fn text(key: &str, value: &str) -> JsonMember {
    JsonMember { key: key.to_string(), value: JsonValue::Str(value.to_string()) }
}

fn setup_test_federation() -> (String, MembershipIndex, Did) {
    let federation_id = "fed-main".to_string();
    let mut membership_index = MembershipIndex::new();
    let member_did = create_test_did("member1");
    membership_index.add_federation_member(member_did.clone(), federation_id.clone());
    (federation_id, membership_index, member_did)
}

fn setup_test_cooperative(federation_id: &str, policy_loader: &mut PolicyLoader) -> String {
    let coop_id = "coop-test".to_string();
    let policy = ScopePolicyConfig {
        scope_type: NodeScope::Cooperative,
        scope_id: coop_id.clone(),
        allowed_actions: vec![
            PolicyRule {
                action_type: "submit_proposal".to_string(),
                required_membership: Some(federation_id.to_string()),
                allowed_dids: None,
            },
            PolicyRule {
                action_type: "mint_token".to_string(),
                required_membership: None,
                allowed_dids: Some(vec![create_test_did("admin")]),
            },
        ],
    };
    policy_loader.set_policy(policy);
    coop_id
}

fn create_test_node(author: Did, federation_id: &str, coop_id: &str, node_type: &str) -> SignedDagNode {
    let payload = DagPayload::Json(JsonValue::Object(vec![
        text("type", node_type),
        text("title", "Test Proposal"),
        text("content", "This is a test proposal"),
        text("status", "Open"),
    ]));
    SignedDagNode {
        node: DagNode {
            author,
            metadata: DagNodeMetadata {
                federation_id: federation_id.to_string(),
                timestamp: 0,
                label: Some(node_type.to_string()),
                scope: NodeScope::Cooperative,
                scope_id: Some(coop_id.to_string()),
            },
            payload,
            parents: Vec::new(),
        },
        signature: Vec::new(),
        cid: None,
    }
}

#[test]
fn test_federation_member_can_submit_proposal() {
    let (federation_id, membership_index, member_did) = setup_test_federation();
    let mut policy_loader = PolicyLoader::new();
    let coop_id = setup_test_cooperative(&federation_id, &mut policy_loader);
    let node = create_test_node(member_did.clone(), &federation_id, &coop_id, "CooperativeProposal");
    let processor = DagProcessor::new(membership_index, policy_loader);
    match processor.validate_node(&node) {
        ValidationResult::Valid => {}
        other => panic!("Expected ValidatioResult::Valid, got {:?}", other),
    }
}

#[test]
fn test_non_member_cannot_submit_proposal() {
    let (federation_id, membership_index, _) = setup_test_federation();
    let mut policy_loader = PolicyLoader::new();
    let coop_id = setup_test_cooperative(&federation_id, &mut policy_loader);
    let non_member_did = create_test_did("nonmember");
    let node = create_test_node(non_member_did.clone(), &federation_id, &coop_id, "CooperativeProposal");
    let processor = DagProcessor::new(membership_index, policy_loader);
    match processor.validate_node(&node) {
        ValidationResult::PolicyViolation(PolicyError::UnauthorizedScopeAccess) => {}
        other => panic!("Expected PolicyViolation(UnauthorizedScopeAccess), got {:?}", other),
    }
}

#[test]
fn test_allowlist_authorization() {
    let (federation_id, membership_index, _) = setup_test_federation();
    let mut policy_loader = PolicyLoader::new();
    let coop_id = setup_test_cooperative(&federation_id, &mut policy_loader);
    let admin_did = create_test_did("admin");
    let node = create_test_node(admin_did.clone(), &federation_id, &coop_id, "MintToken");
    let processor = DagProcessor::new(membership_index, policy_loader);
    match processor.validate_node(&node) {
        ValidationResult::Valid => {}
        other => panic!("Expected ValidationResult::Valid, got {:?}", other),
    }
    let non_admin_did = create_test_did("non_admin");
    let node = create_test_node(non_admin_did, &federation_id, &coop_id, "MintToken");
    match processor.validate_node(&node) {
        ValidationResult::PolicyViolation(PolicyError::DidNotInAllowlist) => {}
        other => panic!("Expected PolicyViolation(DidNotInAllowlist), got {:?}", other),
    }
}

#[test]
fn nodes_outside_any_scope_are_not_checked() {
    let (federation_id, membership_index, _) = setup_test_federation();
    let policy_loader = PolicyLoader::new();
    let mut node = create_test_node(create_test_did("x"), &federation_id, "coop-test", "MintToken");
    node.node.metadata.scope_id = None;
    let processor = DagProcessor::new(membership_index, policy_loader);
    assert!(matches!(processor.validate_node(&node), ValidationResult::Valid));
}

#[test]
fn a_scope_without_policy_is_reported() {
    let (federation_id, membership_index, member_did) = setup_test_federation();
    let policy_loader = PolicyLoader::new();
    let node = create_test_node(member_did, &federation_id, "coop-other", "CooperativeProposal");
    let processor = DagProcessor::new(membership_index, policy_loader);
    let r = processor.validate_node(&node);
    assert!(matches!(r, ValidationResult::OtherError(_)), "got {:?}", r);
}

#[test]
fn an_action_the_policy_does_not_name_is_refused() {
    let (federation_id, membership_index, member_did) = setup_test_federation();
    let mut policy_loader = PolicyLoader::new();
    let coop_id = setup_test_cooperative(&federation_id, &mut policy_loader);
    let mut node = create_test_node(member_did, &federation_id, &coop_id, "Custom");
    node.node.payload = DagPayload::Json(JsonValue::Object(vec![
        text("type", "Custom"),
        text("action_type", "burn_token"),
    ]));
    let processor = DagProcessor::new(membership_index, policy_loader);
    let r = processor.validate_node(&node);
    assert!(matches!(r, ValidationResult::PolicyViolation(PolicyError::ActionNotPermitted)), "got {:?}", r);
}

#[test]
fn a_written_policy_is_read_back() {
    let mut policy_loader = PolicyLoader::new();
    let coop_id = setup_test_cooperative("fed-main", &mut policy_loader);
    let p = policy_loader.load_for_scope("Cooperative", &coop_id).expect("policy");
    assert_eq!(p.scope_id, coop_id);
    assert_eq!(p.allowed_actions.len(), 2);
    assert_eq!(p.allowed_actions[0].action_type, "submit_proposal");
    assert!(policy_loader.load_for_scope("Community", &coop_id).is_err());
}

#[test]
fn memberships_read_back_as_recorded() {
    let mut m = MembershipIndex::new();
    let d = create_test_did("alice");
    m.add_cooperative_member(d.clone(), "c1".to_string());
    m.add_federation_member(d.clone(), "f1".to_string());
    assert!(m.is_member_of(&d, ScopeType::Cooperative, "c1"));
    assert!(!m.is_member_of(&d, ScopeType::Community, "c1"));
    assert!(!m.is_member_of(&d, ScopeType::Federation, "c1"));
    assert!(m.is_member_of(&d, ScopeType::Federation, "f1"));
    assert!(!m.is_member_of(&create_test_did("bob"), ScopeType::Cooperative, "c1"));
}

#[test]
fn the_last_policy_set_for_a_scope_is_loaded() {
    let mut loader = PolicyLoader::new();
    let rule = |a: &str| PolicyRule { action_type: a.to_string(), required_membership: None, allowed_dids: None };
    loader.set_policy(ScopePolicyConfig {
        scope_type: NodeScope::Cooperative,
        scope_id: "coop-test".to_string(),
        allowed_actions: vec![rule("vote"), rule("mint_token")],
    });
    loader.set_policy(ScopePolicyConfig {
        scope_type: NodeScope::Community,
        scope_id: "coop-test".to_string(),
        allowed_actions: vec![],
    });
    loader.set_policy(ScopePolicyConfig {
        scope_type: NodeScope::Cooperative,
        scope_id: "coop-test".to_string(),
        allowed_actions: vec![rule("submit_proposal")],
    });
    let p = loader.load_for_scope("Cooperative", "coop-test").unwrap();
    assert_eq!(p.allowed_actions.len(), 1);
    assert_eq!(p.allowed_actions[0].action_type, "submit_proposal");
    assert!(loader.load_for_scope("Community", "coop-test").unwrap().allowed_actions.is_empty());
    assert!(matches!(loader.load_for_scope("Federation", "coop-test"), Err(PolicyError::PolicyNotFound)));
}
