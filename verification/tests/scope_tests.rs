use icn_runtime::dag::DagPayload;
use icn_runtime::governance::CliError;
use icn_runtime::json::{JsonMember, JsonValue};
use icn_runtime::policy::NodeScope;
use icn_runtime::scope::{
    charter_payload, default_description, federation_not_found, first_in_scope, genesis_payload,
    join_request_payload, node_type, nodes_in_scope, policy_update_proposal_payload,
    policy_update_vote_payload, proposal_payload, scope_not_found, tally_policy_update, thread_nodes,
    vote_payload, votes_on, NodePlace, ScopeNodeKind, ScopeType,
};

fn text(key: &str, value: &str) -> JsonMember {
    JsonMember { key: key.to_string(), value: JsonValue::Str(value.to_string()) }
}

fn members(v: &JsonValue) -> Vec<(String, Option<String>)> {
    match v {
        JsonValue::Object(ms) => ms
            .iter()
            .map(|m| {
                let t = match &m.value {
                    JsonValue::Str(s) => Some(s.clone()),
                    _ => None,
                };
                (m.key.clone(), t)
            })
            .collect(),
        _ => panic!("not an object"),
    }
}

#[test]
fn scope_types_read_in_any_case() {
    assert_eq!(ScopeType::from_str("Coop").unwrap(), ScopeType::Cooperative);
    assert_eq!(ScopeType::from_str("COOPERATIVE").unwrap(), ScopeType::Cooperative);
    assert_eq!(ScopeType::from_str("community").unwrap(), ScopeType::Community);
    match ScopeType::from_str("Guild") {
        Err(CliError::SerializationError(m)) => assert_eq!(m, "Invalid scope type: Guild"),
        other => panic!("unexpected {:?}", other),
    }
    assert_eq!(ScopeType::Community.to_node_scope(), NodeScope::Community);
    assert_eq!(ScopeType::Cooperative.to_node_scope(), NodeScope::Cooperative);
}

#[test]
fn node_types_follow_the_scope() {
    assert_eq!(node_type(ScopeType::Cooperative, ScopeNodeKind::Genesis), "CooperativeGenesis");
    assert_eq!(node_type(ScopeType::Cooperative, ScopeNodeKind::Charter), "CooperativeBylaws");
    assert_eq!(node_type(ScopeType::Community, ScopeNodeKind::Charter), "CommunityCharter");
    assert_eq!(node_type(ScopeType::Community, ScopeNodeKind::JoinRequest), "CommunityJoinRequest");
    assert_eq!(node_type(ScopeType::Cooperative, ScopeNodeKind::Policy), "CooperativePolicy");
    assert_eq!(default_description(ScopeType::Community, "c1"), "Community c1");
    assert_eq!(scope_not_found(ScopeType::Cooperative, "x"), "Cooperative 'x' not found");
    assert_eq!(federation_not_found("f"), "Federation 'f' not found");
}

#[test]
fn payloads_hold_their_fields() {
    let g = genesis_payload(ScopeType::Cooperative, "coop-1", "fed-1", &None, "2024", "did:a");
    assert_eq!(
        members(&g),
        vec![
            ("type".to_string(), Some("CooperativeGenesis".to_string())),
            ("name".to_string(), Some("coop-1".to_string())),
            ("federationId".to_string(), Some("fed-1".to_string())),
            ("description".to_string(), Some("Cooperative coop-1".to_string())),
            ("createdAt".to_string(), Some("2024".to_string())),
            ("founder".to_string(), Some("did:a".to_string())),
        ]
    );
    let p = proposal_payload(ScopeType::Community, "T", "C", "now", "did:p");
    assert_eq!(members(&p)[5], ("status".to_string(), Some("Open".to_string())));
    let v = vote_payload(ScopeType::Community, "yes", &None, "now", "did:v", "bafy-p");
    assert_eq!(members(&v)[2], ("comment".to_string(), None));
    let c = charter_payload(ScopeType::Cooperative, "By", "laws", "now", "did:c");
    assert_eq!(members(&c)[0].1.as_deref(), Some("CooperativeBylaws"));
    let j = join_request_payload(ScopeType::Community, "c1", "f1", "g1", "fg", "now", "did:r");
    assert_eq!(members(&j)[1], ("communityId".to_string(), Some("c1".to_string())));
    assert_eq!(members(&j)[3], ("communityGenesisCid".to_string(), Some("g1".to_string())));
    let u = policy_update_proposal_payload(ScopeType::Cooperative, "c1", "{}", "did:p", "d", "now");
    assert_eq!(members(&u)[1], ("scope_type".to_string(), Some("Cooperative".to_string())));
    let w = policy_update_vote_payload("bafy-u", "approve", &Some("ok".to_string()), "did:v", "now");
    assert_eq!(members(&w)[3], ("reason".to_string(), Some("ok".to_string())));
}

#[test]
fn parents_are_the_scope_nodes() {
    let ids = vec![Some("a".to_string()), None, Some("b".to_string()), Some("a".to_string())];
    assert_eq!(nodes_in_scope(&ids, "a"), vec![0, 3]);
    assert_eq!(nodes_in_scope(&ids, "z"), Vec::<usize>::new());
    assert_eq!(first_in_scope(&ids, "a"), Some(0));
    assert_eq!(first_in_scope(&ids, "b"), Some(2));
    assert_eq!(first_in_scope(&ids, "c"), None);
}

#[test]
fn a_thread_holds_its_scope_nodes() {
    let places = vec![
        NodePlace { scope_id: Some("c1".to_string()), scope: NodeScope::Community },
        NodePlace { scope_id: Some("c1".to_string()), scope: NodeScope::Cooperative },
        NodePlace { scope_id: None, scope: NodeScope::Community },
        NodePlace { scope_id: Some("c1".to_string()), scope: NodeScope::Community },
    ];
    assert_eq!(thread_nodes(&places, ScopeType::Community, "c1"), vec![0, 3]);
    assert_eq!(thread_nodes(&places, ScopeType::Cooperative, "c1"), vec![1]);
}

fn vote(cid: &str, choice: &str) -> DagPayload {
    DagPayload::Json(JsonValue::Object(vec![
        text("type", "PolicyUpdateVote"),
        text("proposal_cid", cid),
        text("choice", choice),
    ]))
}

#[test]
fn policy_updates_need_three_votes_and_a_majority() {
    let all = vec![vote("p1", "approve"), vote("p2", "approve"), vote("p1", "reject"), DagPayload::Raw(vec![])];
    assert_eq!(votes_on(&all, "PolicyUpdateVote", "proposal_cid", "p1"), vec![0, 2]);
    let serialization = |r: Result<(), CliError>| match r {
        Err(CliError::SerializationError(m)) => m,
        other => panic!("unexpected {:?}", other),
    };
    assert_eq!(
        serialization(tally_policy_update(&vec![vote("p", "approve"), vote("p", "approve")])),
        "Not enough votes to approve policy update. Need at least 3, got 2"
    );
    assert_eq!(
        serialization(tally_policy_update(&vec![
            vote("p", "approve"),
            vote("p", "reject"),
            vote("p", "reject"),
            vote("p", "approve")
        ])),
        "Policy update not approved. Need majority, got 2/4"
    );
    assert!(tally_policy_update(&vec![vote("p", "approve"), vote("p", "approve"), vote("p", "reject")]).is_ok());
}
