//! Cooperatives and communities (scopes) inside a federation: the DAG nodes
//! their commands write, the nodes those commands build on, and the approval
//! of policy updates by vote.
use vstd::prelude::*;
use vstd::string::*;
use crate::dag::DagPayload;
use crate::governance::CliError;
use crate::json::{
    JsonMember, JsonValue, is_opt_text_member, is_text_member, json_get_str, opt_text_member,
    text_member, value_member,
};
use crate::policy::NodeScope;
use crate::text::{decimal_digits, decimal_text, lowercase, str_eq, texts, to_lowercase};

verus! {

/// The kinds of scope a federation holds.
#[derive(Debug, Clone, Copy, PartialEq, Eq, Structural)]
pub enum ScopeType {
    Cooperative,
    Community,
}

/// What a scope type argument means, ignoring case: `cooperative` or `coop`,
/// or `community`.
pub open spec fn scope_type_outcome(s: Seq<char>) -> Result<ScopeType, Seq<char>> {
    let t = lowercase(s);
    if t == "cooperative"@ || t == "coop"@ {
        Ok(ScopeType::Cooperative)
    } else if t == "community"@ {
        Ok(ScopeType::Community)
    } else {
        Err("Invalid scope type: "@ + s)
    }
}

/// The capitalised name of a scope type.
pub open spec fn scope_title(s: ScopeType) -> Seq<char> {
    match s {
        ScopeType::Cooperative => "Cooperative"@,
        ScopeType::Community => "Community"@,
    }
}

/// The lower-case name of a scope type.
pub open spec fn scope_word(s: ScopeType) -> Seq<char> {
    match s {
        ScopeType::Cooperative => "cooperative"@,
        ScopeType::Community => "community"@,
    }
}

impl ScopeType {
    /// The node scope of this scope type.
    pub fn to_node_scope(&self) -> (r: NodeScope)
        ensures
            *self == ScopeType::Cooperative ==> r == NodeScope::Cooperative,
            *self == ScopeType::Community ==> r == NodeScope::Community,
    {
        match self {
            ScopeType::Cooperative => NodeScope::Cooperative,
            ScopeType::Community => NodeScope::Community,
        }
    }

    /// Reads a scope type argument; a refusal is a `SerializationError`.
    pub fn from_str(s: &str) -> (r: Result<ScopeType, CliError>)
        ensures
            match scope_type_outcome(s@) {
                Ok(t) => r == Ok::<ScopeType, CliError>(t),
                Err(m) => r matches Err(CliError::SerializationError(x)) && x@ == m,
            },
    {
        let t = to_lowercase(s);
        if str_eq(t.as_str(), "cooperative") || str_eq(t.as_str(), "coop") {
            Ok(ScopeType::Cooperative)
        } else if str_eq(t.as_str(), "community") {
            Ok(ScopeType::Community)
        } else {
            Err(CliError::SerializationError("Invalid scope type: ".to_owned().concat(s)))
        }
    }

    /// The capitalised name (`Cooperative`, `Community`), which the scope's
    /// node types begin with.
    pub fn title(&self) -> (r: &'static str)
        ensures
            r@ == scope_title(*self),
    {
        match self {
            ScopeType::Cooperative => "Cooperative",
            ScopeType::Community => "Community",
        }
    }

    /// The lower-case name (`cooperative`, `community`) used in messages.
    pub fn word(&self) -> (r: &'static str)
        ensures
            r@ == scope_word(*self),
    {
        match self {
            ScopeType::Cooperative => "cooperative",
            ScopeType::Community => "community",
        }
    }
}

/// The kinds of node a scope's commands write.
#[derive(Debug, Clone, Copy, PartialEq, Eq, Structural)]
pub enum ScopeNodeKind {
    Genesis,
    Proposal,
    Vote,
    /// Bylaws for a cooperative, a charter for a community.
    Charter,
    JoinRequest,
    Policy,
}

/// The node type a scope writes for a kind of node.
pub open spec fn scope_node_type(s: ScopeType, k: ScopeNodeKind) -> Seq<char> {
    scope_title(s) + match k {
        ScopeNodeKind::Genesis => "Genesis"@,
        ScopeNodeKind::Proposal => "Proposal"@,
        ScopeNodeKind::Vote => "Vote"@,
        ScopeNodeKind::Charter => if s == ScopeType::Cooperative { "Bylaws"@ } else { "Charter"@ },
        ScopeNodeKind::JoinRequest => "JoinRequest"@,
        ScopeNodeKind::Policy => "Policy"@,
    }
}

/// The node type a scope writes for a kind of node, e.g. `CooperativeGenesis`
/// or `CommunityCharter`.
pub fn node_type(s: ScopeType, k: ScopeNodeKind) -> (r: String)
    ensures
        r@ == scope_node_type(s, k),
{
    let suffix = match k {
        ScopeNodeKind::Genesis => "Genesis",
        ScopeNodeKind::Proposal => "Proposal",
        ScopeNodeKind::Vote => "Vote",
        ScopeNodeKind::Charter => match s {
            ScopeType::Cooperative => "Bylaws",
            ScopeType::Community => "Charter",
        },
        ScopeNodeKind::JoinRequest => "JoinRequest",
        ScopeNodeKind::Policy => "Policy",
    };
    s.title().to_owned().concat(suffix)
}

/// The description a new scope gets when none is given, e.g. `Community c1`.
pub fn default_description(s: ScopeType, scope_id: &str) -> (r: String)
    ensures
        r@ == scope_title(s) + " "@ + scope_id@,
{
    s.title().to_owned().concat(" ").concat(scope_id)
}

/// The payload of a scope's genesis node.
pub fn genesis_payload(
    s: ScopeType,
    scope_id: &str,
    federation_id: &str,
    description: &Option<String>,
    created_at: &str,
    founder: &str,
) -> (r: JsonValue)
    ensures
        r matches JsonValue::Object(ms) && ms@.len() == 6
            && is_text_member(ms@[0], "type"@, scope_node_type(s, ScopeNodeKind::Genesis))
            && is_text_member(ms@[1], "name"@, scope_id@)
            && is_text_member(ms@[2], "federationId"@, federation_id@)
            && is_text_member(ms@[3], "description"@, match description {
                Some(d) => d@,
                None => scope_title(s) + " "@ + scope_id@,
            })
            && is_text_member(ms@[4], "createdAt"@, created_at@)
            && is_text_member(ms@[5], "founder"@, founder@),
{
    let desc = match description {
        Some(d) => d.clone(),
        None => default_description(s, scope_id),
    };
    let t = node_type(s, ScopeNodeKind::Genesis);
    JsonValue::Object(vec![
        text_member("type", t.as_str()),
        text_member("name", scope_id),
        text_member("federationId", federation_id),
        text_member("description", desc.as_str()),
        text_member("createdAt", created_at),
        text_member("founder", founder),
    ])
}

/// The payload of a proposal in a scope; it opens with status `Open`.
pub fn proposal_payload(s: ScopeType, title: &str, content: &str, proposed_at: &str, proposer: &str) -> (r: JsonValue)
    ensures
        r matches JsonValue::Object(ms) && ms@.len() == 6
            && is_text_member(ms@[0], "type"@, scope_node_type(s, ScopeNodeKind::Proposal))
            && is_text_member(ms@[1], "title"@, title@)
            && is_text_member(ms@[2], "content"@, content@)
            && is_text_member(ms@[3], "proposedAt"@, proposed_at@)
            && is_text_member(ms@[4], "proposer"@, proposer@)
            && is_text_member(ms@[5], "status"@, "Open"@),
{
    let t = node_type(s, ScopeNodeKind::Proposal);
    JsonValue::Object(vec![
        text_member("type", t.as_str()),
        text_member("title", title),
        text_member("content", content),
        text_member("proposedAt", proposed_at),
        text_member("proposer", proposer),
        text_member("status", "Open"),
    ])
}

/// The payload of a vote on a proposal in a scope.
pub fn vote_payload(
    s: ScopeType,
    vote: &str,
    comment: &Option<String>,
    voted_at: &str,
    voter: &str,
    proposal_cid: &str,
) -> (r: JsonValue)
    ensures
        r matches JsonValue::Object(ms) && ms@.len() == 6
            && is_text_member(ms@[0], "type"@, scope_node_type(s, ScopeNodeKind::Vote))
            && is_text_member(ms@[1], "vote"@, vote@)
            && is_opt_text_member(ms@[2], "comment"@, match comment { Some(c) => Some(c@), None => None })
            && is_text_member(ms@[3], "votedAt"@, voted_at@)
            && is_text_member(ms@[4], "voter"@, voter@)
            && is_text_member(ms@[5], "proposalCid"@, proposal_cid@),
{
    let t = node_type(s, ScopeNodeKind::Vote);
    JsonValue::Object(vec![
        text_member("type", t.as_str()),
        text_member("vote", vote),
        opt_text_member("comment", comment),
        text_member("votedAt", voted_at),
        text_member("voter", voter),
        text_member("proposalCid", proposal_cid),
    ])
}

/// The payload of a cooperative's bylaws or a community's charter; it starts
/// with status `Active`.
pub fn charter_payload(s: ScopeType, title: &str, content: &str, created_at: &str, author: &str) -> (r: JsonValue)
    ensures
        r matches JsonValue::Object(ms) && ms@.len() == 6
            && is_text_member(ms@[0], "type"@, scope_node_type(s, ScopeNodeKind::Charter))
            && is_text_member(ms@[1], "title"@, title@)
            && is_text_member(ms@[2], "content"@, content@)
            && is_text_member(ms@[3], "createdAt"@, created_at@)
            && is_text_member(ms@[4], "author"@, author@)
            && is_text_member(ms@[5], "status"@, "Active"@),
{
    let t = node_type(s, ScopeNodeKind::Charter);
    JsonValue::Object(vec![
        text_member("type", t.as_str()),
        text_member("title", title),
        text_member("content", content),
        text_member("createdAt", created_at),
        text_member("author", author),
        text_member("status", "Active"),
    ])
}

/// The fields a scope's join request names the scope and its genesis node by.
pub open spec fn join_request_fields(s: ScopeType) -> (Seq<char>, Seq<char>) {
    match s {
        ScopeType::Cooperative => ("cooperativeId"@, "cooperativeGenesisCid"@),
        ScopeType::Community => ("communityId"@, "communityGenesisCid"@),
    }
}

/// The payload of a scope's request to join a federation.
pub fn join_request_payload(
    s: ScopeType,
    scope_id: &str,
    federation_id: &str,
    scope_genesis_cid: &str,
    federation_genesis_cid: &str,
    requested_at: &str,
    requester: &str,
) -> (r: JsonValue)
    ensures
        r matches JsonValue::Object(ms) && ms@.len() == 7
            && is_text_member(ms@[0], "type"@, scope_node_type(s, ScopeNodeKind::JoinRequest))
            && is_text_member(ms@[1], join_request_fields(s).0, scope_id@)
            && is_text_member(ms@[2], "federationId"@, federation_id@)
            && is_text_member(ms@[3], join_request_fields(s).1, scope_genesis_cid@)
            && is_text_member(ms@[4], "federationGenesisCid"@, federation_genesis_cid@)
            && is_text_member(ms@[5], "requestedAt"@, requested_at@)
            && is_text_member(ms@[6], "requester"@, requester@),
{
    let t = node_type(s, ScopeNodeKind::JoinRequest);
    let (id_field, cid_field) = match s {
        ScopeType::Cooperative => ("cooperativeId", "cooperativeGenesisCid"),
        ScopeType::Community => ("communityId", "communityGenesisCid"),
    };
    JsonValue::Object(vec![
        text_member("type", t.as_str()),
        text_member(id_field, scope_id),
        text_member("federationId", federation_id),
        text_member(cid_field, scope_genesis_cid),
        text_member("federationGenesisCid", federation_genesis_cid),
        text_member("requestedAt", requested_at),
        text_member("requester", requester),
    ])
}

/// The payload of a scope's policy node, holding the policy as JSON.
pub fn policy_payload(s: ScopeType, policy: JsonValue, created_at: &str, author: &str) -> (r: JsonValue)
    ensures
        r matches JsonValue::Object(ms) && ms@.len() == 4
            && is_text_member(ms@[0], "type"@, scope_node_type(s, ScopeNodeKind::Policy))
            && ms@[1].key@ == "policy"@ && ms@[1].value == policy
            && is_text_member(ms@[2], "createdAt"@, created_at@)
            && is_text_member(ms@[3], "author"@, author@),
{
    let t = node_type(s, ScopeNodeKind::Policy);
    JsonValue::Object(vec![
        text_member("type", t.as_str()),
        value_member("policy", policy),
        text_member("createdAt", created_at),
        text_member("author", author),
    ])
}

/// The payload of a proposal to replace a scope's policy; the proposed policy
/// is carried as JSON text.
pub fn policy_update_proposal_payload(
    s: ScopeType,
    scope_id: &str,
    proposed_policy: &str,
    proposer: &str,
    description: &str,
    proposed_at: &str,
) -> (r: JsonValue)
    ensures
        r matches JsonValue::Object(ms) && ms@.len() == 7
            && is_text_member(ms@[0], "type"@, "PolicyUpdateProposal"@)
            && is_text_member(ms@[1], "scope_type"@, scope_title(s))
            && is_text_member(ms@[2], "scope_id"@, scope_id@)
            && is_text_member(ms@[3], "proposed_policy"@, proposed_policy@)
            && is_text_member(ms@[4], "proposer_did"@, proposer@)
            && is_text_member(ms@[5], "description"@, description@)
            && is_text_member(ms@[6], "proposed_at"@, proposed_at@),
{
    JsonValue::Object(vec![
        text_member("type", "PolicyUpdateProposal"),
        text_member("scope_type", s.title()),
        text_member("scope_id", scope_id),
        text_member("proposed_policy", proposed_policy),
        text_member("proposer_did", proposer),
        text_member("description", description),
        text_member("proposed_at", proposed_at),
    ])
}

/// The payload of a vote on a policy update proposal.
pub fn policy_update_vote_payload(
    proposal_cid: &str,
    choice: &str,
    reason: &Option<String>,
    voter: &str,
    voted_at: &str,
) -> (r: JsonValue)
    ensures
        r matches JsonValue::Object(ms) && ms@.len() == 6
            && is_text_member(ms@[0], "type"@, "PolicyUpdateVote"@)
            && is_text_member(ms@[1], "proposal_cid"@, proposal_cid@)
            && is_text_member(ms@[2], "choice"@, choice@)
            && is_opt_text_member(ms@[3], "reason"@, match reason { Some(c) => Some(c@), None => None })
            && is_text_member(ms@[4], "voter_did"@, voter@)
            && is_text_member(ms@[5], "voted_at"@, voted_at@),
{
    JsonValue::Object(vec![
        text_member("type", "PolicyUpdateVote"),
        text_member("proposal_cid", proposal_cid),
        text_member("choice", choice),
        opt_text_member("reason", reason),
        text_member("voter_did", voter),
        text_member("voted_at", voted_at),
    ])
}

/// The message for a federation that has no genesis node.
pub fn federation_not_found(federation_id: &str) -> (r: String)
    ensures
        r@ == "Federation '"@ + federation_id@ + "' not found"@,
{
    "Federation '".to_owned().concat(federation_id).concat("' not found")
}

/// The message for a scope that has no genesis node, e.g. `Community 'c1' not found`.
pub fn scope_not_found(s: ScopeType, scope_id: &str) -> (r: String)
    ensures
        r@ == scope_title(s) + " '"@ + scope_id@ + "' not found"@,
{
    s.title().to_owned().concat(" '").concat(scope_id).concat("' not found")
}

/// A node's scope id is `scope_id`.
pub open spec fn in_scope(sid: Option<String>, scope_id: Seq<char>) -> bool {
    sid matches Some(x) && x@ == scope_id
}

/// `r` lists, in increasing order, exactly the positions below `n` at which `p` holds.
pub open spec fn lists_positions(r: Seq<usize>, n: int, p: spec_fn(int) -> bool) -> bool {
    &&& forall|a: int, b: int| 0 <= a < b < r.len() ==> r[a] < r[b]
    &&& forall|a: int| 0 <= a < r.len() ==> r[a] < n && p(r[a] as int)
    &&& forall|i: int| 0 <= i < n && #[trigger] p(i) ==> r.contains(i as usize)
}

/// The positions of the nodes whose scope id is `scope_id`: the nodes a new
/// proposal or policy of the scope builds on.
pub fn nodes_in_scope(scope_ids: &Vec<Option<String>>, scope_id: &str) -> (r: Vec<usize>)
    ensures
        lists_positions(r@, scope_ids@.len() as int, |i: int| in_scope(scope_ids@[i], scope_id@)),
{
    let ghost p = |i: int| in_scope(scope_ids@[i], scope_id@);
    let mut r: Vec<usize> = Vec::new();
    let mut i: usize = 0;
    while i < scope_ids.len()
        invariant
            i <= scope_ids@.len(),
            p == (|i: int| in_scope(scope_ids@[i], scope_id@)),
            lists_positions(r@, i as int, p),
            forall|a: int| 0 <= a < r@.len() ==> r@[a] < i,
        decreases scope_ids.len() - i,
    {
        let hit = match &scope_ids[i] {
            Some(x) => str_eq(x.as_str(), scope_id),
            None => false,
        };
        let ghost old_r = r@;
        if hit {
            r.push(i);
            assert(r@[r@.len() - 1] == i);
        }
        assert forall|j: int| 0 <= j < i + 1 && #[trigger] p(j) implies r@.contains(j as usize) by {
            if j < i {
                assert(old_r.contains(j as usize));
                let k = choose|k: int| 0 <= k < old_r.len() && old_r[k] == j as usize;
                assert(r@[k] == old_r[k]);
            } else {
                assert(r@[r@.len() - 1] == j);
            }
        }
        i = i + 1;
    }
    r
}

/// The position of the first node whose scope id is `scope_id`: the genesis
/// node a charter or join request refers to.
pub fn first_in_scope(scope_ids: &Vec<Option<String>>, scope_id: &str) -> (r: Option<usize>)
    ensures
        match r {
            Some(i) => i < scope_ids@.len() && in_scope(scope_ids@[i as int], scope_id@)
                && forall|j: int| 0 <= j < i ==> !in_scope(scope_ids@[j], scope_id@),
            None => forall|j: int| 0 <= j < scope_ids@.len() ==> !in_scope(scope_ids@[j], scope_id@),
        },
{
    let mut i: usize = 0;
    while i < scope_ids.len()
        invariant
            i <= scope_ids@.len(),
            forall|j: int| 0 <= j < i ==> !in_scope(scope_ids@[j], scope_id@),
        decreases scope_ids.len() - i,
    {
        let hit = match &scope_ids[i] {
            Some(x) => str_eq(x.as_str(), scope_id),
            None => false,
        };
        if hit {
            return Some(i);
        }
        i = i + 1;
    }
    None
}

/// Where a node stands: its scope id and its scope.
#[derive(Debug)]
pub struct NodePlace {
    pub scope_id: Option<String>,
    pub scope: NodeScope,
}

/// The positions of the nodes of one scope's thread: the nodes with that
/// scope id and that kind of scope.
pub fn thread_nodes(places: &Vec<NodePlace>, s: ScopeType, scope_id: &str) -> (r: Vec<usize>)
    ensures
        lists_positions(r@, places@.len() as int,
            |i: int| in_scope(places@[i].scope_id, scope_id@)
                && places@[i].scope == (if s == ScopeType::Cooperative { NodeScope::Cooperative } else { NodeScope::Community })),
{
    let want = s.to_node_scope();
    let ghost p = |i: int| in_scope(places@[i].scope_id, scope_id@) && places@[i].scope == want;
    let mut r: Vec<usize> = Vec::new();
    let mut i: usize = 0;
    while i < places.len()
        invariant
            i <= places@.len(),
            want == (if s == ScopeType::Cooperative { NodeScope::Cooperative } else { NodeScope::Community }),
            p == (|i: int| in_scope(places@[i].scope_id, scope_id@) && places@[i].scope == want),
            lists_positions(r@, i as int, p),
            forall|a: int| 0 <= a < r@.len() ==> r@[a] < i,
        decreases places.len() - i,
    {
        let hit = match &places[i].scope_id {
            Some(x) => str_eq(x.as_str(), scope_id) && places[i].scope == want,
            None => false,
        };
        let ghost old_r = r@;
        if hit {
            r.push(i);
            assert(r@[r@.len() - 1] == i);
        }
        assert forall|j: int| 0 <= j < i + 1 && #[trigger] p(j) implies r@.contains(j as usize) by {
            if j < i {
                assert(old_r.contains(j as usize));
                let k = choose|k: int| 0 <= k < old_r.len() && old_r[k] == j as usize;
                assert(r@[k] == old_r[k]);
            } else {
                assert(r@[r@.len() - 1] == j);
            }
        }
        i = i + 1;
    }
    r
}

/// A payload is a vote of type `vote_type` whose member `field` names `cid`.
pub open spec fn is_vote_on(p: DagPayload, vote_type: Seq<char>, field: Seq<char>, cid: Seq<char>) -> bool {
    p matches DagPayload::Json(v) && json_get_str(v, "type"@) == Some(vote_type)
        && json_get_str(v, field) == Some(cid)
}

/// Whether a payload is such a vote.
pub fn payload_votes_on(p: &DagPayload, vote_type: &str, field: &str, cid: &str) -> (r: bool)
    ensures
        r == is_vote_on(*p, vote_type@, field@, cid@),
{
    match p {
        DagPayload::Json(v) => {
            let t = match v.get_str("type") {
                Some(t) => str_eq(t.as_str(), vote_type),
                None => false,
            };
            t && match v.get_str(field) {
                Some(c) => str_eq(c.as_str(), cid),
                None => false,
            }
        },
        _ => false,
    }
}

/// The positions of the votes of type `vote_type` cast on `cid`, which the
/// vote names in its member `field`.
pub fn votes_on(payloads: &Vec<DagPayload>, vote_type: &str, field: &str, cid: &str) -> (r: Vec<usize>)
    ensures
        lists_positions(r@, payloads@.len() as int, |i: int| is_vote_on(payloads@[i], vote_type@, field@, cid@)),
{
    let ghost p = |i: int| is_vote_on(payloads@[i], vote_type@, field@, cid@);
    let mut r: Vec<usize> = Vec::new();
    let mut i: usize = 0;
    while i < payloads.len()
        invariant
            i <= payloads@.len(),
            p == (|i: int| is_vote_on(payloads@[i], vote_type@, field@, cid@)),
            lists_positions(r@, i as int, p),
            forall|a: int| 0 <= a < r@.len() ==> r@[a] < i,
        decreases payloads.len() - i,
    {
        let ghost old_r = r@;
        if payload_votes_on(&payloads[i], vote_type, field, cid) {
            r.push(i);
            assert(r@[r@.len() - 1] == i);
        }
        assert forall|j: int| 0 <= j < i + 1 && #[trigger] p(j) implies r@.contains(j as usize) by {
            if j < i {
                assert(old_r.contains(j as usize));
                let k = choose|k: int| 0 <= k < old_r.len() && old_r[k] == j as usize;
                assert(r@[k] == old_r[k]);
            } else {
                assert(r@[r@.len() - 1] == j);
            }
        }
        i = i + 1;
    }
    r
}

/// A vote approves a policy update when its `choice` is `approve`.
pub open spec fn approves(p: DagPayload) -> bool {
    p matches DagPayload::Json(v) && json_get_str(v, "choice"@) == Some("approve"@)
}

/// The number of approving votes among the first `n`.
pub open spec fn approvals(votes: Seq<DagPayload>, n: int) -> nat
    decreases n,
{
    if n <= 0 {
        0
    } else {
        approvals(votes, n - 1) + if approves(votes[n - 1]) { 1nat } else { 0nat }
    }
}

/// How a policy update vote comes out: at least three votes, and a majority
/// of them approving; otherwise the refusal text.
pub open spec fn policy_update_verdict(votes: Seq<DagPayload>) -> Option<Seq<char>> {
    let n = votes.len();
    let a = approvals(votes, n as int);
    if n < 3 {
        Some("Not enough votes to approve policy update. Need at least 3, got "@ + decimal_digits(n))
    } else if a * 2 <= n {
        Some("Policy update not approved. Need majority, got "@ + decimal_digits(a) + "/"@ + decimal_digits(n))
    } else {
        None
    }
}

proof fn lemma_approvals_le(votes: Seq<DagPayload>, n: int)
    ensures
        approvals(votes, n) <= if n < 0 { 0 } else { n },
    decreases n,
{
    if n > 0 {
        lemma_approvals_le(votes, n - 1);
    }
}

/// Decides a policy update from the votes cast on it; a refusal is a
/// `SerializationError`.
pub fn tally_policy_update(votes: &Vec<DagPayload>) -> (r: Result<(), CliError>)
    ensures
        match policy_update_verdict(votes@) {
            None => r is Ok,
            Some(m) => r matches Err(CliError::SerializationError(x)) && x@ == m,
        },
{
    let n = votes.len();
    if n < 3 {
        return Err(CliError::SerializationError(
            "Not enough votes to approve policy update. Need at least 3, got ".to_owned()
                .concat(decimal_text(n as u64).as_str())));
    }
    let mut a: usize = 0;
    let mut i: usize = 0;
    while i < n
        invariant
            n == votes@.len(),
            i <= n,
            a == approvals(votes@, i as int),
            a <= i,
        decreases n - i,
    {
        let yes = match &votes[i] {
            DagPayload::Json(v) => match v.get_str("choice") {
                Some(c) => str_eq(c.as_str(), "approve"),
                None => false,
            },
            _ => false,
        };
        if yes {
            a = a + 1;
        }
        i = i + 1;
    }
    if a <= n / 2 {
        return Err(CliError::SerializationError(
            "Policy update not approved. Need majority, got ".to_owned()
                .concat(decimal_text(a as u64).as_str()).concat("/")
                .concat(decimal_text(n as u64).as_str())));
    }
    Ok(())
}

/// A policy update is approved only with at least three votes, more than
/// half of them approving.
pub proof fn law_policy_update_needs_majority(votes: Seq<DagPayload>)
    requires
        policy_update_verdict(votes) is None,
    ensures
        votes.len() >= 3,
        approvals(votes, votes.len() as int) * 2 > votes.len(),
{
}

#[derive(Debug)]
pub struct ScopeOptions {
    /// The scope type (cooperative or community)
    pub scope_type: String,

    /// Scope ID (cooperative ID or community ID)
    pub scope_id: String,

    /// Federation ID
    pub federation_id: String,

    /// Path to the signing key file
    pub key: String,

    /// Optional path to DAG storage directory
    pub dag_dir: Option<String>,
}

#[derive(Debug)]
pub enum ScopeCommands {
    /// Create a new scope (cooperative or community) in the federation
    Create {
        options: ScopeOptions,

        /// Description of the scope
        description: Option<String>,
    },

    /// Create a new proposal in the scope's DAG
    Propose {
        options: ScopeOptions,

        /// Proposal title
        title: String,

        /// Proposal content file
        content: String,
    },

    /// Vote on a proposal in the scope's DAG
    Vote {
        options: ScopeOptions,

        /// Proposal CID
        proposal_cid: String,

        /// Vote (yes/no)
        vote: String,

        /// Optional comment
        comment: Option<String>,
    },

    /// Create a charter (for communities) or bylaws (for cooperatives)
    CreateCharter {
        options: ScopeOptions,

        /// Charter title
        title: String,

        /// Charter content file
        content: String,
    },

    /// Export a scope's DAG thread
    ExportThread {
        options: ScopeOptions,

        /// Output file
        output: String,
    },

    /// Join a scope to a federation
    JoinFederation {
        options: ScopeOptions,
    },

    /// Set a policy for a scope
    SetPolicy {
        /// Scope options (type, id, federation)
        options: ScopeOptions,

        /// Path to a JSON file containing the policy configuration
        policy_file: String,
    },

    /// Propose a policy update for a scope
    ProposeUpdatePolicy {
        /// Scope options (type, id, federation)
        options: ScopeOptions,

        /// Path to a JSON file containing the new policy configuration
        policy_file: String,

        /// Description of the proposed policy update
        description: String,
    },

    /// Vote on a policy update proposal
    VoteUpdatePolicy {
        /// Scope options (type, id, federation)
        options: ScopeOptions,

        /// CID of the policy update proposal
        proposal_cid: String,

        /// Vote choice (approve/reject)
        vote: String,

        /// Optional reason for your vote
        reason: Option<String>,
    },

    /// Finalize a policy update with a quorum proof
    FinalizeUpdatePolicy {
        /// Scope options (type, id, federation)
        options: ScopeOptions,

        /// CID of the policy update proposal
        proposal_cid: String,
    },

    /// View DAG thread for a scope
    DagView {
        /// The scope type (cooperative or community)
        scope_type: String,

        /// Scope ID (cooperative ID or community ID)
        scope_id: String,

        /// Optional path to DAG storage directory
        dag_dir: Option<String>,

        /// Output format (text or json)
        output: String,

        /// Maximum number of results to show
        limit: usize,
    },

    /// Inspect policy for a scope
    InspectPolicy {
        /// The scope type (cooperative or community)
        scope_type: String,

        /// Scope ID (cooperative ID or community ID)
        scope_id: String,

        /// Optional path to DAG storage directory
        dag_dir: Option<String>,

        /// Output format (text or json)
        output: String,

        /// Maximum number of results to show
        limit: usize,
    },

    /// View governance activity log for a scope
    ActivityLog {
        /// The scope type (cooperative or community)
        scope_type: String,

        /// Scope ID (cooperative ID or community ID)
        scope_id: String,

        /// Optional path to DAG storage directory
        dag_dir: Option<String>,

        /// Output format (text or json)
        output: String,

        /// Maximum number of results to show
        limit: usize,
    },
}

#[derive(Debug)]
pub enum CommunityCommands {
    /// Create a new community in the federation
    Create {
        /// Community ID
        community_id: String,

        /// Federation ID
        federation_id: String,

        /// Path to the signing key file
        key: String,

        /// Description of the community
        description: Option<String>,

        /// Optional path to DAG storage directory
        dag_dir: Option<String>,
    },

    /// Create a new proposal in the community's DAG
    Propose {
        /// Community ID
        community_id: String,

        /// Federation ID
        federation_id: String,

        /// Proposal title
        title: String,

        /// Proposal content file
        content: String,

        /// Path to the signing key file
        key: String,

        /// Optional path to DAG storage directory
        dag_dir: Option<String>,
    },

    /// Vote on a proposal in the community's DAG
    Vote {
        /// Community ID
        community_id: String,

        /// Federation ID
        federation_id: String,

        /// Proposal CID
        proposal_cid: String,

        /// Vote (yes/no)
        vote: String,

        /// Optional comment
        comment: Option<String>,

        /// Path to the signing key file
        key: String,

        /// Optional path to DAG storage directory
        dag_dir: Option<String>,
    },

    /// Create a charter for the community
    CreateCharter {
        /// Community ID
        community_id: String,

        /// Federation ID
        federation_id: String,

        /// Charter title
        title: String,

        /// Charter content file
        content: String,

        /// Path to the signing key file
        key: String,

        /// Optional path to DAG storage directory
        dag_dir: Option<String>,
    },

    /// Export a community's DAG thread
    ExportThread {
        /// Community ID
        community_id: String,

        /// Federation ID
        federation_id: String,

        /// Output file
        output: String,

        /// Optional path to DAG storage directory
        dag_dir: Option<String>,
    },

    /// Join a community to a federation
    JoinFederation {
        /// Community ID
        community_id: String,

        /// Federation ID to join
        federation_id: String,

        /// Path to the signing key file
        key: String,

        /// Optional path to DAG storage directory
        dag_dir: Option<String>,
    },
}

#[derive(Debug)]
pub enum CoopCommands {
    /// Create a new cooperative in the federation
    Create {
        /// Cooperative ID
        coop_id: String,

        /// Federation ID
        federation_id: String,

        /// Path to the signing key file
        key: String,

        /// Description of the cooperative
        description: Option<String>,

        /// Optional path to DAG storage directory
        dag_dir: Option<String>,
    },

    /// Create a new proposal in the cooperative's DAG
    Propose {
        /// Cooperative ID
        coop_id: String,

        /// Federation ID
        federation_id: String,

        /// Proposal title
        title: String,

        /// Proposal content file
        content: String,

        /// Path to the signing key file
        key: String,

        /// Optional path to DAG storage directory
        dag_dir: Option<String>,
    },

    /// Vote on a proposal in the cooperative's DAG
    Vote {
        /// Cooperative ID
        coop_id: String,

        /// Federation ID
        federation_id: String,

        /// Proposal CID
        proposal_cid: String,

        /// Vote (yes/no)
        vote: String,

        /// Optional comment
        comment: Option<String>,

        /// Path to the signing key file
        key: String,

        /// Optional path to DAG storage directory
        dag_dir: Option<String>,
    },

    /// Export a cooperative's DAG thread
    ExportThread {
        /// Cooperative ID
        coop_id: String,

        /// Federation ID
        federation_id: String,

        /// Output file
        output: String,

        /// Optional path to DAG storage directory
        dag_dir: Option<String>,
    },

    /// Join a cooperative to a federation
    JoinFederation {
        /// Cooperative ID
        coop_id: String,

        /// Federation ID to join
        federation_id: String,

        /// Path to the signing key file
        key: String,

        /// Optional path to DAG storage directory
        dag_dir: Option<String>,
    },
}

/// A DAG node to be written: its author, federation, scope, label, payload and
/// parents. Signing and storing it is the caller's.
#[derive(Debug)]
pub struct NodeDraft {
    pub author: String,
    pub federation_id: String,
    pub scope: NodeScope,
    pub scope_id: Option<String>,
    pub label: Option<String>,
    pub payload: JsonValue,
    pub parents: Vec<String>,
}

/// The node scope of a scope type.
pub open spec fn node_scope_of(s: ScopeType) -> NodeScope {
    match s {
        ScopeType::Cooperative => NodeScope::Cooperative,
        ScopeType::Community => NodeScope::Community,
    }
}

/// The genesis node a new cooperative or community is created with: written by
/// its founder in the scope it opens, labelled with its genesis type, with no
/// parents.
pub fn scope_genesis_draft(
    s: ScopeType,
    scope_id: &str,
    federation_id: &str,
    description: &Option<String>,
    created_at: &str,
    founder: &str,
) -> (r: NodeDraft)
    ensures
        r.author@ == founder@,
        r.federation_id@ == federation_id@,
        r.scope == node_scope_of(s),
        r.scope_id matches Some(x) && x@ == scope_id@,
        r.label matches Some(l) && l@ == scope_node_type(s, ScopeNodeKind::Genesis),
        r.parents@.len() == 0,
        r.payload matches JsonValue::Object(ms) && ms@.len() == 6
            && is_text_member(ms@[0], "type"@, scope_node_type(s, ScopeNodeKind::Genesis))
            && is_text_member(ms@[1], "name"@, scope_id@)
            && is_text_member(ms@[2], "federationId"@, federation_id@)
            && is_text_member(ms@[3], "description"@, match description {
                Some(d) => d@,
                None => scope_title(s) + " "@ + scope_id@,
            })
            && is_text_member(ms@[4], "createdAt"@, created_at@)
            && is_text_member(ms@[5], "founder"@, founder@),
{
    NodeDraft {
        author: founder.to_owned(),
        federation_id: federation_id.to_owned(),
        scope: s.to_node_scope(),
        scope_id: Some(scope_id.to_owned()),
        label: Some(node_type(s, ScopeNodeKind::Genesis)),
        payload: genesis_payload(s, scope_id, federation_id, description, created_at, founder),
        parents: Vec::new(),
    }
}

/// A payload is JSON whose `type` is `t`.
pub open spec fn typed(p: DagPayload, t: Seq<char>) -> bool {
    p matches DagPayload::Json(v) && json_get_str(v, "type"@) == Some(t)
}

/// The position of the first node whose payload is of type `t` (and, when
/// `scope_id` is given, whose scope id it is), if any.
pub open spec fn first_typed(
    nodes: Seq<crate::dag::SignedDagNode>, t: Seq<char>, scope_id: Option<Seq<char>>, from: int,
) -> Option<int>
    decreases nodes.len() - from,
{
    if from < 0 || from >= nodes.len() {
        None
    } else if typed(nodes[from].node.payload, t) && match scope_id {
        Some(id) => nodes[from].node.metadata.scope_id matches Some(x) && x@ == id,
        None => true,
    } {
        Some(from)
    } else {
        first_typed(nodes, t, scope_id, from + 1)
    }
}

fn find_typed(nodes: &Vec<crate::dag::SignedDagNode>, t: &str, scope_id: &Option<String>) -> (r: Option<usize>)
    ensures
        match r {
            Some(k) => first_typed(nodes@, t@, match scope_id { Some(x) => Some(x@), None => None }, 0)
                == Some(k as int) && k < nodes@.len(),
            None => first_typed(nodes@, t@, match scope_id { Some(x) => Some(x@), None => None }, 0) is None,
        },
{
    let ghost sid = match scope_id { Some(x) => Some(x@), None => None::<Seq<char>> };
    let mut i: usize = 0;
    while i < nodes.len()
        invariant
            i <= nodes@.len(),
            sid == match scope_id { Some(x) => Some(x@), None => None::<Seq<char>> },
            first_typed(nodes@, t@, sid, 0) == first_typed(nodes@, t@, sid, i as int),
        decreases nodes.len() - i,
    {
        let node = &nodes[i];
        let is_t = match &node.node.payload {
            DagPayload::Json(v) => match v.get_str("type") {
                Some(x) => str_eq(x.as_str(), t),
                None => false,
            },
            _ => false,
        };
        let in_place = match scope_id {
            Some(id) => match &node.node.metadata.scope_id {
                Some(x) => str_eq(x.as_str(), id.as_str()),
                None => false,
            },
            None => true,
        };
        if is_t && in_place {
            return Some(i);
        }
        i = i + 1;
    }
    None
}

/// Asking to join a federation: the federation's genesis node must be at hand
/// (the first `FederationGenesis` node), then the scope's own (the first
/// genesis node of its type with its scope id); the request is written in
/// the federation scope under the requester, with both genesis nodes as
/// parents. `cids` holds the CID of each node.
pub fn join_federation_draft(
    nodes: &Vec<crate::dag::SignedDagNode>,
    cids: &Vec<String>,
    s: ScopeType,
    scope_id: &str,
    federation_id: &str,
    requested_at: &str,
    requester: &str,
) -> (r: Result<NodeDraft, CliError>)
    requires
        cids@.len() == nodes@.len(),
    ensures
        match first_typed(nodes@, "FederationGenesis"@, None, 0) {
            None => r matches Err(CliError::SerializationError(m)) && m@ == "Federation '"@ + federation_id@ + "' not found"@,
            Some(f) => match first_typed(nodes@, scope_node_type(s, ScopeNodeKind::Genesis), Some(scope_id@), 0) {
                None => r matches Err(CliError::SerializationError(m))
                    && m@ == scope_title(s) + " '"@ + scope_id@ + "' not found"@,
                Some(g) => r matches Ok(d)
                    && d.author@ == requester@
                    && d.federation_id@ == federation_id@
                    && d.scope == NodeScope::Federation
                    && d.scope_id is None
                    && (d.label matches Some(l) && l@ == scope_node_type(s, ScopeNodeKind::JoinRequest))
                    && texts(d.parents@) == seq![cids@[f]@, cids@[g]@]
                    && (d.payload matches JsonValue::Object(ms) && ms@.len() == 7
                    && is_text_member(ms@[0], "type"@, scope_node_type(s, ScopeNodeKind::JoinRequest))
                    && is_text_member(ms@[1], join_request_fields(s).0, scope_id@)
                    && is_text_member(ms@[2], "federationId"@, federation_id@)
                    && is_text_member(ms@[3], join_request_fields(s).1, cids@[g]@)
                    && is_text_member(ms@[4], "federationGenesisCid"@, cids@[f]@)
                    && is_text_member(ms@[5], "requestedAt"@, requested_at@)
                    && is_text_member(ms@[6], "requester"@, requester@)),
            },
        },
{
    let f = match find_typed(nodes, "FederationGenesis", &None) {
        None => {
            return Err(CliError::SerializationError(federation_not_found(federation_id)));
        },
        Some(f) => f,
    };
    let gt = node_type(s, ScopeNodeKind::Genesis);
    let g = match find_typed(nodes, gt.as_str(), &Some(scope_id.to_owned())) {
        None => {
            return Err(CliError::SerializationError(scope_not_found(s, scope_id)));
        },
        Some(g) => g,
    };
    let payload = join_request_payload(s, scope_id, federation_id, cids[g].as_str(), cids[f].as_str(), requested_at, requester);
    let mut parents: Vec<String> = Vec::new();
    parents.push(cids[f].clone());
    parents.push(cids[g].clone());
    assert(texts(parents@) == seq![cids@[f as int]@, cids@[g as int]@]);
    Ok(NodeDraft {
        author: requester.to_owned(),
        federation_id: federation_id.to_owned(),
        scope: NodeScope::Federation,
        scope_id: None,
        label: Some(node_type(s, ScopeNodeKind::JoinRequest)),
        payload,
        parents,
    })
}

/// A node is a vote on the policy update proposal with CID `cid`.
pub open spec fn is_policy_vote(n: crate::dag::SignedDagNode, cid: Seq<char>) -> bool {
    is_vote_on(n.node.payload, "PolicyUpdateVote"@, "proposal_cid"@, cid)
}

/// The votes on the policy update `cid` among the first `k` nodes, in order.
pub open spec fn policy_votes(nodes: Seq<crate::dag::SignedDagNode>, cid: Seq<char>, k: int) -> Seq<crate::dag::SignedDagNode>
    decreases k,
{
    if k <= 0 {
        Seq::empty()
    } else {
        let before = policy_votes(nodes, cid, k - 1);
        if is_policy_vote(nodes[k - 1], cid) {
            before.push(nodes[k - 1])
        } else {
            before
        }
    }
}

/// The payloads of some nodes.
pub open spec fn payloads_of(ns: Seq<crate::dag::SignedDagNode>) -> Seq<DagPayload> {
    ns.map_values(|n: crate::dag::SignedDagNode| n.node.payload)
}

/// The authors of some nodes.
pub open spec fn authors_of(ns: Seq<crate::dag::SignedDagNode>) -> Seq<Seq<char>> {
    ns.map_values(|n: crate::dag::SignedDagNode| n.node.author@)
}

/// The texts of an array of JSON strings, when every entry is one.
pub open spec fn string_array(v: JsonValue, texts: Seq<Seq<char>>) -> bool {
    v matches JsonValue::Array(a) && a@.len() == texts.len()
        && forall|i: int| 0 <= i < texts.len() ==> ((#[trigger] a@[i]) matches JsonValue::Str(x) && x@ == texts[i])
}

/// The payload approving the policy update `cid`: its quorum proof names the
/// proposal and lists the voters' DIDs.
pub open spec fn approval_payload(
    v: JsonValue, cid: Seq<char>, voters: Seq<Seq<char>>, federation_id: Seq<char>, approver: Seq<char>, now: Seq<char>,
) -> bool {
    &&& v matches JsonValue::Object(ms)
    &&& ms@.len() == 5
    &&& is_text_member(ms@[0], "type"@, "PolicyUpdateApproval"@)
    &&& is_text_member(ms@[1], "proposal_cid"@, cid)
    &&& ms@[2].key@ == "quorum_proof"@
    &&& ms@[2].value matches JsonValue::Object(qs)
    &&& qs@.len() == 6
    &&& is_text_member(qs@[0], "content_cid"@, cid)
    &&& qs@[1].key@ == "signatures"@ && string_array(qs@[1].value, voters)
    &&& qs@[2].key@ == "approved"@ && qs@[2].value == JsonValue::Bool(true)
    &&& is_text_member(qs@[3], "timestamp"@, now)
    &&& is_text_member(qs@[4], "federation_id"@, federation_id)
    &&& is_text_member(qs@[5], "issuer"@, approver)
    &&& is_text_member(ms@[3], "approver_did"@, approver)
    &&& is_text_member(ms@[4], "approved_at"@, now)
}

proof fn lemma_approvals_push(votes: Seq<DagPayload>, x: DagPayload, n: int)
    requires
        0 <= n <= votes.len(),
    ensures
        approvals(votes.push(x), n) == approvals(votes, n),
    decreases n,
{
    if n > 0 {
        lemma_approvals_push(votes, x, n - 1);
    }
}

/// Finalises a policy update: the votes on it (nodes of type
/// `PolicyUpdateVote` naming it in `proposal_cid`, in the DAG's order) must
/// number at least three with a majority approving; the approval is then
/// written in the scope by the approver, with the proposal as its parent and a
/// quorum proof listing the voters.
pub fn policy_update_approval_draft(
    nodes: &Vec<crate::dag::SignedDagNode>,
    proposal_cid: &str,
    s: ScopeType,
    scope_id: &str,
    federation_id: &str,
    approver: &str,
    now: &str,
) -> (r: Result<NodeDraft, CliError>)
    ensures
        ({
            let votes = policy_votes(nodes@, proposal_cid@, nodes@.len() as int);
            match policy_update_verdict(payloads_of(votes)) {
                Some(m) => r matches Err(CliError::SerializationError(x)) && x@ == m,
                None => r matches Ok(d)
                    && d.author@ == approver@
                    && d.federation_id@ == federation_id@
                    && d.scope == node_scope_of(s)
                    && (d.scope_id matches Some(x) && x@ == scope_id@)
                    && (d.label matches Some(l) && l@ == "PolicyUpdateApproval"@)
                    && texts(d.parents@) == seq![proposal_cid@]
                    && approval_payload(d.payload, proposal_cid@, authors_of(votes), federation_id@, approver@, now@),
            }
        }),
{
    let mut voters: Vec<JsonValue> = Vec::new();
    let mut n: usize = 0;
    let mut a: usize = 0;
    let mut i: usize = 0;
    while i < nodes.len()
        invariant
            i <= nodes@.len(),
            n <= i,
            a <= n,
            ({
                let vs = policy_votes(nodes@, proposal_cid@, i as int);
                &&& n == vs.len()
                &&& a == approvals(payloads_of(vs), vs.len() as int)
                &&& string_array(JsonValue::Array(voters), authors_of(vs))
            }),
        decreases nodes.len() - i,
    {
        let ghost vs = policy_votes(nodes@, proposal_cid@, i as int);
        let node = &nodes[i];
        if payload_votes_on(&node.node.payload, "PolicyUpdateVote", "proposal_cid", proposal_cid) {
            let yes = match &node.node.payload {
                DagPayload::Json(v) => match v.get_str("choice") {
                    Some(c) => str_eq(c.as_str(), "approve"),
                    None => false,
                },
                _ => false,
            };
            proof {
                let vs2 = vs.push(nodes@[i as int]);
                assert(payloads_of(vs2) == payloads_of(vs).push(nodes@[i as int].node.payload));
                lemma_approvals_push(payloads_of(vs), nodes@[i as int].node.payload, vs.len() as int);
                assert(authors_of(vs2) == authors_of(vs).push(nodes@[i as int].node.author@));
            }
            if yes {
                a = a + 1;
            }
            n = n + 1;
            let ghost before = voters@;
            voters.push(JsonValue::Str(node.node.author.clone()));
            proof {
                let vs2 = vs.push(nodes@[i as int]);
                assert forall|k: int| 0 <= k < authors_of(vs2).len() implies ((#[trigger] voters@[k]) matches JsonValue::Str(x)
                    && x@ == authors_of(vs2)[k]) by {
                    if k < before.len() {
                        assert(voters@[k] == before[k]);
                    }
                }
            }
        }
        i = i + 1;
    }
    if n < 3 {
        return Err(CliError::SerializationError(
            "Not enough votes to approve policy update. Need at least 3, got ".to_owned()
                .concat(decimal_text(n as u64).as_str())));
    }
    if a <= n / 2 {
        return Err(CliError::SerializationError(
            "Policy update not approved. Need majority, got ".to_owned()
                .concat(decimal_text(a as u64).as_str()).concat("/")
                .concat(decimal_text(n as u64).as_str())));
    }
    let proof_value = JsonValue::Object(vec![
        text_member("content_cid", proposal_cid),
        value_member("signatures", JsonValue::Array(voters)),
        value_member("approved", JsonValue::Bool(true)),
        text_member("timestamp", now),
        text_member("federation_id", federation_id),
        text_member("issuer", approver),
    ]);
    let payload = JsonValue::Object(vec![
        text_member("type", "PolicyUpdateApproval"),
        text_member("proposal_cid", proposal_cid),
        value_member("quorum_proof", proof_value),
        text_member("approver_did", approver),
        text_member("approved_at", now),
    ]);
    let mut parents: Vec<String> = Vec::new();
    parents.push(proposal_cid.to_owned());
    assert(texts(parents@) == seq![proposal_cid@]);
    Ok(NodeDraft {
        author: approver.to_owned(),
        federation_id: federation_id.to_owned(),
        scope: s.to_node_scope(),
        scope_id: Some(scope_id.to_owned()),
        label: Some("PolicyUpdateApproval".to_owned()),
        payload,
        parents,
    })
}

/// The CIDs of the nodes among the first `k` whose scope id is `scope_id`, in
/// order.
pub open spec fn scope_cids(scope_ids: Seq<Option<String>>, cids: Seq<String>, scope_id: Seq<char>, k: int) -> Seq<Seq<char>>
    decreases k,
{
    if k <= 0 {
        Seq::empty()
    } else {
        let before = scope_cids(scope_ids, cids, scope_id, k - 1);
        if in_scope(scope_ids[k - 1], scope_id) {
            before.push(cids[k - 1]@)
        } else {
            before
        }
    }
}

fn cids_in_scope(scope_ids: &Vec<Option<String>>, cids: &Vec<String>, scope_id: &str) -> (r: Vec<String>)
    requires
        cids@.len() == scope_ids@.len(),
    ensures
        texts(r@) == scope_cids(scope_ids@, cids@, scope_id@, scope_ids@.len() as int),
{
    let mut r: Vec<String> = Vec::new();
    let mut i: usize = 0;
    while i < scope_ids.len()
        invariant
            i <= scope_ids@.len(),
            cids@.len() == scope_ids@.len(),
            texts(r@) == scope_cids(scope_ids@, cids@, scope_id@, i as int),
        decreases scope_ids.len() - i,
    {
        let hit = match &scope_ids[i] {
            Some(x) => str_eq(x.as_str(), scope_id),
            None => false,
        };
        if hit {
            let ghost before = r@;
            r.push(cids[i].clone());
            assert(texts(r@) == texts(before).push(cids@[i as int]@));
        }
        i = i + 1;
    }
    r
}

fn in_scope_draft(
    s: ScopeType, scope_id: &str, federation_id: &str, author: &str, label: &str, payload: JsonValue,
    parents: Vec<String>,
) -> (r: NodeDraft)
    ensures
        r.author@ == author@,
        r.federation_id@ == federation_id@,
        r.scope == node_scope_of(s),
        r.scope_id matches Some(x) && x@ == scope_id@,
        r.label matches Some(l) && l@ == label@,
        r.payload == payload,
        r.parents@ == parents@,
{
    NodeDraft {
        author: author.to_owned(),
        federation_id: federation_id.to_owned(),
        scope: s.to_node_scope(),
        scope_id: Some(scope_id.to_owned()),
        label: Some(label.to_owned()),
        payload,
        parents,
    }
}

/// A proposal, a policy or a policy update proposal of a scope: written in the
/// scope under `label`, with every node of the scope that the store gave as
/// parents. `scope_ids` and `cids` describe the nodes the store gave, in its
/// order.
pub fn scope_thread_draft(
    s: ScopeType,
    scope_id: &str,
    federation_id: &str,
    author: &str,
    label: &str,
    payload: JsonValue,
    scope_ids: &Vec<Option<String>>,
    cids: &Vec<String>,
) -> (r: NodeDraft)
    requires
        cids@.len() == scope_ids@.len(),
    ensures
        r.author@ == author@,
        r.federation_id@ == federation_id@,
        r.scope == node_scope_of(s),
        r.scope_id matches Some(x) && x@ == scope_id@,
        r.label matches Some(l) && l@ == label@,
        r.payload == payload,
        texts(r.parents@) == scope_cids(scope_ids@, cids@, scope_id@, scope_ids@.len() as int),
{
    let parents = cids_in_scope(scope_ids, cids, scope_id);
    in_scope_draft(s, scope_id, federation_id, author, label, payload, parents)
}

/// A cooperative's bylaws or a community's charter: written in the scope, with
/// the scope's genesis node (the first node of the scope among the genesis
/// nodes the store gave) as its parent when there is one.
pub fn charter_draft(
    s: ScopeType,
    scope_id: &str,
    federation_id: &str,
    title: &str,
    content: &str,
    created_at: &str,
    author: &str,
    scope_ids: &Vec<Option<String>>,
    cids: &Vec<String>,
) -> (r: NodeDraft)
    requires
        cids@.len() == scope_ids@.len(),
    ensures
        r.author@ == author@,
        r.federation_id@ == federation_id@,
        r.scope == node_scope_of(s),
        r.scope_id matches Some(x) && x@ == scope_id@,
        r.label matches Some(l) && l@ == scope_node_type(s, ScopeNodeKind::Charter),
        ({
            let found = scope_cids(scope_ids@, cids@, scope_id@, scope_ids@.len() as int);
            texts(r.parents@) == if found.len() == 0 { Seq::empty() } else { seq![found[0]] }
        }),
        r.payload matches JsonValue::Object(ms) && ms@.len() == 6
            && is_text_member(ms@[0], "type"@, scope_node_type(s, ScopeNodeKind::Charter))
            && is_text_member(ms@[1], "title"@, title@)
            && is_text_member(ms@[2], "content"@, content@)
            && is_text_member(ms@[3], "createdAt"@, created_at@)
            && is_text_member(ms@[4], "author"@, author@)
            && is_text_member(ms@[5], "status"@, "Active"@),
{
    let found = cids_in_scope(scope_ids, cids, scope_id);
    let mut parents: Vec<String> = Vec::new();
    if found.len() > 0 {
        parents.push(found[0].clone());
    }
    let label = node_type(s, ScopeNodeKind::Charter);
    let payload = charter_payload(s, title, content, created_at, author);
    in_scope_draft(s, scope_id, federation_id, author, label.as_str(), payload, parents)
}

/// A vote in a scope: written in the scope by the voter, with the proposal
/// voted on as its one parent.
pub fn scope_vote_draft(
    s: ScopeType,
    scope_id: &str,
    federation_id: &str,
    proposal_cid: &str,
    vote: &str,
    comment: &Option<String>,
    voted_at: &str,
    voter: &str,
) -> (r: NodeDraft)
    ensures
        r.author@ == voter@,
        r.federation_id@ == federation_id@,
        r.scope == node_scope_of(s),
        r.scope_id matches Some(x) && x@ == scope_id@,
        r.label matches Some(l) && l@ == scope_node_type(s, ScopeNodeKind::Vote),
        texts(r.parents@) == seq![proposal_cid@],
        r.payload matches JsonValue::Object(ms) && ms@.len() == 6
            && is_text_member(ms@[0], "type"@, scope_node_type(s, ScopeNodeKind::Vote))
            && is_text_member(ms@[1], "vote"@, vote@)
            && is_opt_text_member(ms@[2], "comment"@, match comment { Some(c) => Some(c@), None => None })
            && is_text_member(ms@[3], "votedAt"@, voted_at@)
            && is_text_member(ms@[4], "voter"@, voter@)
            && is_text_member(ms@[5], "proposalCid"@, proposal_cid@),
{
    let mut parents: Vec<String> = Vec::new();
    parents.push(proposal_cid.to_owned());
    assert(texts(parents@) == seq![proposal_cid@]);
    let label = node_type(s, ScopeNodeKind::Vote);
    let payload = vote_payload(s, vote, comment, voted_at, voter, proposal_cid);
    in_scope_draft(s, scope_id, federation_id, voter, label.as_str(), payload, parents)
}

/// A vote on a policy update: written in the scope by the voter, with the
/// policy update proposal as its one parent.
pub fn policy_update_vote_draft(
    s: ScopeType,
    scope_id: &str,
    federation_id: &str,
    proposal_cid: &str,
    choice: &str,
    reason: &Option<String>,
    voter: &str,
    voted_at: &str,
) -> (r: NodeDraft)
    ensures
        r.author@ == voter@,
        r.federation_id@ == federation_id@,
        r.scope == node_scope_of(s),
        r.scope_id matches Some(x) && x@ == scope_id@,
        r.label matches Some(l) && l@ == "PolicyUpdateVote"@,
        texts(r.parents@) == seq![proposal_cid@],
        r.payload matches JsonValue::Object(ms) && ms@.len() == 6
            && is_text_member(ms@[0], "type"@, "PolicyUpdateVote"@)
            && is_text_member(ms@[1], "proposal_cid"@, proposal_cid@)
            && is_text_member(ms@[2], "choice"@, choice@)
            && is_opt_text_member(ms@[3], "reason"@, match reason { Some(c) => Some(c@), None => None })
            && is_text_member(ms@[4], "voter_did"@, voter@)
            && is_text_member(ms@[5], "voted_at"@, voted_at@),
{
    let mut parents: Vec<String> = Vec::new();
    parents.push(proposal_cid.to_owned());
    assert(texts(parents@) == seq![proposal_cid@]);
    let payload = policy_update_vote_payload(proposal_cid, choice, reason, voter, voted_at);
    in_scope_draft(s, scope_id, federation_id, voter, "PolicyUpdateVote", payload, parents)
}

} // verus!
