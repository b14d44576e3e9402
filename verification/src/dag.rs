//! DAG nodes as the runtime sees them, and the policy check every node passes
//! before it is added to the DAG.
use vstd::prelude::*;
use crate::json::{JsonValue, json_get, json_get_str, json_reading, read_json};
use crate::policy::{
    Did, MembershipIndex, NodeScope, PolicyError, PolicyLoader, ScopeType, evaluate_policy,
    node_scope_name, policy_decision, scope_name, ScopePolicyConfig, policy_view,
};
use crate::text::{starts_with, str_eq};
use vstd::string::*;

verus! {

/// Metadata carried by every DAG node.
#[derive(Debug)]
pub struct DagNodeMetadata {
    pub federation_id: String,
    /// When the node was created, in nanoseconds since the Unix epoch.
    pub timestamp: i64,
    pub label: Option<String>,
    pub scope: NodeScope,
    pub scope_id: Option<String>,
}

/// What a DAG node carries.
#[derive(Debug)]
pub enum DagPayload {
    Json(JsonValue),
    Raw(Vec<u8>),
    /// A reference to the node with this CID.
    Reference(String),
    /// The trust bundle with this CID.
    TrustBundle(String),
    /// The execution receipt with this CID.
    ExecutionReceipt(String),
}

/// An unsigned DAG node.
#[derive(Debug)]
pub struct DagNode {
    pub author: Did,
    pub metadata: DagNodeMetadata,
    pub payload: DagPayload,
    pub parents: Vec<String>,
}

/// A DAG node with its signature and, once computed, its CID.
#[derive(Debug)]
pub struct SignedDagNode {
    pub node: DagNode,
    pub signature: Vec<u8>,
    pub cid: Option<String>,
}

/// Errors raised by DAG storage and validation.
#[derive(Debug, Clone)]
pub enum DagError {
    NodeNotFound(String),
    ParentNotFound { child: String, parent: String },
    InvalidSignature(String),
    SerializationError(String),
    InvalidNodeData(String),
    PublicKeyResolutionError(String, String),
    StorageError(String),
    RocksDbError(String),
    JoinError(String),
    CidError(String),
    CidMismatch(String),
    MissingParent(String),
    PolicyError(PolicyError),
}

/// Result of policy validation for a DAG node.
#[derive(Debug)]
pub enum ValidationResult {
    /// The node is valid according to policy.
    Valid,
    /// The node is not valid because of a policy restriction.
    PolicyViolation(PolicyError),
    /// The node has another validation error.
    OtherError(DagError),
}

/// Errors of policy update processing.
#[derive(Debug)]
pub enum PolicyUpdateError {
    InvalidProposal(String),
    InvalidQuorumProof(String),
    ProposalNotFound(String),
    DagError(DagError),
    PolicyError(PolicyError),
}

/// The node types whose action is submitting a proposal.
pub open spec fn is_proposal_type(t: Seq<char>) -> bool {
    t == "Proposal"@ || t == "CooperativeProposal"@ || t == "CommunityProposal"@
        || t == "FederationProposal"@
}

/// The action a JSON payload performs: proposals submit a proposal, `MintToken`
/// mints a token, and any other payload names its action in `action_type`.
pub open spec fn json_action(v: JsonValue) -> Option<Seq<char>> {
    let t = json_get_str(v, "type"@);
    if t is Some && is_proposal_type(t->0) {
        Some("submit_proposal"@)
    } else if t == Some("MintToken"@) {
        Some("mint_token"@)
    } else {
        json_get_str(v, "action_type"@)
    }
}

/// The action a node performs, when its payload names one.
pub open spec fn node_action(node: SignedDagNode) -> Option<Seq<char>> {
    match node.node.payload {
        DagPayload::Json(v) => json_action(v),
        DagPayload::Raw(bytes) => match json_reading(bytes@) {
            Ok(v) => json_get_str(v, "action_type"@),
            Err(_) => None,
        },
        _ => None,
    }
}

/// Nodes outside any scope, and nodes of the `system` scope, are not checked.
pub open spec fn node_exempt(node: SignedDagNode) -> bool {
    node.node.metadata.scope_id is None || node.node.metadata.scope_id->0@ == "system"@
}

/// The outcome of validating `node` against the filed policies and memberships.
pub open spec fn validation_outcome(
    node: SignedDagNode,
    policies: Map<(Seq<char>, Seq<char>), crate::policy::PolicyMeaning>,
    members: Set<(ScopeType, Seq<char>, Seq<char>)>,
) -> ValidationResult {
    if node_exempt(node) {
        ValidationResult::Valid
    } else if node_action(node) is None {
        ValidationResult::Valid
    } else {
        let key = (scope_name(node.node.metadata.scope), node.node.metadata.scope_id->0@);
        if !policies.contains_key(key) {
            ValidationResult::OtherError(DagError::PolicyError(PolicyError::PolicyNotFound))
        } else {
            match policy_decision(policies[key], node_action(node)->0, node.node.author@, members) {
                Ok(_) => ValidationResult::Valid,
                Err(e) => ValidationResult::PolicyViolation(e),
            }
        }
    }
}

/// The scope kind a scope id's prefix names.
pub open spec fn scope_kind_of_id(scope_id: Seq<char>) -> Seq<char> {
    if crate::text::has_prefix(scope_id, "fed:"@) {
        "Federation"@
    } else if crate::text::has_prefix(scope_id, "coop:"@) {
        "Cooperative"@
    } else if crate::text::has_prefix(scope_id, "com:"@) {
        "Community"@
    } else {
        "Unknown"@
    }
}

/// A processor that checks DAG nodes against scope policies.
#[derive(Debug, Clone)]
pub struct DagProcessor {
    /// Memberships of DIDs in federations, cooperatives and communities.
    pub membership_index: MembershipIndex,
    /// The policies filed for each scope.
    pub policy_loader: PolicyLoader,
}

impl DagProcessor {
    /// A processor enforcing the given policies over the given memberships.
    pub fn new(membership_index: MembershipIndex, policy_loader: PolicyLoader) -> (r: DagProcessor)
        ensures
            r.membership_index@ == membership_index@,
            r.policy_loader@ == policy_loader@,
    {
        DagProcessor { membership_index, policy_loader }
    }

    /// Whether a node is exempt from policy validation.
    pub fn is_exempt_from_validation(&self, node: &SignedDagNode) -> (r: bool)
        ensures
            r == node_exempt(*node),
    {
        match &node.node.metadata.scope_id {
            None => true,
            Some(id) => str_eq(id.as_str(), "system"),
        }
    }

    /// The action a node's payload performs, if it names one.
    pub fn get_action_type(&self, node: &SignedDagNode) -> (r: Option<String>)
        ensures
            match r {
                Some(a) => node_action(*node) == Some(a@),
                None => node_action(*node) is None,
            },
    {
        match &node.node.payload {
            DagPayload::Json(v) => {
                let t = v.get_str("type");
                match t {
                    Some(t) => {
                        let ts = t.as_str();
                        if str_eq(ts, "Proposal") || str_eq(ts, "CooperativeProposal")
                            || str_eq(ts, "CommunityProposal") || str_eq(ts, "FederationProposal") {
                            return Some("submit_proposal".to_owned());
                        }
                        if str_eq(ts, "MintToken") {
                            return Some("mint_token".to_owned());
                        }
                    },
                    None => {},
                }
                match v.get_str("action_type") {
                    Some(a) => Some(a.clone()),
                    None => None,
                }
            },
            DagPayload::Raw(bytes) => {
                match read_json(bytes.as_slice()) {
                    Ok(v) => match v.get_str("action_type") {
                        Some(a) => Some(a.clone()),
                        None => None,
                    },
                    Err(_) => None,
                }
            },
            _ => None,
        }
    }

    /// The scope kind named by a scope id's prefix (`fed:`, `coop:`, `com:`).
    pub fn determine_scope_type(&self, scope_id: &str) -> (r: String)
        ensures
            r@ == scope_kind_of_id(scope_id@),
    {
        if starts_with(scope_id, "fed:") {
            "Federation".to_owned()
        } else if starts_with(scope_id, "coop:") {
            "Cooperative".to_owned()
        } else if starts_with(scope_id, "com:") {
            "Community".to_owned()
        } else {
            "Unknown".to_owned()
        }
    }

    /// Checks `did` performing `action` in the scope `scope_id`, whose kind is
    /// read from the id's prefix.
    pub fn check_authorization(&self, scope_id: &str, action: &str, did: &Did) -> (r: Result<(), PolicyError>)
        ensures
            ({
                let key = (scope_kind_of_id(scope_id@), scope_id@);
                if self.policy_loader@.contains_key(key) {
                    r == policy_decision(self.policy_loader@[key], action@, did@, self.membership_index@)
                } else {
                    r == Err::<(), PolicyError>(PolicyError::PolicyNotFound)
                }
            }),
    {
        let scope_type = self.determine_scope_type(scope_id);
        match self.policy_loader.load_for_scope(scope_type.as_str(), scope_id) {
            Ok(policy) => evaluate_policy(&policy, action, did, &self.membership_index),
            Err(_) => Err(PolicyError::PolicyNotFound),
        }
    }

    /// Validates that a node complies with the policy of its scope.
    ///
    /// Exempt nodes and nodes that name no action are valid. Otherwise the policy
    /// filed under the node's scope kind and scope id decides whether its author
    /// may perform the action.
    pub fn validate_node(&self, node: &SignedDagNode) -> (r: ValidationResult)
        ensures
            r == validation_outcome(*node, self.policy_loader@, self.membership_index@),
    {
        if self.is_exempt_from_validation(node) {
            return ValidationResult::Valid;
        }
        let scope_id = match &node.node.metadata.scope_id {
            Some(id) => id,
            None => { return ValidationResult::Valid; },
        };
        let action = match self.get_action_type(node) {
            Some(a) => a,
            None => { return ValidationResult::Valid; },
        };
        let scope_type = node_scope_name(node.node.metadata.scope);
        let policy = match self.policy_loader.load_for_scope(scope_type.as_str(), scope_id.as_str()) {
            Ok(p) => p,
            Err(_) => { return ValidationResult::OtherError(DagError::PolicyError(PolicyError::PolicyNotFound)); },
        };
        match evaluate_policy(&policy, action.as_str(), &node.node.author, &self.membership_index) {
            Ok(()) => ValidationResult::Valid,
            Err(e) => ValidationResult::PolicyViolation(e),
        }
    }
}

/// The text a policy error is reported with.
pub open spec fn policy_error_text(e: PolicyError) -> Seq<char> {
    match e {
        PolicyError::ActionNotPermitted => "Action not permitted by policy"@,
        PolicyError::UnauthorizedScopeAccess => "Unauthorized scope access"@,
        PolicyError::DidNotInAllowlist => "DID not in allowlist"@,
        PolicyError::PolicyNotFound => "Policy not found"@,
        PolicyError::InternalError(m) => "Internal policy error: "@ + m@,
    }
}

impl PolicyError {
    /// The text the error is reported with.
    pub fn message(&self) -> (r: String)
        ensures
            r@ == policy_error_text(*self),
    {
        match self {
            PolicyError::ActionNotPermitted => "Action not permitted by policy".to_owned(),
            PolicyError::UnauthorizedScopeAccess => "Unauthorized scope access".to_owned(),
            PolicyError::DidNotInAllowlist => "DID not in allowlist".to_owned(),
            PolicyError::PolicyNotFound => "Policy not found".to_owned(),
            PolicyError::InternalError(m) => "Internal policy error: ".to_owned().concat(m.as_str()),
        }
    }
}

impl ValidationResult {
    /// Converts an invalid result into the DAG error it stands for.
    pub fn to_dag_error(self) -> (r: Result<(), DagError>)
        ensures
            match self {
                ValidationResult::Valid => r is Ok,
                ValidationResult::PolicyViolation(e) => r matches Err(DagError::InvalidNodeData(m))
                    && m@ == "Policy violation: "@ + policy_error_text(e),
                ValidationResult::OtherError(e) => r == Err::<(), DagError>(e),
            },
    {
        match self {
            ValidationResult::Valid => Ok(()),
            ValidationResult::PolicyViolation(e) => {
                let m = "Policy violation: ".to_owned().concat(e.message().as_str());
                Err(DagError::InvalidNodeData(m))
            },
            ValidationResult::OtherError(e) => Err(e),
        }
    }
}

/// What `cid::Cid::try_from` reads from a CID's text: the CID's bytes, or the
/// text of its error.
pub uninterp spec fn cid_text_reading(text: Seq<char>) -> Result<Seq<u8>, Seq<char>>;

/// Reads a CID's text with `cid::Cid::try_from`; the outcome, as the CID's
/// bytes (`to_bytes`) or the error's text, is named by `cid_text_reading`.
#[verifier::external_body]
pub(crate) fn read_cid_text(text: &str) -> (r: Result<Vec<u8>, String>)
    ensures
        match r {
            Ok(b) => cid_text_reading(text@) == Ok::<Seq<u8>, Seq<char>>(b@),
            Err(m) => cid_text_reading(text@) == Err::<Seq<u8>, Seq<char>>(m@),
        },
{
    match cid::Cid::try_from(text) {
        Ok(c) => Ok(c.to_bytes()),
        Err(e) => Err(e.to_string()),
    }
}

/// What a node asks of the policy update process: nothing unless it approves
/// a policy update, in which case the CID of the approved proposal, which must
/// be named and be a CID.
pub open spec fn approval_outcome(node: SignedDagNode) -> Result<Option<Seq<char>>, (bool, Seq<char>)> {
    match node.node.payload {
        DagPayload::Json(v) => if json_get_str(v, "type"@) == Some("PolicyUpdateApproval"@) {
            match json_get_str(v, "proposal_cid"@) {
                None => Err((true, "Missing proposal_cid"@)),
                Some(c) => match cid_text_reading(c) {
                    Err(e) => Err((false, "Invalid proposal CID: "@ + e)),
                    Ok(_) => Ok(Some(c)),
                },
            }
        } else {
            Ok(None)
        },
        _ => Ok(None),
    }
}

/// Reads a policy update approval: `None` for any other node, else the CID of
/// the approved proposal. A missing CID is an invalid quorum proof, a CID that
/// does not read as one an invalid proposal.
pub fn approved_proposal(node: &SignedDagNode) -> (r: Result<Option<String>, PolicyUpdateError>)
    ensures
        match approval_outcome(*node) {
            Ok(None) => r matches Ok(None),
            Ok(Some(c)) => r matches Ok(Some(x)) && x@ == c,
            Err((true, m)) => r matches Err(PolicyUpdateError::InvalidQuorumProof(x)) && x@ == m,
            Err((false, m)) => r matches Err(PolicyUpdateError::InvalidProposal(x)) && x@ == m,
        },
{
    if let DagPayload::Json(v) = &node.node.payload {
        let approval = match v.get_str("type") {
            Some(t) => str_eq(t.as_str(), "PolicyUpdateApproval"),
            None => false,
        };
        if approval {
            let c = match v.get_str("proposal_cid") {
                Some(c) => c,
                None => {
                    return Err(PolicyUpdateError::InvalidQuorumProof("Missing proposal_cid".to_owned()));
                },
            };
            return match read_cid_text(c.as_str()) {
                Err(e) => Err(PolicyUpdateError::InvalidProposal("Invalid proposal CID: ".to_owned().concat(e.as_str()))),
                Ok(_) => Ok(Some(c.clone())),
            };
        }
    }
    Ok(None)
}

/// The proposed policy of a policy update proposal: its `proposed_policy` text.
pub open spec fn proposed_policy_of(node: SignedDagNode) -> Result<Seq<char>, Seq<char>> {
    match node.node.payload {
        DagPayload::Json(v) => if json_get_str(v, "type"@) == Some("PolicyUpdateProposal"@) {
            match json_get_str(v, "proposed_policy"@) {
                Some(p) => Ok(p),
                None => Err("Missing proposed_policy"@),
            }
        } else {
            Err("Not a valid policy update proposal"@)
        },
        _ => Err("Not a valid policy update proposal"@),
    }
}

/// The text of the policy a policy update proposal proposes; any other node is
/// an invalid proposal.
pub fn extract_policy_from_proposal(node: &SignedDagNode) -> (r: Result<String, PolicyUpdateError>)
    ensures
        match proposed_policy_of(*node) {
            Ok(p) => r matches Ok(x) && x@ == p,
            Err(m) => r matches Err(PolicyUpdateError::InvalidProposal(x)) && x@ == m,
        },
{
    if let DagPayload::Json(v) = &node.node.payload {
        let proposal = match v.get_str("type") {
            Some(t) => str_eq(t.as_str(), "PolicyUpdateProposal"),
            None => false,
        };
        if proposal {
            return match v.get_str("proposed_policy") {
                Some(p) => Ok(p.clone()),
                None => Err(PolicyUpdateError::InvalidProposal("Missing proposed_policy".to_owned())),
            };
        }
    }
    Err(PolicyUpdateError::InvalidProposal("Not a valid policy update proposal".to_owned()))
}

/// Checks an approved update once its proposal was fetched: the proposal must
/// propose a policy, and the approval must carry a quorum proof. Gives the
/// proposed policy's text.
pub fn check_policy_update(approval: &SignedDagNode, proposal: &SignedDagNode) -> (r: Result<String, PolicyUpdateError>)
    ensures
        match proposed_policy_of(*proposal) {
            Err(m) => r matches Err(PolicyUpdateError::InvalidProposal(x)) && x@ == m,
            Ok(p) => if approval.node.payload matches DagPayload::Json(v) && json_get(v, "quorum_proof"@) is Some {
                r matches Ok(x) && x@ == p
            } else {
                r matches Err(PolicyUpdateError::InvalidQuorumProof(x)) && x@ == "Missing quorum proof"@
            },
        },
{
    let policy = extract_policy_from_proposal(proposal)?;
    let has_proof = match &approval.node.payload {
        DagPayload::Json(v) => v.get("quorum_proof").is_some(),
        _ => false,
    };
    if !has_proof {
        return Err(PolicyUpdateError::InvalidQuorumProof("Missing quorum proof".to_owned()));
    }
    Ok(policy)
}

impl DagProcessor {
    /// Applies an approved policy update: once the approval and its proposal
    /// pass `check_policy_update`, the proposed policy (as read from the
    /// proposal's text by the caller) is filed, so the loader gives it for its
    /// scope from then on. A refused update leaves the loader as it was.
    pub fn apply_policy_update(
        &mut self,
        approval: &SignedDagNode,
        proposal: &SignedDagNode,
        policy: ScopePolicyConfig,
    ) -> (r: Result<String, PolicyUpdateError>)
        ensures
            final(self).membership_index@ == old(self).membership_index@,
            match proposed_policy_of(*proposal) {
                Err(m) => (r matches Err(PolicyUpdateError::InvalidProposal(x)) && x@ == m)
                    && final(self).policy_loader@ == old(self).policy_loader@,
                Ok(p) => if approval.node.payload matches DagPayload::Json(v) && json_get(v, "quorum_proof"@) is Some {
                    (r matches Ok(x) && x@ == p)
                        && final(self).policy_loader@ == old(self).policy_loader@.insert(
                            (scope_name(policy.scope_type), policy.scope_id@), policy_view(policy))
                } else {
                    (r matches Err(PolicyUpdateError::InvalidQuorumProof(x)) && x@ == "Missing quorum proof"@)
                        && final(self).policy_loader@ == old(self).policy_loader@
                },
            },
    {
        let text = check_policy_update(approval, proposal)?;
        self.policy_loader.set_policy(policy);
        Ok(text)
    }
}

} // verus!
