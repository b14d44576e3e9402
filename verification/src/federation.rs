//! Founding a federation (quorum rules, key formats, the genesis bundle) and
//! admitting cooperatives and communities into it (join requests and votes).
use vstd::prelude::*;
use vstd::string::*;
use crate::bundle::{QuorumType, hex_encode, hex_text};
use crate::dag::DagPayload;
use crate::governance::CliError;
use crate::json::{JsonValue, json_get_str};
use crate::keys::BootstrapError;
use crate::policy::NodeScope;
use crate::scope::NodeDraft;
use crate::text::{
    chars_of, contains_char, contains_str, decimal_digits, decimal_text, has_infix, has_prefix,
    lemma_parse_decimal, lowercase, parse_unsigned, starts_with, str_eq, string_from_chars,
    to_lowercase, lemma_decimal_digits, texts,
};
use crate::governance::{PercentReading, percent_reading};

verus! {

/// What a quorum argument means: `all`, `majority`, or `threshold:<n>` with
/// `n` from 1 to 100; anything else is refused with the text given.
pub open spec fn quorum_outcome(s: Seq<char>) -> Result<QuorumType, Seq<char>> {
    if s == "all"@ {
        Ok(QuorumType::All)
    } else if s == "majority"@ {
        Ok(QuorumType::Majority)
    } else if has_prefix(s, "threshold:"@) {
        match percent_reading(s, 10) {
            PercentReading::BadFormat => Err(
                "Invalid threshold format: "@ + s + ". Expected 'threshold:<number>'"@),
            PercentReading::BadValue => Err("Invalid threshold value: "@ + s.subrange(10, s.len() as int)
                + ". Expected a number between 1 and 100"@),
            PercentReading::OutOfRange(p) => Err(
                "Threshold must be between 1 and 100, got: "@ + decimal_digits(p as nat)),
            PercentReading::Fine(p) => Ok(QuorumType::Threshold(p)),
        }
    } else {
        Err("Unsupported quorum type: "@ + s + ". Valid values: all, majority, threshold:<num>"@)
    }
}

/// Reads a quorum argument; a refusal is an `InvalidQuorum` error.
pub fn parse_quorum_spec(quorum_spec: &str) -> (r: Result<QuorumType, BootstrapError>)
    ensures
        match quorum_outcome(quorum_spec@) {
            Ok(q) => r matches Ok(x) && x == q,
            Err(m) => r matches Err(BootstrapError::InvalidQuorum(x)) && x@ == m,
        },
{
    if str_eq(quorum_spec, "all") {
        return Ok(QuorumType::All);
    }
    if str_eq(quorum_spec, "majority") {
        return Ok(QuorumType::Majority);
    }
    if starts_with(quorum_spec, "threshold:") {
        proof {
            reveal_strlit("threshold:");
        }
        let (reading, tail) = crate::governance::read_percent_after(quorum_spec, 10);
        return match reading {
            PercentReading::BadFormat => Err(BootstrapError::InvalidQuorum(
                "Invalid threshold format: ".to_owned().concat(quorum_spec)
                    .concat(". Expected 'threshold:<number>'"))),
            PercentReading::BadValue => Err(BootstrapError::InvalidQuorum(
                "Invalid threshold value: ".to_owned().concat(tail.as_str())
                    .concat(". Expected a number between 1 and 100"))),
            PercentReading::OutOfRange(p) => Err(BootstrapError::InvalidQuorum(
                "Threshold must be between 1 and 100, got: ".to_owned()
                    .concat(decimal_text(p as u64).as_str()))),
            PercentReading::Fine(p) => Ok(QuorumType::Threshold(p)),
        };
    }
    Err(BootstrapError::InvalidQuorum(
        "Unsupported quorum type: ".to_owned().concat(quorum_spec)
            .concat(". Valid values: all, majority, threshold:<num>")))
}

/// How a quorum is recorded in the federation's metadata.
pub open spec fn quorum_description(q: QuorumType) -> Seq<char> {
    match q {
        QuorumType::All => "all"@,
        QuorumType::Majority => "majority"@,
        QuorumType::Threshold(t) => "threshold:"@ + decimal_digits(t as nat),
        QuorumType::Weighted(_) => "weighted"@,
    }
}

/// Writes a quorum the way the federation's metadata records it.
pub fn describe_quorum(q: &QuorumType) -> (r: String)
    ensures
        r@ == quorum_description(*q),
{
    match q {
        QuorumType::All => "all".to_owned(),
        QuorumType::Majority => "majority".to_owned(),
        QuorumType::Threshold(t) => "threshold:".to_owned().concat(decimal_text(*t as u64).as_str()),
        QuorumType::Weighted(_) => "weighted".to_owned(),
    }
}

/// A recorded quorum reads back as the quorum it records: `all`, `majority`
/// and every threshold from 1 to 100.
pub proof fn law_quorum_description_reads_back(q: QuorumType)
    requires
        !(q is Weighted),
        q matches QuorumType::Threshold(t) ==> 1 <= t <= 100,
    ensures
        quorum_outcome(quorum_description(q)) == Ok::<QuorumType, Seq<char>>(q),
{
    reveal_strlit("all");
    reveal_strlit("majority");
    reveal_strlit("threshold:");
    match q {
        QuorumType::Threshold(t) => {
            let s = quorum_description(q);
            let d = decimal_digits(t as nat);
            lemma_parse_decimal(t as nat, 255);
            lemma_decimal_digits(t as nat);
            assert(s.subrange(0, 10) == "threshold:"@);
            assert(s.subrange(10, s.len() as int) == d);
            assert(s != "all"@) by {
                assert(s.len() != 3);
            }
            assert(s != "majority"@) by {
                assert(s[0] != "majority"@[0]);
            }
        },
        _ => {
            assert("all"@ != "majority"@);
        },
    }
}

/// Refuses a key format other than `jwk` and `base58`.
pub fn check_key_format(key_format: &str) -> (r: Result<(), BootstrapError>)
    ensures
        (key_format@ == "jwk"@ || key_format@ == "base58"@) <==> r is Ok,
        r matches Err(e) ==> (e matches BootstrapError::KeyError(m)
            && m@ == "Unsupported key format: "@ + key_format@ + ". Supported formats: jwk, base58"@),
{
    if !str_eq(key_format, "jwk") && !str_eq(key_format, "base58") {
        return Err(BootstrapError::KeyError(
            "Unsupported key format: ".to_owned().concat(key_format)
                .concat(". Supported formats: jwk, base58")));
    }
    Ok(())
}

/// Who a new federation is and who guards it.
#[derive(Debug)]
pub struct FederationIdentity {
    /// The federation's DID.
    pub did: String,
    /// The DIDs that sign its genesis bundle.
    pub guardians: Vec<String>,
}

/// Settles the federation's DID: a single participant is the federation; with
/// several (or none), the separately generated DID is, and it joins the
/// guardians when keys are exported.
pub fn settle_federation_identity(participants: &Vec<String>, generated_did: &str, export_keys: bool) -> (r: FederationIdentity)
    ensures
        participants@.len() == 1 ==> r.did@ == participants@[0]@ && r.guardians@ == participants@,
        participants@.len() != 1 ==> {
            &&& r.did@ == generated_did@
            &&& export_keys ==> crate::text::texts(r.guardians@)
                == crate::text::texts(participants@).push(generated_did@)
            &&& !export_keys ==> r.guardians@ == participants@
        },
{
    let mut guardians = crate::policy::copy_strings(participants);
    if participants.len() == 1 {
        return FederationIdentity { did: participants[0].clone(), guardians };
    }
    if export_keys {
        let ghost before = guardians@;
        guardians.push(generated_did.to_owned());
        assert(crate::text::texts(guardians@) == crate::text::texts(before).push(generated_did@));
    }
    FederationIdentity { did: generated_did.to_owned(), guardians }
}

/// The CID a genesis bundle is given: `bafy` and the first 46 hexadecimal
/// digits of its hash.
pub open spec fn genesis_cid_text(hash: Seq<u8>) -> Seq<char> {
    "bafy"@ + hex_text(hash).subrange(0, 46)
}

proof fn lemma_hex_text_len(bytes: Seq<u8>)
    ensures
        hex_text(bytes).len() == 2 * bytes.len(),
    decreases bytes.len(),
{
    if bytes.len() > 0 {
        lemma_hex_text_len(bytes.drop_last());
    }
}

/// Names a genesis bundle by its hash; the hash must have at least 23 bytes.
pub fn genesis_bundle_cid(bundle_hash: &Vec<u8>) -> (r: String)
    requires
        bundle_hash@.len() >= 23,
    ensures
        r@ == genesis_cid_text(bundle_hash@),
{
    let hex = hex_encode(bundle_hash.as_slice());
    proof {
        lemma_hex_text_len(bundle_hash@);
    }
    let hv = chars_of(hex.as_str());
    let head = string_from_chars(&hv, 0, 46);
    "bafy".to_owned().concat(head.as_str())
}

/// The description recorded in a federation's genesis bundle.
pub fn genesis_description(name: &str) -> (r: String)
    ensures
        r@ == "Genesis bundle for federation '"@ + name@ + "'"@,
{
    "Genesis bundle for federation '".to_owned().concat(name).concat("'")
}

/// What founding a federation writes, once its participants' keys are at hand.
/// `federation.toml` records `name`, `federation_did`, `guardians` and
/// `quorum_config`; the genesis bundle is signed by every guardian and
/// described by `bundle_description`.
#[derive(Debug)]
pub struct InitPlan {
    /// Whether anything is written (not on a dry run).
    pub write_files: bool,
    pub output_dir: String,
    pub name: String,
    pub federation_did: String,
    pub guardians: Vec<String>,
    pub quorum: QuorumType,
    pub quorum_config: String,
    pub bundle_description: String,
    /// The files written into `output_dir`, in the order they are written.
    pub files: Vec<String>,
}

/// The files a federation's founding writes.
pub open spec fn init_files(write_files: bool, export_keys: bool) -> Seq<Seq<char>> {
    if !write_files {
        Seq::empty()
    } else if export_keys {
        seq!["federation.toml"@, "genesis_bundle.json"@, "genesis_event.json"@, "federation_keys.json"@]
    } else {
        seq!["federation.toml"@, "genesis_bundle.json"@, "genesis_event.json"@]
    }
}

/// Plans the founding of federation `name`. `participants` are the DIDs of
/// the keys loaded (or the one generated when none was given);
/// `generated_did` is the separately generated federation DID used when
/// there is more than one. The key format is checked first, then the quorum
/// argument.
pub fn plan_federation_init(
    name: &str,
    output_dir: &Option<String>,
    dry_run: bool,
    participants: &Vec<String>,
    generated_did: &str,
    quorum_spec: &str,
    export_keys: bool,
    key_format: &str,
) -> (r: Result<InitPlan, BootstrapError>)
    ensures
        !(key_format@ == "jwk"@ || key_format@ == "base58"@) ==> (r matches Err(BootstrapError::KeyError(m))
            && m@ == "Unsupported key format: "@ + key_format@ + ". Supported formats: jwk, base58"@),
        (key_format@ == "jwk"@ || key_format@ == "base58"@) ==> match quorum_outcome(quorum_spec@) {
            Err(m) => r matches Err(BootstrapError::InvalidQuorum(x)) && x@ == m,
            Ok(q) => r matches Ok(p)
                && p.write_files == !dry_run
                && p.output_dir@ == match output_dir { Some(d) => d@, None => "federation"@ }
                && p.name@ == name@
                && p.quorum == q
                && p.quorum_config@ == quorum_description(q)
                && p.bundle_description@ == "Genesis bundle for federation '"@ + name@ + "'"@
                && crate::text::texts(p.files@) == init_files(!dry_run, export_keys)
                && (participants@.len() == 1 ==> p.federation_did@ == participants@[0]@
                    && p.guardians@ == participants@)
                && (participants@.len() != 1 ==> p.federation_did@ == generated_did@
                    && (export_keys ==> crate::text::texts(p.guardians@)
                        == crate::text::texts(participants@).push(generated_did@))
                    && (!export_keys ==> p.guardians@ == participants@)),
        },
{
    check_key_format(key_format)?;
    let identity = settle_federation_identity(participants, generated_did, export_keys);
    let quorum = parse_quorum_spec(quorum_spec)?;
    let quorum_config = describe_quorum(&quorum);
    let out = match output_dir {
        Some(d) => d.clone(),
        None => "federation".to_owned(),
    };
    let mut files: Vec<String> = Vec::new();
    if !dry_run {
        files.push("federation.toml".to_owned());
        files.push("genesis_bundle.json".to_owned());
        files.push("genesis_event.json".to_owned());
        if export_keys {
            files.push("federation_keys.json".to_owned());
        }
    }
    assert(crate::text::texts(files@) == init_files(!dry_run, export_keys));
    Ok(InitPlan {
        write_files: !dry_run,
        output_dir: out,
        name: name.to_owned(),
        federation_did: identity.did,
        guardians: identity.guardians,
        quorum,
        quorum_config,
        bundle_description: genesis_description(name),
        files,
    })
}

/// What a join request asks: which scope joins, and the CID of its genesis node.
#[derive(Debug)]
pub struct JoinRequest {
    pub scope_type: NodeScope,
    pub scope_id: String,
    pub scope_genesis_cid: String,
}

/// The fields a join request of this kind names its scope and genesis node by.
pub open spec fn join_fields(scope: NodeScope) -> (Seq<char>, Seq<char>) {
    if scope == NodeScope::Cooperative {
        ("cooperativeId"@, "cooperativeGenesisCid"@)
    } else {
        ("communityId"@, "communityGenesisCid"@)
    }
}

/// What a join request payload says, or the text of the refusal.
pub open spec fn join_request_outcome(p: DagPayload) -> Result<(NodeScope, Seq<char>, Seq<char>), Seq<char>> {
    match p {
        DagPayload::Json(v) => match json_get_str(v, "type"@) {
            None => Err("Invalid join request: missing type"@),
            Some(t) => {
                let scope = if has_infix(t, "Cooperative"@) {
                    Some(NodeScope::Cooperative)
                } else if has_infix(t, "Community"@) {
                    Some(NodeScope::Community)
                } else {
                    None
                };
                match scope {
                    None => Err("Invalid join request type: "@ + t),
                    Some(sc) => {
                        let (idf, cidf) = join_fields(sc);
                        match json_get_str(v, idf) {
                            None => Err("Invalid join request: missing "@ + idf),
                            Some(id) => match json_get_str(v, cidf) {
                                None => Err("Invalid join request: missing "@ + cidf),
                                Some(c) => Ok((sc, id, c)),
                            },
                        }
                    },
                }
            },
        },
        _ => Err("Invalid join request: not a JSON payload"@),
    }
}

/// Reads a join request; a refusal is a `ValidationError`.
pub fn read_join_request(payload: &DagPayload) -> (r: Result<JoinRequest, CliError>)
    ensures
        match join_request_outcome(*payload) {
            Ok((sc, id, c)) => r matches Ok(j) && j.scope_type == sc && j.scope_id@ == id
                && j.scope_genesis_cid@ == c,
            Err(m) => r matches Err(CliError::ValidationError(x)) && x@ == m,
        },
{
    let v = match payload {
        DagPayload::Json(v) => v,
        _ => {
            return Err(CliError::ValidationError("Invalid join request: not a JSON payload".to_owned()));
        },
    };
    let t = match v.get_str("type") {
        Some(t) => t,
        None => {
            return Err(CliError::ValidationError("Invalid join request: missing type".to_owned()));
        },
    };
    let scope = if contains_str(t.as_str(), "Cooperative") {
        NodeScope::Cooperative
    } else if contains_str(t.as_str(), "Community") {
        NodeScope::Community
    } else {
        return Err(CliError::ValidationError("Invalid join request type: ".to_owned().concat(t.as_str())));
    };
    let (id_field, cid_field) = match scope {
        NodeScope::Cooperative => ("cooperativeId", "cooperativeGenesisCid"),
        _ => ("communityId", "communityGenesisCid"),
    };
    let scope_id = match v.get_str(id_field) {
        Some(x) => x.clone(),
        None => {
            return Err(CliError::ValidationError("Invalid join request: missing ".to_owned().concat(id_field)));
        },
    };
    let genesis = match v.get_str(cid_field) {
        Some(x) => x.clone(),
        None => {
            return Err(CliError::ValidationError("Invalid join request: missing ".to_owned().concat(cid_field)));
        },
    };
    Ok(JoinRequest { scope_type: scope, scope_id, scope_genesis_cid: genesis })
}

/// Refuses to vote on a node that says it is something other than a join
/// request: a JSON payload whose `type` lacks `JoinRequest`. Other payloads pass.
pub fn check_join_request(request_cid: &str, payload: &DagPayload) -> (r: Result<(), CliError>)
    ensures
        ({
            let refused = *payload matches DagPayload::Json(v)
                && json_get_str(v, "type"@) is Some
                && !has_infix(json_get_str(v, "type"@)->0, "JoinRequest"@);
            &&& (r is Err <==> refused)
            &&& (r matches Err(e) ==> (e matches CliError::ValidationError(m)
                && m@ == "Node "@ + request_cid@ + " is not a join request"@))
        }),
{
    if let DagPayload::Json(v) = payload {
        if let Some(t) = v.get_str("type") {
            if !contains_str(t.as_str(), "JoinRequest") {
                return Err(CliError::ValidationError(
                    "Node ".to_owned().concat(request_cid).concat(" is not a join request")));
            }
        }
    }
    Ok(())
}

/// A member's vote on a join request: its voter and whether it said yes
/// (`yes` in any case), or the text of the refusal.
pub open spec fn join_vote_outcome(v: JsonValue) -> Result<(Seq<char>, bool), Seq<char>> {
    match json_get_str(v, "voter"@) {
        None => Err("Invalid vote: missing voter"@),
        Some(voter) => match json_get_str(v, "vote"@) {
            None => Err("Invalid vote: missing vote"@),
            Some(x) => Ok((voter, lowercase(x) == "yes"@)),
        },
    }
}

/// Reads a vote on a join request; a refusal is a `ValidationError`.
pub fn read_join_vote(v: &JsonValue) -> (r: Result<(String, bool), CliError>)
    ensures
        match join_vote_outcome(*v) {
            Ok((voter, yes)) => r matches Ok((who, y)) && who@ == voter && y == yes,
            Err(m) => r matches Err(CliError::ValidationError(x)) && x@ == m,
        },
{
    let voter = match v.get_str("voter") {
        Some(x) => x.clone(),
        None => {
            return Err(CliError::ValidationError("Invalid vote: missing voter".to_owned()));
        },
    };
    let vote = match v.get_str("vote") {
        Some(x) => x,
        None => {
            return Err(CliError::ValidationError("Invalid vote: missing vote".to_owned()));
        },
    };
    let lower = to_lowercase(vote.as_str());
    Ok((voter, str_eq(lower.as_str(), "yes")))
}

/// The payload of a federation member's vote on a join request.
pub fn join_vote_payload(vote: &str, reason: &Option<String>, voted_at: &str, voter: &str, request_cid: &str) -> (r: JsonValue)
    ensures
        r matches JsonValue::Object(ms) && ms@.len() == 6
            && crate::json::is_text_member(ms@[0], "type"@, "FederationJoinVote"@)
            && crate::json::is_text_member(ms@[1], "vote"@, vote@)
            && crate::json::is_opt_text_member(ms@[2], "reason"@, match reason { Some(x) => Some(x@), None => None })
            && crate::json::is_text_member(ms@[3], "votedAt"@, voted_at@)
            && crate::json::is_text_member(ms@[4], "voter"@, voter@)
            && crate::json::is_text_member(ms@[5], "requestCid"@, request_cid@),
{
    JsonValue::Object(vec![
        crate::json::text_member("type", "FederationJoinVote"),
        crate::json::text_member("vote", vote),
        crate::json::opt_text_member("reason", reason),
        crate::json::text_member("votedAt", voted_at),
        crate::json::text_member("voter", voter),
        crate::json::text_member("requestCid", request_cid),
    ])
}

/// The name a scope kind is recorded under (`Cooperative` or `Community`;
/// any other kind reads `Federation`).
pub open spec fn scope_kind_text(s: NodeScope) -> Seq<char> {
    match s {
        NodeScope::Cooperative => "Cooperative"@,
        NodeScope::Community => "Community"@,
        NodeScope::Federation => "Federation"@,
    }
}

/// The payload that finalises a scope's admission into a federation.
pub fn join_approval_payload(
    request: &JoinRequest,
    federation_id: &str,
    request_cid: &str,
    attestation_cid: &str,
    lineage_cid: &str,
    approved_at: &str,
    approver: &str,
) -> (r: JsonValue)
    ensures
        r matches JsonValue::Object(ms) && ms@.len() == 9
            && crate::json::is_text_member(ms@[0], "type"@, "FederationJoinApproval"@)
            && crate::json::is_text_member(ms@[1], "scopeType"@, scope_kind_text(request.scope_type))
            && crate::json::is_text_member(ms@[2], "scopeId"@, request.scope_id@)
            && crate::json::is_text_member(ms@[3], "federationId"@, federation_id@)
            && crate::json::is_text_member(ms@[4], "requestCid"@, request_cid@)
            && crate::json::is_text_member(ms@[5], "attestationCid"@, attestation_cid@)
            && crate::json::is_text_member(ms@[6], "lineageCid"@, lineage_cid@)
            && crate::json::is_text_member(ms@[7], "approvedAt"@, approved_at@)
            && crate::json::is_text_member(ms@[8], "approver"@, approver@),
{
    let kind = match request.scope_type {
        NodeScope::Cooperative => "Cooperative",
        NodeScope::Community => "Community",
        NodeScope::Federation => "Federation",
    };
    JsonValue::Object(vec![
        crate::json::text_member("type", "FederationJoinApproval"),
        crate::json::text_member("scopeType", kind),
        crate::json::text_member("scopeId", request.scope_id.as_str()),
        crate::json::text_member("federationId", federation_id),
        crate::json::text_member("requestCid", request_cid),
        crate::json::text_member("attestationCid", attestation_cid),
        crate::json::text_member("lineageCid", lineage_cid),
        crate::json::text_member("approvedAt", approved_at),
        crate::json::text_member("approver", approver),
    ])
}

/// Whether a join may be finalised once its votes on the request are counted
/// (the votes are the `FederationJoinVote` nodes naming the request in
/// `requestCid`, as `votes_on` selects them): the quorum must be reached, and
/// then the votes must approve. On a refusal no node is written.
pub fn join_quorum_gate(reached: bool, approved: bool, votes_received: u64, threshold: u64) -> (r: Result<(), CliError>)
    ensures
        !reached ==> (r matches Err(CliError::ValidationError(m)) && m@ == "Quorum not reached: "@
            + decimal_digits(votes_received as nat) + "/"@ + decimal_digits(threshold as nat) + " votes required"@),
        reached && !approved ==> (r matches Err(CliError::ValidationError(m))
            && m@ == "Join request was rejected by federation members"@),
        reached && approved ==> r is Ok,
{
    if !reached {
        return Err(CliError::ValidationError(
            "Quorum not reached: ".to_owned().concat(decimal_text(votes_received).as_str()).concat("/")
                .concat(decimal_text(threshold).as_str()).concat(" votes required")));
    }
    if !approved {
        return Err(CliError::ValidationError("Join request was rejected by federation members".to_owned()));
    }
    Ok(())
}

fn federation_draft(
    federation_id: &str, approver: &str, label: &str, payload: JsonValue, parents: Vec<String>,
) -> (r: NodeDraft)
    ensures
        r.author@ == approver@,
        r.federation_id@ == federation_id@,
        r.scope == NodeScope::Federation,
        r.scope_id is None,
        r.label matches Some(l) && l@ == label@,
        r.payload == payload,
        r.parents@ == parents@,
{
    NodeDraft {
        author: approver.to_owned(),
        federation_id: federation_id.to_owned(),
        scope: NodeScope::Federation,
        scope_id: None,
        label: Some(label.to_owned()),
        payload,
        parents,
    }
}

/// The first node written when a join is finalised, the membership
/// attestation: in the federation scope, by the approver, with the join
/// request as its one parent. The signed attestation it carries is the
/// caller's.
pub fn join_attestation_draft(federation_id: &str, request_cid: &str, approver: &str, attestation: JsonValue) -> (r: NodeDraft)
    ensures
        r.author@ == approver@,
        r.federation_id@ == federation_id@,
        r.scope == NodeScope::Federation,
        r.scope_id is None,
        r.label matches Some(l) && l@ == "FederationMembershipAttestation"@,
        texts(r.parents@) == seq![request_cid@],
        r.payload == attestation,
{
    let mut parents: Vec<String> = Vec::new();
    parents.push(request_cid.to_owned());
    assert(texts(parents@) == seq![request_cid@]);
    federation_draft(federation_id, approver, "FederationMembershipAttestation", attestation, parents)
}

/// The second node, the lineage attestation linking the federation's DAG and
/// the scope's: its parents are the join request and the membership
/// attestation. The signed lineage it carries is the caller's.
pub fn join_lineage_draft(
    federation_id: &str, request_cid: &str, attestation_cid: &str, approver: &str, lineage: JsonValue,
) -> (r: NodeDraft)
    ensures
        r.author@ == approver@,
        r.federation_id@ == federation_id@,
        r.scope == NodeScope::Federation,
        r.scope_id is None,
        r.label matches Some(l) && l@ == "LineageAttestation"@,
        texts(r.parents@) == seq![request_cid@, attestation_cid@],
        r.payload == lineage,
{
    let mut parents: Vec<String> = Vec::new();
    parents.push(request_cid.to_owned());
    parents.push(attestation_cid.to_owned());
    assert(texts(parents@) == seq![request_cid@, attestation_cid@]);
    federation_draft(federation_id, approver, "LineageAttestation", lineage, parents)
}

/// The last node, the approval that closes the join: its parents are the join
/// request, the membership attestation and the lineage attestation, and its
/// payload names all three.
pub fn join_approval_draft(
    request: &JoinRequest,
    federation_id: &str,
    request_cid: &str,
    attestation_cid: &str,
    lineage_cid: &str,
    approved_at: &str,
    approver: &str,
) -> (r: NodeDraft)
    ensures
        r.author@ == approver@,
        r.federation_id@ == federation_id@,
        r.scope == NodeScope::Federation,
        r.scope_id is None,
        r.label matches Some(l) && l@ == "FederationJoinApproval"@,
        texts(r.parents@) == seq![request_cid@, attestation_cid@, lineage_cid@],
        r.payload matches JsonValue::Object(ms) && ms@.len() == 9
            && crate::json::is_text_member(ms@[0], "type"@, "FederationJoinApproval"@)
            && crate::json::is_text_member(ms@[1], "scopeType"@, scope_kind_text(request.scope_type))
            && crate::json::is_text_member(ms@[2], "scopeId"@, request.scope_id@)
            && crate::json::is_text_member(ms@[3], "federationId"@, federation_id@)
            && crate::json::is_text_member(ms@[4], "requestCid"@, request_cid@)
            && crate::json::is_text_member(ms@[5], "attestationCid"@, attestation_cid@)
            && crate::json::is_text_member(ms@[6], "lineageCid"@, lineage_cid@)
            && crate::json::is_text_member(ms@[7], "approvedAt"@, approved_at@)
            && crate::json::is_text_member(ms@[8], "approver"@, approver@),
{
    let payload = join_approval_payload(request, federation_id, request_cid, attestation_cid, lineage_cid, approved_at, approver);
    let mut parents: Vec<String> = Vec::new();
    parents.push(request_cid.to_owned());
    parents.push(attestation_cid.to_owned());
    parents.push(lineage_cid.to_owned());
    assert(texts(parents@) == seq![request_cid@, attestation_cid@, lineage_cid@]);
    federation_draft(federation_id, approver, "FederationJoinApproval", payload, parents)
}

#[derive(Debug)]
pub enum FederationCommands {
    /// Create a new federation
    Create {
        /// Federation ID
        federation_id: String,

        /// Path to the signing key file
        key: String,

        /// Description of the federation
        description: Option<String>,

        /// Optional path to DAG storage directory
        dag_dir: Option<String>,
    },

    /// Vote on a scope's request to join the federation
    VoteJoin {
        /// Federation ID
        federation_id: String,

        /// Join request CID
        request_cid: String,

        /// Vote (yes/no)
        vote: String,

        /// Optional comment or reason for the vote
        reason: Option<String>,

        /// Path to the signing key file
        key: String,

        /// Optional path to DAG storage directory
        dag_dir: Option<String>,
    },

    /// Finalize a join request after quorum is reached
    FinalizeJoin {
        /// Federation ID
        federation_id: String,

        /// Join request CID
        request_cid: String,

        /// Path to the signing key file
        key: String,

        /// Optional path to DAG storage directory
        dag_dir: Option<String>,
    },
}

} // verus!
