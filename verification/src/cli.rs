//! The arguments of the command-line tools that only pass values through:
//! AgoraNet threads, DAG queries, key generation, policies, receipts, the
//! runtime, peer-to-peer synchronisation and federation bootstrap; and what a
//! DAG submission sends.
use vstd::prelude::*;
use vstd::string::*;
use vstd::utf8::encode_utf8;
use crate::json::{JsonValue, json_text, json_written};
use crate::text::{contains_text, texts};

verus! {

#[derive(Debug)]
pub struct GlobalOpts {
     pub verbose: u8,
}

/// Commands for interacting with AgoraNet threads.
#[derive(Debug)]
pub struct AgoraCmd {
    pub command: AgoraSubcommand,
}

#[derive(Debug)]
pub enum AgoraSubcommand {
    /// Manage AgoraNet threads.
    Thread { action: ThreadCmd },
}

/// Thread management actions.
#[derive(Debug)]
pub enum ThreadCmd {
    /// Create a new discussion thread.
    Create {
        /// Title or short description for the new thread.
        title: String
    },
    /// Post a message to an existing thread.
    Post {
        /// CID of the thread to post to.
        thread_cid: String,
        /// Path to a file containing the message body (UTF-8 text).
        body: String
    },
    /// List message CIDs in a thread.
    Cursor {
        /// CID of the thread to view.
        thread_cid: String,
        /// Optional starting index (0-based).
        from: Option<usize>
    },
}

#[derive(Debug)]
pub enum DagCommands {
    /// Replay and verify a DAG branch.
    Replay {
        /// CID of the DAG node to start replay from.
        cid: String,
        /// Optional path to DAG storage directory.
        dag_dir: Option<String>,
    },

    /// Export a thread (path between two DAG nodes).
    ExportThread {
        /// CID of the first node.
        from: String,
        /// CID of the second node.
        to: String,
        /// Optional path to DAG storage directory.
        dag_dir: Option<String>,
        /// Output file for the exported thread data.
        output: String,
    },

    /// Generate a visual representation of the DAG.
    Visualize {
        /// Optional path to DAG storage directory.
        dag_dir: Option<String>,
        /// Output file for the graph visualization (DOT format).
        output: String,
        /// Filter by thread DID (optional) to show only nodes from a specific author.
        thread_did: Option<String>,
        /// Maximum number of nodes to include in visualization.
        max_nodes: usize,
    },

    /// Fetch and display a raw SignedDagNode by its CID.
    GetNode(GetNodeArgs),

    /// Fetch a DAG node and attempt to display its payload.
    GetPayload(GetPayloadArgs),

    /// Query the DAG index for nodes by DID or scope.
    Query(QueryArgs),
}

#[derive(Debug)]
pub struct QueryArgs {
    /// Query by author DID.
    pub did: Option<String>,

    /// Query by node scope (e.g., 'Federation', 'Community', 'Cooperative').
    pub scope: Option<String>,

    /// Optional path to the DAG index directory.
    /// Defaults to the path configured in the runtime (e.g., runtime_data/dag_index).
    pub index_dir: Option<String>,
}

#[derive(Debug)]
pub struct GetNodeArgs {
    /// CID of the DAG node to fetch.
    pub cid: String,
    /// Optional path to DAG storage directory.
    pub dag_dir: Option<String>,
}

#[derive(Debug)]
pub struct GetPayloadArgs {
    /// CID of the DAG node whose payload is to be fetched.
    pub cid: String,
    /// Optional path to DAG storage directory.
    pub dag_dir: Option<String>,
    /// Optional output file to save the payload.
    pub output: Option<String>,
}

#[derive(Debug)]
pub struct DagSubmitArgs {
    /// Path to the JSON file defining the DAG node content.
    pub node_content: String,

    /// URL of the ICN node's HTTP API endpoint.
    pub url: String,

    /// Path to the Ed25519 private key file (32 bytes, raw binary format).
    /// If not provided, a new key will be generated for development/testing.
    pub key_path: Option<String>,
}

#[derive(Debug)]
pub enum FederationCommands {
    /// Bootstrap a new federation with a genesis TrustBundle
    Init {
        /// Name of the federation
        name: String,

        /// Directory to output federation files
        output_dir: Option<String>,

        /// Run in dry-run mode without writing files
        dry_run: bool,

        /// Paths to participant key files (JSON format)
        /// If not provided, a single federation key will be generated
        participants: Vec<String>,

        /// Quorum type to use for federation governance
        /// Valid values: all, majority, threshold:<num> (e.g., threshold:67 for 67%)
        quorum: String,

        /// Export the federation keys to a file
        export_keys: bool,

        /// Key format for exported keys (jwk or base58)
        key_format: String,
    },

    /// Verify a federation TrustBundle
    Verify {
        /// Path to the federation bundle file
        bundle_path: String,
    },
}

/// Command for generating CLI documentation.
#[derive(Debug)]
pub struct GenCliDocsCmd {
    /// Directory to output the generated Markdown files.
    pub output_dir: String,
}

/// Key generation and management for Decentralized Identifiers (DIDs)
#[derive(Debug)]
pub enum KeygenCommands {
    /// Generate a new DID key
    Generate(GenerateKeyArgs),

    /// Import an existing DID key
    Import(ImportKeyArgs),

    /// Display information about a DID key
    Info(KeyInfoArgs),
}

#[derive(Debug)]
pub struct GenerateKeyArgs {
    /// Output file to save the key (defaults to ~/.icn/key.json)
    pub output: Option<String>,

    /// Key type (ed25519, secp256k1, etc.)
    pub key_type: String,

    /// Force overwrite if file exists
    pub force: bool,
}

#[derive(Debug)]
pub struct ImportKeyArgs {
    /// Path to key file to import
    pub file: String,

    /// Output file (defaults to ~/.icn/key.json)
    pub output: Option<String>,

    /// Force overwrite if file exists
    pub force: bool,
}

#[derive(Debug)]
pub struct KeyInfoArgs {
    /// Path to key file (defaults to ~/.icn/key.json)
    pub file: Option<String>,
}

/// Commands for managing trust policies within the ICN network
#[derive(Debug)]
pub enum PolicyCommands {
    /// Create a new trust policy
    Create(CreatePolicyArgs),

    /// Import a trust policy from a file or URL
    Import(ImportPolicyArgs),

    /// Export a trust policy to a file
    Export(ExportPolicyArgs),

    /// Show details of a trust policy
    Show(ShowPolicyArgs),

    /// List available trust policies
    List(ListPoliciesArgs),

    /// Assign a trust policy to a federation
    Assign(AssignPolicyArgs),
}

#[derive(Debug)]
pub struct CreatePolicyArgs {
    /// Name of the policy
    pub name: String,

    /// Description of the policy
    pub description: Option<String>,

    /// Trusted issuer DIDs (can specify multiple)
    pub trusted_issuer: Vec<String>,

    /// Ability to require specific credentials (format: "type:value")
    pub require_credential: Vec<String>,

    /// Path to save the policy
    pub output: Option<String>,
}

#[derive(Debug)]
pub struct ImportPolicyArgs {
    /// Path to the policy file
    pub file: String,
}

#[derive(Debug)]
pub struct ExportPolicyArgs {
    /// Name or ID of the policy to export
    pub policy: String,

    /// Output file path
    pub output: String,
}

#[derive(Debug)]
pub struct ShowPolicyArgs {
    /// Name or ID of the policy to show
    pub policy: String,
}

#[derive(Debug)]
pub struct ListPoliciesArgs {
    /// Filter policies by name pattern
    pub filter: Option<String>,

    /// Limit the number of policies to show
    pub limit: usize,
}

#[derive(Debug)]
pub struct AssignPolicyArgs {
    /// Name or ID of the policy to assign
    pub policy: String,

    /// Federation ID to assign the policy to
    pub federation: String,
}

#[derive(Debug)]
pub enum ReceiptCommands {
    /// Issue a new execution receipt credential.
    Issue(IssueReceiptArgs),

    /// Anchor a local execution receipt credential to the DAG.
    Anchor(AnchorReceiptArgs),

    /// List known ExecutionReceipts.
    List(ListReceiptArgs),

    /// Show full details of a specific receipt by its ID, file path, or DAG CID.
    Show(ShowReceiptArgs),

    /// Verify an execution receipt (cryptographically, or against the DAG).
    Verify(VerifyReceiptArgs),
}

#[derive(Debug)]
pub struct IssueReceiptArgs {
    /// Path to the key file for signing the receipt (JWK format).
    pub key_file: String,
    /// DID of the node that executed the computation.
    pub executor: String,
    /// Federation DID under which this execution occurred (will be the issuer).
    pub federation: String,
    /// CID of the executed module.
    pub module_cid: String,
    /// CID of the execution result.
    pub result_cid: String,
    /// Status of execution (success, failed, pending, canceled).
    pub status: String,
    /// Optional submitter DID (e.g., user or coop DID).
    pub submitter: Option<String>,
    /// Output file for the receipt (JSON format). If not provided, prints to stdout.
    pub output: Option<String>,
}

#[derive(Debug)]
pub struct AnchorReceiptArgs {
    /// Path to the local execution receipt file (JSON format) to be anchored.
    pub receipt_file: String,
    /// Path to the JWK file for signing the anchor DAG node.
    pub key_file: String,
    /// DID of the author anchoring this receipt. If not provided, will derive from key_file.
    pub author_did: Option<String>,
    /// Optional path to the DAG storage directory.
    pub dag_dir: Option<String>,
}

#[derive(Debug)]
pub struct ListReceiptArgs {
    /// Filter by Federation ID (issuer DID).
    pub federation: Option<String>,
    /// Filter by Module CID.
    pub module_cid: Option<String>,
    /// Filter receipts issued since this date (ISO 8601 format, e.g., "2023-01-01T12:00:00Z").
    pub since: Option<String>,
    /// Maximum number of receipts to list.
    pub limit: usize,
    /// Source directory for exported receipts (if not querying DAG). Used if --dag-dir not specified.
    pub source_dir: String,
    /// Optional path to the DAG storage directory to list anchored receipts.
    pub dag_dir: Option<String>,
}

#[derive(Debug)]
pub struct ShowReceiptArgs {
    /// Receipt reference: URN ID, local file path, or DAG anchor CID.
    pub receipt_ref: String,
    /// Output in raw JSON format.
    pub json: bool,
    /// Source directory for exported receipts (used if receipt_ref is an ID without DAG context).
    pub source_dir: String,
    /// Optional path to the DAG storage directory (used if receipt_ref is a CID or for verification).
    pub dag_dir: Option<String>,
}

#[derive(Debug)]
pub struct VerifyReceiptArgs {
    /// Receipt reference: URN ID, local file path, or DAG anchor CID to verify.
    pub receipt_ref: String,
    /// Optional path to the DAG storage directory (required if verifying DAG dependencies).
    pub dag_dir: Option<String>,
}

#[derive(Debug)]
pub enum RuntimeCommands {
    /// Execute a WASM module in the ICN runtime.
    Run(RunModuleArgs),
    /// Inspect a WASM module for metadata, imports/exports.
    Inspect(InspectModuleArgs),
    /// Validate a WASM module against ICN runtime expectations.
    Validate(ValidateModuleArgs),
}

#[derive(Debug)]
pub struct RunModuleArgs {
    /// Path to the WASM module file.
    pub module_file: String,
    /// Optional CID of the module (if pre-registered or known).
    pub module_cid: Option<String>,
    /// Optional path to a file containing input data for the execution.
    pub input_data_path: Option<String>,
    /// Optional EventID that triggers this execution (for DAG linking).
    pub trigger_event_id: Option<String>,
    /// Disable automatic ExecutionReceipt issuance.
    pub no_auto_receipt: bool,
    /// Issue receipt but do not anchor it to the DAG.
    pub no_anchor_receipt: bool,
    /// Directory to export issued receipts as JSON (overrides default).
    pub receipt_dir: Option<String>,
}

#[derive(Debug)]
pub struct InspectModuleArgs {
    /// Path to the WASM module file or its CID.
    pub module_ref: String,
    /// Show extended details (e.g., ICN-specific manifest sections if present).
    pub extended: bool,
}

#[derive(Debug)]
pub struct ValidateModuleArgs {
    /// Path to the WASM module file to validate.
    pub module_file: String,
    /// Optional path to a schema or policy file for validation.
    pub policy_file: Option<String>,
}

#[derive(Debug)]
pub enum DagSyncCommands {
    /// Show the current status of the DAG sync service.
    Status(StatusArgs),
    /// List currently connected sync peers.
    Peers(PeersArgs),
    /// Attempt to manually connect to a specific peer.
    Connect(ConnectArgs),
    /// Manually disconnect from a specific peer.
    Disconnect(DisconnectArgs),
    /// Manually request the latest DAG head CIDs from a specific peer.
    FetchHead(FetchHeadArgs),
    /// Initiate a sync process with a specific peer.
    SyncWith(SyncWithArgs),
    /// Announce local DAG heads or specific CIDs to connected peers.
    BroadcastLocal(BroadcastLocalArgs),
    /// Display the current DAG sync policy.
    GetPolicy(GetPolicyArgs),
    /// Configure aspects of the DAG sync policy.
    SetPolicy(SetPolicyArgs),
}

#[derive(Debug)]
pub struct StatusArgs {
    /// Optional Federation ID to get status for a specific synced federation.
    pub federation_id: Option<String>,
}

#[derive(Debug)]
pub struct PeersArgs {
    /// Show verbose details for each peer.
    pub verbose: bool,
}

#[derive(Debug)]
pub struct ConnectArgs {
    /// Multiaddress or Peer ID of the peer to connect to.
    pub peer_ref: String,
}

#[derive(Debug)]
pub struct DisconnectArgs {
    /// Peer ID of the peer to disconnect from.
    pub peer_id: String,
}

#[derive(Debug)]
pub struct FetchHeadArgs {
    /// Peer ID to fetch DAG heads from.
    pub peer_id: String,
    /// Optional Federation ID for which to fetch heads.
    pub federation_id: Option<String>,
}

#[derive(Debug)]
pub struct SyncWithArgs {
    /// Peer ID to synchronize with.
    pub peer_id: String,
    /// Optional Federation ID to sync.
    pub federation_id: Option<String>,
    /// Optional specific CIDs to sync (comma-separated).
    pub cids: Option<Vec<String>>,
}

#[derive(Debug)]
pub struct BroadcastLocalArgs {
    /// Optional specific CIDs to broadcast (comma-separated). If not provided, broadcasts current known heads.
    pub cids: Option<Vec<String>>,
    /// Optional Federation ID context for broadcasting heads.
    pub federation_id: Option<String>,
}

#[derive(Debug)]
pub struct GetPolicyArgs {
    /// Optional Federation ID to get policy for.
    pub federation_id: Option<String>,
}

#[derive(Debug)]
pub struct SetPolicyArgs {
    /// Optional Federation ID to set policy for.
    pub federation_id: Option<String>,
    /// Minimum number of peers required for quorum verification.
    pub min_quorum: Option<usize>,
    /// Comma-separated list of authorized DIDs that can provide valid DAG nodes.
    pub authorized_dids: Option<Vec<String>>,
    /// Rate limit for sync operations (nodes per minute).
    pub rate_limit: Option<usize>,
    /// Maximum bundle size in number of nodes.
    pub max_bundle_size: Option<usize>,
}

/// A URL without its trailing slashes.
pub open spec fn without_trailing_slashes(u: Seq<char>) -> Seq<char>
    decreases u.len(),
{
    if u.len() > 0 && u.last() == '/' {
        without_trailing_slashes(u.drop_last())
    } else {
        u
    }
}

/// The endpoint a DAG node is submitted to: the API's URL without trailing
/// slashes, then `/dag/submit`.
pub fn submit_endpoint(url: &str) -> (r: String)
    ensures
        r@ == without_trailing_slashes(url@) + "/dag/submit"@,
{
    let cs = crate::text::chars_of(url);
    let mut n: usize = cs.len();
    assert(cs@.subrange(0, n as int) == url@);
    while n > 0 && cs[n - 1] == '/'
        invariant
            n <= cs@.len(),
            cs@ == url@,
            without_trailing_slashes(url@) == without_trailing_slashes(cs@.subrange(0, n as int)),
        decreases n,
    {
        assert(cs@.subrange(0, n as int).drop_last() == cs@.subrange(0, n - 1));
        n = n - 1;
    }
    crate::text::string_from_chars(&cs, 0, n).concat("/dag/submit")
}

/// The bytes a submitted node carries: a string payload is base64 and is
/// decoded; any other payload is carried as its JSON text.
pub fn submit_payload_bytes(payload: &JsonValue) -> (r: Result<Vec<u8>, String>)
    ensures
        match payload {
            JsonValue::Str(s) => match crate::keys::base64_reading(s@) {
                Ok(b) => r matches Ok(x) && x@ == b,
                Err(_) => r matches Err(m) && m@ == "Payload string is not valid base64: "@ + s@,
            },
            _ => r matches Ok(x) && x@ == encode_utf8(json_written(*payload)),
        },
{
    match payload {
        JsonValue::Str(s) => match crate::keys::base64_decode(s.as_str()) {
            Ok(b) => Ok(b),
            Err(_) => Err("Payload string is not valid base64: ".to_owned().concat(s.as_str())),
        },
        _ => Ok(json_text(payload).as_str().as_bytes_vec()),
    }
}

/// The DID a submission is signed under when none is given: `did:key:` and the
/// public key in multibase base58btc.
pub fn did_from_verifying_key(public_key: &[u8; 32]) -> (r: String)
    ensures
        r@ == crate::keys::did_key_of(public_key@),
{
    "did:key:".to_owned().concat(crate::keys::multibase_encode_base58btc(public_key).as_str())
}

/// A replay of a DAG from one node back through its ancestors, breadth first:
/// the CIDs still to visit, in order, and those already visited. The nodes
/// themselves are fetched by the caller, one at a time.
#[derive(Debug)]
pub struct DagReplay {
    pub queue: Vec<String>,
    pub visited: Vec<String>,
}

/// The index of the first CID of `q` not yet visited, or `q.len()`.
pub open spec fn first_unseen(q: Seq<Seq<char>>, visited: Seq<Seq<char>>) -> int
    decreases q.len(),
{
    if q.len() == 0 {
        0
    } else if !visited.contains(q[0]) {
        0
    } else {
        1 + first_unseen(q.drop_first(), visited)
    }
}

proof fn lemma_first_unseen(q: Seq<Seq<char>>, visited: Seq<Seq<char>>)
    ensures
        0 <= first_unseen(q, visited) <= q.len(),
        forall|j: int| 0 <= j < first_unseen(q, visited) ==> visited.contains(#[trigger] q[j]),
        first_unseen(q, visited) < q.len() ==> !visited.contains(q[first_unseen(q, visited)]),
    decreases q.len(),
{
    if q.len() > 0 && visited.contains(q[0]) {
        lemma_first_unseen(q.drop_first(), visited);
        assert forall|j: int| 0 <= j < first_unseen(q, visited) implies visited.contains(#[trigger] q[j]) by {
            if j > 0 {
                assert(q[j] == q.drop_first()[j - 1]);
            }
        }
    }
}

/// The parents of a visited node that are queued: those not yet visited, in order.
pub open spec fn unseen_parents(parents: Seq<Seq<char>>, visited: Seq<Seq<char>>) -> Seq<Seq<char>>
    decreases parents.len(),
{
    if parents.len() == 0 {
        Seq::empty()
    } else {
        let before = unseen_parents(parents.drop_last(), visited);
        if visited.contains(parents.last()) {
            before
        } else {
            before.push(parents.last())
        }
    }
}

impl DagReplay {
    /// A replay that starts at the node with CID `cid`.
    pub fn start(cid: &str) -> (r: DagReplay)
        ensures
            texts(r.queue@) == seq![cid@],
            r.visited@.len() == 0,
    {
        let mut queue: Vec<String> = Vec::new();
        queue.push(cid.to_owned());
        DagReplay { queue, visited: Vec::new() }
    }

    /// The next CID to fetch: queued CIDs already visited are dropped, the
    /// first one not visited is taken off the queue and marked visited.
    /// Nothing once the queue runs out.
    pub fn next_cid(&mut self) -> (r: Option<String>)
        ensures
            texts(old(self).visited@).no_duplicates() ==> texts(final(self).visited@).no_duplicates(),
            ({
                let q = texts(old(self).queue@);
                let v = texts(old(self).visited@);
                let k = first_unseen(q, v);
                match r {
                    None => k == q.len() && final(self).queue@.len() == 0 && texts(final(self).visited@) == v,
                    Some(c) => k < q.len() && c@ == q[k] && !v.contains(c@)
                        && texts(final(self).queue@) == q.subrange(k + 1, q.len() as int)
                        && texts(final(self).visited@) == v.push(c@),
                }
            }),
    {
        let ghost q0 = texts(self.queue@);
        let ghost v0 = texts(self.visited@);
        proof {
            lemma_first_unseen(q0, v0);
        }
        let ghost mut dropped: int = 0;
        loop
            invariant
                0 <= dropped <= q0.len(),
                q0 == texts(old(self).queue@),
                v0 == texts(old(self).visited@),
                texts(self.queue@) == q0.subrange(dropped, q0.len() as int),
                texts(self.visited@) == v0,
                forall|j: int| 0 <= j < dropped ==> v0.contains(#[trigger] q0[j]),
                0 <= first_unseen(q0, v0) <= q0.len(),
                forall|j: int| 0 <= j < first_unseen(q0, v0) ==> v0.contains(#[trigger] q0[j]),
                first_unseen(q0, v0) < q0.len() ==> !v0.contains(q0[first_unseen(q0, v0)]),
            decreases self.queue@.len(),
        {
            assert(texts(self.queue@).len() == self.queue@.len());
            if self.queue.len() == 0 {
                assert(dropped == q0.len());
                proof {
                    let k = first_unseen(q0, v0);
                    if k < q0.len() {
                        assert(v0.contains(q0[k]));
                    }
                }
                return None;
            }
            let ghost before = self.queue@;
            assert(texts(before)[0] == before[0]@);
            assert(q0.subrange(dropped, q0.len() as int)[0] == q0[dropped]);
            let c = self.queue.remove(0);
            assert(c@ == q0[dropped]);
            assert(texts(self.queue@) == q0.subrange(dropped + 1, q0.len() as int)) by {
                assert(self.queue@ == before.remove(0));
                assert(texts(self.queue@) == texts(before).subrange(1, before.len() as int));
            }
            if !contains_text(&self.visited, c.as_str()) {
                proof {
                    let k = first_unseen(q0, v0);
                    if k < dropped {
                        assert(v0.contains(q0[k]));
                    }
                    if k > dropped {
                        assert(v0.contains(q0[dropped as int]));
                    }
                }
                self.visited.push(c.clone());
                assert(texts(self.visited@) == v0.push(c@));
                proof {
                    if v0.no_duplicates() {
                        assert forall|a: int, b: int| 0 <= a < b < v0.len() + 1 implies v0.push(c@)[a] != v0.push(c@)[b] by {
                            if b == v0.len() {
                                assert(v0.push(c@)[a] == v0[a]);
                            }
                        }
                    }
                }
                return Some(c);
            }
            proof {
                dropped = dropped + 1;
            }
        }
    }

    /// Queues the parents of the node just visited that are not yet visited,
    /// in order.
    pub fn queue_parents(&mut self, parents: &Vec<String>)
        ensures
            texts(final(self).visited@) == texts(old(self).visited@),
            texts(final(self).queue@) == texts(old(self).queue@)
                + unseen_parents(texts(parents@), texts(old(self).visited@)),
    {
        let ghost q0 = texts(self.queue@);
        let mut i: usize = 0;
        while i < parents.len()
            invariant
                i <= parents@.len(),
                texts(self.visited@) == texts(old(self).visited@),
                q0 == texts(old(self).queue@),
                texts(self.queue@) == q0 + unseen_parents(texts(parents@.subrange(0, i as int)), texts(self.visited@)),
            decreases parents.len() - i,
        {
            assert(texts(parents@.subrange(0, i + 1)).drop_last() == texts(parents@.subrange(0, i as int)));
            assert(texts(parents@.subrange(0, i + 1)).last() == parents@[i as int]@);
            if !contains_text(&self.visited, parents[i].as_str()) {
                let ghost before = texts(self.queue@);
                self.queue.push(parents[i].clone());
                assert(texts(self.queue@) == before.push(parents@[i as int]@));
            }
            i = i + 1;
        }
        assert(parents@.subrange(0, parents@.len() as int) == parents@);
    }
}

/// The scope kind a lower-cased index key names: `federation`, `community`,
/// `cooperative`.
pub open spec fn index_scope_named(name: Seq<char>) -> Option<crate::policy::NodeScope> {
    if name == "federation"@ {
        Some(crate::policy::NodeScope::Federation)
    } else if name == "community"@ {
        Some(crate::policy::NodeScope::Community)
    } else if name == "cooperative"@ {
        Some(crate::policy::NodeScope::Cooperative)
    } else {
        None
    }
}

/// Reads the scope a DAG index query names, in any case.
pub fn parse_node_scope(scope_str: &str) -> (r: Result<crate::policy::NodeScope, crate::governance::CliError>)
    ensures
        match index_scope_named(crate::text::lowercase(scope_str@)) {
            Some(s) => r == Ok::<crate::policy::NodeScope, crate::governance::CliError>(s),
            None => r matches Err(crate::governance::CliError::InvalidInput(m))
                && m@ == "Invalid scope string: '"@ + scope_str@ + "'. Use Federation, Community, or Cooperative."@,
        },
{
    let l = crate::text::to_lowercase(scope_str);
    if crate::text::str_eq(l.as_str(), "federation") {
        Ok(crate::policy::NodeScope::Federation)
    } else if crate::text::str_eq(l.as_str(), "community") {
        Ok(crate::policy::NodeScope::Community)
    } else if crate::text::str_eq(l.as_str(), "cooperative") {
        Ok(crate::policy::NodeScope::Cooperative)
    } else {
        Err(crate::governance::CliError::InvalidInput("Invalid scope string: '".to_owned().concat(scope_str)
            .concat("'. Use Federation, Community, or Cooperative.")))
    }
}

} // verus!
