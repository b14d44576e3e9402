//! Execution configuration, runtime errors, and the decisions the WASM host
//! functions make about guest memory, entry points and policy checks.
use vstd::prelude::*;
use vstd::string::*;
use crate::dag::DagError;
use crate::policy::{
    Did, MembershipIndex, PolicyError, PolicyLoader, evaluate_policy, policy_decision,
};
use crate::text::str_eq;

verus! {

/// Configuration related to WASM execution within the runtime.
#[derive(Debug, Clone)]
pub struct ExecutionConfig {
    /// If true, automatically issue execution receipts after successful runs.
    pub auto_issue_receipts: bool,
    /// If true, and `auto_issue_receipts` is true, anchor the receipt into the DAG.
    pub anchor_receipts: bool,
    /// Optional directory to export issued receipts to as JSON files.
    pub receipt_export_dir: Option<String>,
}

/// The default for boolean switches that are on unless configured otherwise.
pub fn default_true() -> (r: bool)
    ensures
        r,
{
    true
}

/// The directory receipts are exported to unless configured otherwise.
pub fn default_receipt_export_dir() -> (r: Option<String>)
    ensures
        r matches Some(d) && d@ == "output/receipts"@,
{
    Some("output/receipts".to_owned())
}

impl Default for ExecutionConfig {
    fn default() -> (r: ExecutionConfig)
        ensures
            r.auto_issue_receipts,
            r.anchor_receipts,
            r.receipt_export_dir matches Some(d) && d@ == "output/receipts"@,
    {
        ExecutionConfig {
            auto_issue_receipts: default_true(),
            anchor_receipts: default_true(),
            receipt_export_dir: default_receipt_export_dir(),
        }
    }
}

/// Main runtime configuration.
#[derive(Debug, Clone)]
pub struct RuntimeConfig {
    pub execution: ExecutionConfig,
}

impl Default for RuntimeConfig {
    fn default() -> (r: RuntimeConfig)
        ensures
            r.execution.auto_issue_receipts,
            r.execution.anchor_receipts,
            r.execution.receipt_export_dir matches Some(d) && d@ == "output/receipts"@,
    {
        RuntimeConfig { execution: ExecutionConfig::default() }
    }
}

/// Configuration for one WASM execution.
#[derive(Debug, Clone)]
pub struct WasmExecutionConfig {
    /// Maximum memory size in bytes.
    pub max_memory: u64,
    /// Maximum execution fuel (instruction count).
    pub max_fuel: u64,
    /// Whether to enable WASI.
    pub enable_wasi: bool,
    /// Whether to enable debugging.
    pub enable_debug: bool,
}

impl Default for WasmExecutionConfig {
    fn default() -> (r: WasmExecutionConfig)
        ensures
            r.max_memory == 100 * 1024 * 1024,
            r.max_fuel == 10_000_000,
            !r.enable_wasi,
            !r.enable_debug,
    {
        WasmExecutionConfig {
            max_memory: 100 * 1024 * 1024,
            max_fuel: 10_000_000,
            enable_wasi: false,
            enable_debug: false,
        }
    }
}

/// Metrics from a WASM execution.
#[derive(Debug, Clone)]
pub struct WasmExecutionMetrics {
    /// Execution time in milliseconds.
    pub execution_time_ms: u64,
    /// Memory used in bytes.
    pub memory_used_bytes: u64,
    /// Fuel consumed by the run (instruction count).
    pub fuel_consumed: u64,
}

/// The metrics of a run given `max_fuel` fuel: the fuel consumed is the
/// engine's consumed count (zero when the engine reports none), which never
/// exceeds the fuel given; memory use is not tracked.
pub fn collect_metrics(max_fuel: u64, engine_fuel: Option<u64>, elapsed_ms: u64) -> (r: WasmExecutionMetrics)
    requires
        engine_fuel matches Some(f) ==> f <= max_fuel,
    ensures
        r.execution_time_ms == elapsed_ms,
        r.memory_used_bytes == 0,
        r.fuel_consumed == (match engine_fuel {
            Some(f) => f,
            None => 0u64,
        }),
        r.fuel_consumed <= max_fuel,
{
    let used = match engine_fuel {
        Some(f) => f,
        None => 0,
    };
    WasmExecutionMetrics { execution_time_ms: elapsed_ms, memory_used_bytes: 0, fuel_consumed: used }
}

/// Runtime error types when working with WASM execution.
#[derive(Debug, Clone)]
pub enum RuntimeError {
    DagStore(String),
    NodeNotFound(String),
    DagVerification(String),
    DagSerialization(String),
    Policy(PolicyError),
    InvalidModule(String),
    ModuleCompilation(String),
    WasmInstantiation(String),
    WasmExecution(String),
    WasmEngine(String),
    Other(String),
}

/// Whether `r` is the runtime error the DAG error `e` is reported as.
pub open spec fn reports_dag_error(r: RuntimeError, e: DagError) -> bool {
    match e {
        DagError::NodeNotFound(cid) => r == RuntimeError::NodeNotFound(cid),
        DagError::ParentNotFound { child, parent } => r matches RuntimeError::DagVerification(m)
            && m@ == "Parent "@ + parent@ + " not found for child "@ + child@,
        DagError::InvalidSignature(cid) => r matches RuntimeError::DagVerification(m)
            && m@ == "Invalid signature for node "@ + cid@,
        DagError::SerializationError(m) => r == RuntimeError::DagSerialization(m),
        DagError::InvalidNodeData(m) => r == RuntimeError::DagStore(m),
        DagError::PublicKeyResolutionError(did, msg) => r matches RuntimeError::Other(m)
            && m@ == "PublicKey resolution failed for "@ + did@ + ": "@ + msg@,
        DagError::StorageError(m) => r == RuntimeError::DagStore(m),
        DagError::RocksDbError(m) => r == RuntimeError::DagStore(m),
        DagError::JoinError(m) => r == RuntimeError::Other(m),
        DagError::CidError(m) => r == RuntimeError::DagStore(m),
        DagError::CidMismatch(cid) => r matches RuntimeError::DagVerification(m)
            && m@ == "CID mismatch for node "@ + cid@,
        DagError::MissingParent(cid) => r matches RuntimeError::DagVerification(m)
            && m@ == "Missing parent for node "@ + cid@,
        DagError::PolicyError(p) => r == RuntimeError::Policy(p),
    }
}

impl RuntimeError {
    /// The runtime error a DAG error is reported as.
    pub fn from_dag_error(err: DagError) -> (r: RuntimeError)
        ensures
            reports_dag_error(r, err),
    {
        match err {
            DagError::NodeNotFound(cid) => RuntimeError::NodeNotFound(cid),
            DagError::ParentNotFound { child, parent } => RuntimeError::DagVerification(
                "Parent ".to_owned().concat(parent.as_str()).concat(" not found for child ").concat(child.as_str()),
            ),
            DagError::InvalidSignature(cid) => RuntimeError::DagVerification(
                "Invalid signature for node ".to_owned().concat(cid.as_str()),
            ),
            DagError::SerializationError(m) => RuntimeError::DagSerialization(m),
            DagError::InvalidNodeData(m) => RuntimeError::DagStore(m),
            DagError::PublicKeyResolutionError(did, m) => RuntimeError::Other(
                "PublicKey resolution failed for ".to_owned().concat(did.as_str()).concat(": ").concat(m.as_str()),
            ),
            DagError::StorageError(m) => RuntimeError::DagStore(m),
            DagError::RocksDbError(m) => RuntimeError::DagStore(m),
            DagError::JoinError(m) => RuntimeError::Other(m),
            DagError::CidError(m) => RuntimeError::DagStore(m),
            DagError::CidMismatch(cid) => RuntimeError::DagVerification(
                "CID mismatch for node ".to_owned().concat(cid.as_str()),
            ),
            DagError::MissingParent(cid) => RuntimeError::DagVerification(
                "Missing parent for node ".to_owned().concat(cid.as_str()),
            ),
            DagError::PolicyError(p) => RuntimeError::Policy(p),
        }
    }
}

/// The status code the host reports for a policy check: 0 when authorized,
/// 1 to 5 for the reason it was refused.
pub open spec fn authorization_code(r: Result<(), PolicyError>) -> i32 {
    match r {
        Ok(_) => 0,
        Err(PolicyError::ActionNotPermitted) => 1,
        Err(PolicyError::UnauthorizedScopeAccess) => 2,
        Err(PolicyError::DidNotInAllowlist) => 3,
        Err(PolicyError::PolicyNotFound) => 4,
        Err(PolicyError::InternalError(_)) => 5,
    }
}

/// The status code the host reports for a policy check.
pub fn authorization_status(r: &Result<(), PolicyError>) -> (code: i32)
    ensures
        code == authorization_code(*r),
{
    match r {
        Ok(()) => 0,
        Err(PolicyError::ActionNotPermitted) => 1,
        Err(PolicyError::UnauthorizedScopeAccess) => 2,
        Err(PolicyError::DidNotInAllowlist) => 3,
        Err(PolicyError::PolicyNotFound) => 4,
        Err(PolicyError::InternalError(_)) => 5,
    }
}

/// The decision of the policy filed under (`scope_type`, `scope_id`), or
/// `PolicyNotFound` when none is filed.
pub open spec fn loader_decision(
    policies: Map<(Seq<char>, Seq<char>), crate::policy::PolicyMeaning>,
    members: Set<(crate::policy::ScopeType, Seq<char>, Seq<char>)>,
    scope_type: Seq<char>,
    scope_id: Seq<char>,
    action: Seq<char>,
    did: Seq<char>,
) -> Result<(), PolicyError> {
    if policies.contains_key((scope_type, scope_id)) {
        policy_decision(policies[(scope_type, scope_id)], action, did, members)
    } else {
        Err(PolicyError::PolicyNotFound)
    }
}

/// Checks `did` performing `action` in the scope named by kind and id.
pub fn check_policy_authorization(
    loader: &PolicyLoader,
    members: &MembershipIndex,
    scope_type: &str,
    scope_id: &str,
    action: &str,
    did: &Did,
) -> (r: Result<(), PolicyError>)
    ensures
        r == loader_decision(loader@, members@, scope_type@, scope_id@, action@, did@),
{
    match loader.load_for_scope(scope_type, scope_id) {
        Ok(policy) => evaluate_policy(&policy, action, did, members),
        Err(_) => Err(PolicyError::PolicyNotFound),
    }
}

/// The code the `check_policy_authorization` host function returns, given what
/// it read from guest memory: -1 to -4 when a string could not be read, -5 for a
/// malformed DID, -6 when no policy loader is available, otherwise the check's
/// status code.
pub fn host_policy_check_code(
    scope_type: Option<&str>,
    scope_id: Option<&str>,
    action: Option<&str>,
    did: Option<&Did>,
    did_well_formed: bool,
    loader: Option<&PolicyLoader>,
    members: &MembershipIndex,
) -> (code: i32)
    ensures
        scope_type is None ==> code == -1,
        scope_type is Some && scope_id is None ==> code == -2,
        scope_type is Some && scope_id is Some && action is None ==> code == -3,
        scope_type is Some && scope_id is Some && action is Some && did is None ==> code == -4,
        scope_type is Some && scope_id is Some && action is Some && did is Some && !did_well_formed ==> code == -5,
        scope_type is Some && scope_id is Some && action is Some && did is Some && did_well_formed
            && loader is None ==> code == -6,
        scope_type is Some && scope_id is Some && action is Some && did is Some && did_well_formed
            && loader is Some ==> code == authorization_code(loader_decision(
                loader->0@, members@, scope_type->0@, scope_id->0@, action->0@, did->0@)),
{
    let st = match scope_type { Some(s) => s, None => { return -1; } };
    let sid = match scope_id { Some(s) => s, None => { return -2; } };
    let act = match action { Some(s) => s, None => { return -3; } };
    let d = match did { Some(s) => s, None => { return -4; } };
    if !did_well_formed {
        return -5;
    }
    let l = match loader { Some(l) => l, None => { return -6; } };
    let r = check_policy_authorization(l, members, st, sid, act, d);
    authorization_status(&r)
}

/// The byte range `ptr..ptr + len` of guest memory, when it lies within
/// memory of `mem_len` bytes.
pub open spec fn guest_range(ptr: i32, len: i32, mem_len: usize) -> Option<(usize, usize)> {
    let start = ptr as usize;
    let end = (ptr + len) as i32 as usize;
    if start <= end && end <= mem_len {
        Some((start, end))
    } else {
        None
    }
}

/// The byte range of guest memory a string argument occupies, if it is in bounds.
pub fn guest_string_range(ptr: i32, len: i32, mem_len: usize) -> (r: Option<(usize, usize)>)
    requires
        i32::MIN <= ptr + len <= i32::MAX,
    ensures
        r == guest_range(ptr, len, mem_len),
{
    let start = ptr as usize;
    let end = (ptr + len) as usize;
    if start <= end && end <= mem_len {
        Some((start, end))
    } else {
        None
    }
}

/// What `get_caller_did` returns: the DID's length when both the DID and the
/// caller's buffer fit in guest memory, and 0 otherwise.
pub fn caller_did_write_len(ptr: i32, len: i32, did_len: usize, mem_len: usize) -> (r: i32)
    requires
        (ptr as usize) + did_len <= usize::MAX,
        (ptr as usize) + (len as usize) <= usize::MAX,
    ensures
        ((ptr as usize) + did_len <= mem_len && (ptr as usize) + (len as usize) <= mem_len) ==> r == did_len as i32,
        !((ptr as usize) + did_len <= mem_len && (ptr as usize) + (len as usize) <= mem_len) ==> r == 0,
{
    if (ptr as usize) + did_len <= mem_len && (ptr as usize) + (len as usize) <= mem_len {
        did_len as i32
    } else {
        0
    }
}

/// The entry points a module may export, in order of preference.
pub open spec fn entry_point_names() -> Seq<Seq<char>> {
    seq!["_start"@, "main"@, "run"@, "execute"@]
}

/// Whether `name` is among `available`.
pub open spec fn offers(available: Seq<String>, name: Seq<char>) -> bool {
    exists|i: int| 0 <= i < available.len() && #[trigger] available[i]@ == name
}

fn offers_name(available: &Vec<String>, name: &str) -> (r: bool)
    ensures
        r == offers(available@, name@),
{
    let mut i: usize = 0;
    while i < available.len()
        invariant
            i <= available@.len(),
            forall|j: int| 0 <= j < i ==> (#[trigger] available@[j])@ != name@,
        decreases available.len() - i,
    {
        if str_eq(available[i].as_str(), name) {
            return true;
        }
        i = i + 1;
    }
    false
}

/// Picks the entry point to run among the functions a module exports: the
/// first of `_start`, `main`, `run`, `execute` that it offers.
pub fn find_entry_point(available: &Vec<String>) -> (r: Option<String>)
    ensures
        match r {
            Some(n) => exists|k: int| 0 <= k < 4 && #[trigger] entry_point_names()[k] == n@
                && offers(available@, n@)
                && forall|j: int| 0 <= j < k ==> !offers(available@, #[trigger] entry_point_names()[j]),
            None => forall|j: int| 0 <= j < 4 ==> !offers(available@, #[trigger] entry_point_names()[j]),
        },
{
    let ghost names = entry_point_names();
    if offers_name(available, "_start") {
        assert(names[0] == "_start"@);
        return Some("_start".to_owned());
    }
    if offers_name(available, "main") {
        assert(names[1] == "main"@);
        return Some("main".to_owned());
    }
    if offers_name(available, "run") {
        assert(names[2] == "run"@);
        return Some("run".to_owned());
    }
    if offers_name(available, "execute") {
        assert(names[3] == "execute"@);
        return Some("execute".to_owned());
    }
    None
}

/// What is done with a receipt once one is issued after an execution.
#[derive(Debug)]
pub struct ReceiptPlan {
    /// Anchor the receipt into the DAG.
    pub anchor: bool,
    /// Write the receipt to this directory.
    pub export_dir: Option<String>,
}

/// Whether a receipt is issued after an execution, and what is then done with
/// it: nothing is issued unless receipts are issued automatically.
pub fn receipt_plan(config: &ExecutionConfig) -> (r: Option<ReceiptPlan>)
    ensures
        r is None <==> !config.auto_issue_receipts,
        r matches Some(p) ==> p.anchor == config.anchor_receipts && match config.receipt_export_dir {
            Some(d) => p.export_dir matches Some(x) && x@ == d@,
            None => p.export_dir is None,
        },
{
    if !config.auto_issue_receipts {
        return None;
    }
    let export_dir = match &config.receipt_export_dir {
        Some(d) => Some(d.clone()),
        None => None,
    };
    Some(ReceiptPlan { anchor: config.anchor_receipts, export_dir })
}

/// The file an exported receipt is written to: `receipt-`, its id, `.json`.
pub fn receipt_file_name(receipt_id: &str) -> (r: String)
    ensures
        r@ == "receipt-"@ + receipt_id@ + ".json"@,
{
    "receipt-".to_owned().concat(receipt_id).concat(".json")
}

} // verus!
