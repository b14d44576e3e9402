//! The compute mesh: key files, job manifests, the choice of capable nodes and
//! of the bid a job owner accepts.
use vstd::prelude::*;
use vstd::string::*;
use vstd::utf8::encode_utf8;
use crate::json::{JsonValue, json_get_str, json_reading, json_u64, read_json};
use crate::text::{
    chars_of, decimal_digits, decimal_text, lowercase, parse_unsigned, parse_unsigned_decimal,
    str_eq, string_from_chars, texts, to_lowercase, joined, join_texts,
};

verus! {

/// An error of the mesh commands, with its message.
#[derive(Debug)]
pub struct MeshError {
    pub message: String,
}

/// A mesh error with the message given.
pub open spec fn mesh_failure<T>(r: Result<T, MeshError>, m: Seq<char>) -> bool {
    r matches Err(e) && e.message@ == m
}

/// Copies a 32-byte Ed25519 key out of a byte slice.
pub fn to_32_bytes(slice: &[u8]) -> (r: Result<[u8; 32], MeshError>)
    ensures
        slice@.len() == 32 <==> r is Ok,
        r matches Ok(b) ==> b@ == slice@,
        slice@.len() != 32 ==> mesh_failure(r,
            "Expected 32 bytes for ed25519 key, got "@ + decimal_digits(slice@.len())),
{
    if slice.len() != 32 {
        return Err(MeshError {
            message: "Expected 32 bytes for ed25519 key, got ".to_owned()
                .concat(decimal_text(slice.len() as u64).as_str()),
        });
    }
    let mut bytes = [0u8; 32];
    let mut i: usize = 0;
    while i < 32
        invariant
            slice@.len() == 32,
            bytes@.len() == 32,
            i <= 32,
            forall|j: int| 0 <= j < i ==> bytes@[j] == slice@[j],
        decreases 32 - i,
    {
        bytes[i] = slice[i];
        i = i + 1;
    }
    assert(bytes@ == slice@);
    Ok(bytes)
}

/// The bytes a hexadecimal text holds, or the text of the error, as
/// `hex::decode` reads it.
pub uninterp spec fn hex_reading(text: Seq<char>) -> Result<Seq<u8>, Seq<char>>;

/// The value of a hexadecimal digit (either case), as a byte of text.
pub open spec fn hex_digit_value(b: u8) -> Option<u8> {
    if 48 <= b <= 57 {
        Some((b - 48) as u8)
    } else if 65 <= b <= 70 {
        Some((b - 55) as u8)
    } else if 97 <= b <= 102 {
        Some((b - 87) as u8)
    } else {
        None
    }
}

/// Hexadecimal text as bytes: an even number of digits, two to a byte, the
/// first the high half.
pub open spec fn hex_bytes(digits: Seq<u8>) -> Option<Seq<u8>> {
    if digits.len() % 2 == 0 && forall|i: int| 0 <= i < digits.len() ==> (#[trigger] hex_digit_value(digits[i])) is Some {
        Some(Seq::new(digits.len() / 2, |i: int|
            (16 * hex_digit_value(digits[2 * i])->0 + hex_digit_value(digits[2 * i + 1])->0) as u8))
    } else {
        None
    }
}

/// Decodes hexadecimal text with `hex::decode`: it reads the text's bytes two
/// at a time and fails on an odd length or a byte that is no hexadecimal digit.
/// The bytes, or the error text, are named by `hex_reading`; the text of an
/// error for a bad digit is left to that name.
#[verifier::external_body]
pub(crate) fn hex_decode(text: &str) -> (r: Result<Vec<u8>, String>)
    ensures
        match r {
            Ok(b) => hex_reading(text@) == Ok::<Seq<u8>, Seq<char>>(b@),
            Err(m) => hex_reading(text@) == Err::<Seq<u8>, Seq<char>>(m@),
        },
        (match hex_bytes(encode_utf8(text@)) {
            Some(b) => r matches Ok(x) && x@ == b,
            None => r matches Err(m) && (encode_utf8(text@).len() % 2 == 1 ==> m@ == "Odd number of digits"@),
        }),
{
    hex::decode(text).map_err(|e| e.to_string())
}

/// What a key file yields: the owner's DID and private key bytes, or the
/// text of the refusal.
pub open spec fn key_file_outcome(data: Seq<char>) -> Result<(Seq<char>, Seq<u8>), Seq<char>> {
    match json_reading(encode_utf8(data)) {
        Err(e) => Err("Invalid key file format, expected JSON: "@ + e),
        Ok(v) => match json_get_str(v, "did"@) {
            None => Err("DID not found in key file"@),
            Some(did) => match json_get_str(v, "privateKey"@) {
                None => Err("Private key not found in key file"@),
                Some(k) => match hex_bytes(encode_utf8(k)) {
                    Some(bytes) => Ok((did, bytes)),
                    None => Err("Invalid private key hex format: "@ + hex_reading(k)->Err_0),
                },
            },
        },
    }
}

/// Reads a key file: a JSON object with the owner's `did` and its
/// hexadecimal `privateKey`.
pub fn read_key_file(key_data: &str) -> (r: Result<(String, Vec<u8>), MeshError>)
    ensures
        match key_file_outcome(key_data@) {
            Ok((did, bytes)) => r matches Ok((d, b)) && d@ == did && b@ == bytes,
            Err(m) => mesh_failure(r, m),
        },
{
    let v = match read_json(key_data.as_bytes()) {
        Ok(v) => v,
        Err(e) => {
            return Err(MeshError { message: "Invalid key file format, expected JSON: ".to_owned().concat(e.as_str()) });
        },
    };
    let did = match v.get_str("did") {
        Some(d) => d.clone(),
        None => {
            return Err(MeshError { message: "DID not found in key file".to_owned() });
        },
    };
    let key_hex = match v.get_str("privateKey") {
        Some(k) => k,
        None => {
            return Err(MeshError { message: "Private key not found in key file".to_owned() });
        },
    };
    match hex_decode(key_hex.as_str()) {
        Ok(bytes) => Ok((did, bytes)),
        Err(e) => Err(MeshError { message: "Invalid private key hex format: ".to_owned().concat(e.as_str()) }),
    }
}

/// A kind and amount of compute resource.
#[derive(Debug, Clone, Copy, PartialEq, Eq, Structural)]
pub enum ResourceType {
    RamMb(u64),
    CpuCores(u64),
    GpuCores(u64),
    StorageMb(u64),
}

/// The resource a named requirement asks for, when its value is a
/// non-negative integer: `ram_mb`/`memory`, `cpu_cores`/`cpu`,
/// `gpu_cores`/`gpu`, `storage_mb`/`storage`.
pub open spec fn resource_named(name: Seq<char>, value: JsonValue) -> Option<ResourceType> {
    match json_u64(value) {
        None => None,
        Some(n) => if name == "ram_mb"@ || name == "memory"@ {
            Some(ResourceType::RamMb(n))
        } else if name == "cpu_cores"@ || name == "cpu"@ {
            Some(ResourceType::CpuCores(n))
        } else if name == "gpu_cores"@ || name == "gpu"@ {
            Some(ResourceType::GpuCores(n))
        } else if name == "storage_mb"@ || name == "storage"@ {
            Some(ResourceType::StorageMb(n))
        } else {
            None
        },
    }
}

/// Reads a named resource requirement.
pub fn parse_resource_type(name: &str, value: &JsonValue) -> (r: Option<ResourceType>)
    ensures
        r == resource_named(name@, *value),
{
    let n = match value.as_u64() {
        Some(n) => n,
        None => {
            return None;
        },
    };
    if str_eq(name, "ram_mb") || str_eq(name, "memory") {
        Some(ResourceType::RamMb(n))
    } else if str_eq(name, "cpu_cores") || str_eq(name, "cpu") {
        Some(ResourceType::CpuCores(n))
    } else if str_eq(name, "gpu_cores") || str_eq(name, "gpu") {
        Some(ResourceType::GpuCores(n))
    } else if str_eq(name, "storage_mb") || str_eq(name, "storage") {
        Some(ResourceType::StorageMb(n))
    } else {
        None
    }
}

/// A job to run on the mesh.
#[derive(Debug)]
pub struct JobManifest {
    pub id: String,
    pub wasm_module_cid: String,
    pub resource_requirements: Vec<ResourceType>,
    pub parameters: JsonValue,
    pub owner: String,
    pub deadline: Option<i64>,
    pub federation_id: String,
    pub max_compute_units: Option<u64>,
    pub origin_coop_id: String,
}

/// The refusal met while making a manifest from command-line arguments, if any.
pub open spec fn inline_manifest_error(has_module: bool, params: Option<Seq<char>>) -> Option<Seq<char>> {
    if !has_module {
        Some("WASM module CID is required"@)
    } else if params is Some && json_reading(encode_utf8(params->0)) is Err {
        Some("Failed to parse parameters JSON: "@ + json_reading(encode_utf8(params->0))->Err_0)
    } else {
        None
    }
}

/// Makes a job manifest from command-line arguments: the module CID is
/// required; memory and cores become requirements; the parameters, if given,
/// must be JSON (else they are `null`); the federation defaults to `default`,
/// the compute budget to 1000 units and the originating cooperative to `default`.
pub fn inline_job_manifest(
    job_id: &str,
    wasm_module_cid: &Option<String>,
    memory_mb: Option<u64>,
    cpu_cores: Option<u32>,
    params: &Option<String>,
    owner: &str,
    federation_id: &Option<String>,
) -> (r: Result<JobManifest, MeshError>)
    ensures
        ({
            let err = inline_manifest_error(wasm_module_cid is Some, match params { Some(p) => Some(p@), None => None });
            &&& (r is Err <==> err is Some)
            &&& (err is Some ==> mesh_failure(r, err->0))
        }),
        r matches Ok(m) ==> {
            &&& m.id@ == job_id@
            &&& m.wasm_module_cid@ == wasm_module_cid->0@
            &&& m.resource_requirements@.len() == (if memory_mb is Some { 1int } else { 0 }) + (if cpu_cores is Some { 1int } else { 0 })
            &&& (memory_mb matches Some(x) ==> m.resource_requirements@.contains(ResourceType::RamMb(x)))
            &&& (cpu_cores matches Some(c) ==> m.resource_requirements@.contains(ResourceType::CpuCores(c as u64)))
            &&& (match params {
                Some(p) => json_reading(encode_utf8(p@)) == Ok::<JsonValue, Seq<char>>(m.parameters),
                None => m.parameters is Null,
            })
            &&& m.owner@ == owner@
            &&& m.deadline is None
            &&& m.federation_id@ == match federation_id { Some(f) => f@, None => "default"@ }
            &&& m.max_compute_units == Some(1000u64)
            &&& m.origin_coop_id@ == "default"@
        },
{
    let module = match wasm_module_cid {
        Some(c) => c.clone(),
        None => {
            return Err(MeshError { message: "WASM module CID is required".to_owned() });
        },
    };
    let mut reqs: Vec<ResourceType> = Vec::new();
    if let Some(m) = memory_mb {
        reqs.push(ResourceType::RamMb(m));
    }
    if let Some(c) = cpu_cores {
        reqs.push(ResourceType::CpuCores(c as u64));
    }
    let parameters = match params {
        Some(p) => match read_json(p.as_str().as_bytes()) {
            Ok(v) => v,
            Err(e) => {
                return Err(MeshError { message: "Failed to parse parameters JSON: ".to_owned().concat(e.as_str()) });
            },
        },
        None => JsonValue::Null,
    };
    let fed = match federation_id {
        Some(f) => f.clone(),
        None => "default".to_owned(),
    };
    proof {
        if memory_mb is Some && cpu_cores is Some {
            assert(reqs@[0] == ResourceType::RamMb(memory_mb->0));
            assert(reqs@[1] == ResourceType::CpuCores(cpu_cores->0 as u64));
        } else if memory_mb is Some {
            assert(reqs@[0] == ResourceType::RamMb(memory_mb->0));
        } else if cpu_cores is Some {
            assert(reqs@[0] == ResourceType::CpuCores(cpu_cores->0 as u64));
        }
    }
    Ok(JobManifest {
        id: job_id.to_owned(),
        wasm_module_cid: module,
        resource_requirements: reqs,
        parameters,
        owner: owner.to_owned(),
        deadline: None,
        federation_id: fed,
        max_compute_units: Some(1000),
        origin_coop_id: "default".to_owned(),
    })
}

/// A resource a node offers.
#[derive(Debug, Clone, Copy)]
pub struct NodeCapability {
    pub resource_type: ResourceType,
    pub available: bool,
}

/// A node of the mesh and what it offers.
#[derive(Debug)]
pub struct NodeInfo {
    pub node_id: String,
    pub capabilities: Vec<NodeCapability>,
    pub supported_features: Vec<String>,
}

fn capability(resource_type: ResourceType) -> (r: NodeCapability)
    ensures
        r.resource_type == resource_type,
        r.available,
{
    NodeCapability { resource_type, available: true }
}

/// The nodes the mesh commands show while no network is attached: three
/// sample nodes with their cores, memory, storage and features.
pub fn sample_nodes() -> (r: Vec<NodeInfo>)
    ensures
        r@.len() == 3,
        r@[0].node_id@ == "did:icn:node:12345"@,
        r@[0].capabilities@ == seq![capability_spec(ResourceType::CpuCores(4)),
            capability_spec(ResourceType::RamMb(2048)), capability_spec(ResourceType::StorageMb(512000))],
        texts(r@[0].supported_features@) == seq!["wasm"@, "sgx"@],
        r@[1].node_id@ == "did:icn:node:67890"@,
        r@[1].capabilities@ == seq![capability_spec(ResourceType::CpuCores(2)),
            capability_spec(ResourceType::RamMb(1024)), capability_spec(ResourceType::StorageMb(204800))],
        texts(r@[1].supported_features@) == seq!["wasm"@],
        r@[2].node_id@ == "did:icn:node:abcde"@,
        r@[2].capabilities@ == seq![capability_spec(ResourceType::CpuCores(8)),
            capability_spec(ResourceType::RamMb(4096)), capability_spec(ResourceType::StorageMb(1024000))],
        texts(r@[2].supported_features@) == seq!["wasm"@, "sgx"@, "gpu"@],
{
    let a = NodeInfo {
        node_id: "did:icn:node:12345".to_owned(),
        capabilities: vec![capability(ResourceType::CpuCores(4)), capability(ResourceType::RamMb(2048)),
            capability(ResourceType::StorageMb(500 * 1024))],
        supported_features: vec!["wasm".to_owned(), "sgx".to_owned()],
    };
    let b = NodeInfo {
        node_id: "did:icn:node:67890".to_owned(),
        capabilities: vec![capability(ResourceType::CpuCores(2)), capability(ResourceType::RamMb(1024)),
            capability(ResourceType::StorageMb(200 * 1024))],
        supported_features: vec!["wasm".to_owned()],
    };
    let c = NodeInfo {
        node_id: "did:icn:node:abcde".to_owned(),
        capabilities: vec![capability(ResourceType::CpuCores(8)), capability(ResourceType::RamMb(4096)),
            capability(ResourceType::StorageMb(1000 * 1024))],
        supported_features: vec!["wasm".to_owned(), "sgx".to_owned(), "gpu".to_owned()],
    };
    let r = vec![a, b, c];
    assert(texts(r@[0].supported_features@) == seq!["wasm"@, "sgx"@]);
    assert(texts(r@[1].supported_features@) == seq!["wasm"@]);
    assert(texts(r@[2].supported_features@) == seq!["wasm"@, "sgx"@, "gpu"@]);
    r
}

/// An available capability of the resource given.
pub open spec fn capability_spec(resource_type: ResourceType) -> NodeCapability {
    NodeCapability { resource_type, available: true }
}

/// The capability offers at least `m` megabytes of memory.
pub open spec fn ram_at_least(c: NodeCapability, m: u64) -> bool {
    c.resource_type matches ResourceType::RamMb(x) && x >= m
}

/// The capability offers at least `m` cores.
pub open spec fn cores_at_least(c: NodeCapability, m: u32) -> bool {
    c.resource_type matches ResourceType::CpuCores(x) && x >= m
}

/// Whether a node passes the list filters: enough memory and cores in some
/// capability, and, when a GPU is asked for, a `gpu` feature (in any case).
pub open spec fn node_passes(
    n: NodeInfo,
    min_memory: Option<u64>,
    min_cores: Option<u32>,
    has_resource: Option<Seq<char>>,
) -> bool {
    &&& (min_memory matches Some(m) ==> exists|i: int| 0 <= i < n.capabilities@.len()
        && ram_at_least(#[trigger] n.capabilities@[i], m))
    &&& (min_cores matches Some(c) ==> exists|i: int| 0 <= i < n.capabilities@.len()
        && cores_at_least(#[trigger] n.capabilities@[i], c))
    &&& (has_resource matches Some(res) && lowercase(res) == "gpu"@ ==> exists|i: int|
        0 <= i < n.supported_features@.len() && lowercase((#[trigger] n.supported_features@[i])@) == "gpu"@)
}

/// Whether a node passes the list filters.
pub fn passes_filters(n: &NodeInfo, min_memory: Option<u64>, min_cores: Option<u32>, has_resource: &Option<String>) -> (r: bool)
    ensures
        r == node_passes(*n, min_memory, min_cores, match has_resource { Some(s) => Some(s@), None => None }),
{
    if let Some(m) = min_memory {
        let mut found = false;
        let mut i: usize = 0;
        while i < n.capabilities.len()
            invariant
                i <= n.capabilities@.len(),
                found == exists|j: int| 0 <= j < i
                    && ram_at_least(#[trigger] n.capabilities@[j], m),
            decreases n.capabilities.len() - i,
        {
            if let ResourceType::RamMb(x) = n.capabilities[i].resource_type {
                if x >= m {
                    found = true;
                }
            }
            i = i + 1;
        }
        if !found {
            return false;
        }
    }
    if let Some(c) = min_cores {
        let mut found = false;
        let mut i: usize = 0;
        while i < n.capabilities.len()
            invariant
                i <= n.capabilities@.len(),
                found == exists|j: int| 0 <= j < i
                    && cores_at_least(#[trigger] n.capabilities@[j], c),
            decreases n.capabilities.len() - i,
        {
            if let ResourceType::CpuCores(x) = n.capabilities[i].resource_type {
                if x >= c as u64 {
                    found = true;
                }
            }
            i = i + 1;
        }
        if !found {
            return false;
        }
    }
    if let Some(res) = has_resource {
        let lower = to_lowercase(res.as_str());
        if str_eq(lower.as_str(), "gpu") {
            let mut found = false;
            let mut i: usize = 0;
            while i < n.supported_features.len()
                invariant
                    i <= n.supported_features@.len(),
                    found == exists|j: int| 0 <= j < i
                        && lowercase((#[trigger] n.supported_features@[j])@) == "gpu"@,
                decreases n.supported_features.len() - i,
            {
                let f = to_lowercase(n.supported_features[i].as_str());
                if str_eq(f.as_str(), "gpu") {
                    found = true;
                }
                i = i + 1;
            }
            if !found {
                return false;
            }
        }
    }
    true
}

/// The positions of the first `limit` nodes that pass the list filters.
pub fn list_nodes(
    nodes: &Vec<NodeInfo>,
    min_memory: Option<u64>,
    min_cores: Option<u32>,
    has_resource: &Option<String>,
    limit: usize,
) -> (r: Vec<usize>)
    ensures
        ({
            let res = match has_resource { Some(s) => Some(s@), None => None };
            &&& r@.len() <= limit
            &&& forall|a: int, b: int| 0 <= a < b < r@.len() ==> r@[a] < r@[b]
            &&& forall|a: int| #![trigger r@[a]] 0 <= a < r@.len() ==> r@[a] < nodes@.len()
                && node_passes(nodes@[r@[a] as int], min_memory, min_cores, res)
            &&& forall|i: int| 0 <= i < nodes@.len() && #[trigger] node_passes(nodes@[i], min_memory, min_cores, res)
                ==> r@.contains(i as usize) || (r@.len() == limit && forall|a: int| 0 <= a < r@.len() ==> r@[a] < i)
        }),
{
    let ghost res = match has_resource { Some(s) => Some(s@), None => None };
    let mut r: Vec<usize> = Vec::new();
    let mut i: usize = 0;
    while i < nodes.len() && r.len() < limit
        invariant
            i <= nodes@.len(),
            res == match has_resource { Some(s) => Some(s@), None => None },
            r@.len() <= limit,
            forall|a: int, b: int| 0 <= a < b < r@.len() ==> r@[a] < r@[b],
            forall|a: int| #![trigger r@[a]] 0 <= a < r@.len() ==> r@[a] < i
                && node_passes(nodes@[r@[a] as int], min_memory, min_cores, res),
            forall|k: int| 0 <= k < i && #[trigger] node_passes(nodes@[k], min_memory, min_cores, res)
                ==> r@.contains(k as usize),
        decreases nodes.len() - i,
    {
        let ghost old_r = r@;
        if passes_filters(&nodes[i], min_memory, min_cores, has_resource) {
            r.push(i);
            assert forall|a: int| #![trigger r@[a]] 0 <= a < r@.len() implies r@[a] < i + 1
                && node_passes(nodes@[r@[a] as int], min_memory, min_cores, res) by {
                if a < old_r.len() {
                    assert(r@[a] == old_r[a]);
                }
            }
            assert forall|a: int, b: int| 0 <= a < b < r@.len() implies r@[a] < r@[b] by {
                if b < old_r.len() {
                    assert(r@[a] == old_r[a] && r@[b] == old_r[b]);
                } else {
                    assert(r@[a] == old_r[a]);
                }
            }
        }
        assert forall|k: int| 0 <= k < i + 1 && #[trigger] node_passes(nodes@[k], min_memory, min_cores, res)
            implies r@.contains(k as usize) by {
            if k < i {
                assert(old_r.contains(k as usize));
                let w = choose|w: int| 0 <= w < old_r.len() && old_r[w] == k as usize;
                assert(r@[w] == old_r[w]);
            } else {
                assert(r@[r@.len() - 1] == i);
            }
        }
        i = i + 1;
    }
    assert forall|k: int| 0 <= k < nodes@.len() && #[trigger] node_passes(nodes@[k], min_memory, min_cores, res)
        implies r@.contains(k as usize) || (r@.len() == limit && forall|a: int| 0 <= a < r@.len() ==> r@[a] < k) by {
        if k >= i {
            assert(r@.len() == limit);
            assert forall|a: int| 0 <= a < r@.len() implies r@[a] < k by {
                assert(r@[a] < i);
            }
        }
    }
    r
}

/// How one capability is shown in the node list.
pub open spec fn capability_text(c: NodeCapability) -> Seq<char> {
    match c.resource_type {
        ResourceType::CpuCores(n) => decimal_digits(n as nat) + "c"@,
        ResourceType::RamMb(n) => decimal_digits(n as nat) + "MB"@,
        ResourceType::StorageMb(n) => decimal_digits(n as nat) + "MB storage"@,
        ResourceType::GpuCores(_) => "unknown"@,
    }
}

/// Shows one capability in the node list.
pub fn describe_capability(c: &NodeCapability) -> (r: String)
    ensures
        r@ == capability_text(*c),
{
    match c.resource_type {
        ResourceType::CpuCores(n) => decimal_text(n).concat("c"),
        ResourceType::RamMb(n) => decimal_text(n).concat("MB"),
        ResourceType::StorageMb(n) => decimal_text(n).concat("MB storage"),
        ResourceType::GpuCores(_) => "unknown".to_owned(),
    }
}

/// What a bid number means: a decimal number from 1 to the number of bids,
/// counted from one; the result counts from zero.
pub open spec fn bid_choice(bid_id: Seq<char>, n_bids: nat) -> Result<nat, Seq<char>> {
    match parse_unsigned(bid_id, usize::MAX as nat) {
        None => Err("Bid ID must be a number"@),
        Some(k) => if k == 0 || k > n_bids {
            Err("Invalid bid ID. Must be between 1 and "@ + decimal_digits(n_bids))
        } else {
            Ok((k - 1) as nat)
        },
    }
}

/// Reads the number of the bid to accept among `n_bids` bids.
pub fn select_bid_index(bid_id: &str, n_bids: usize) -> (r: Result<usize, MeshError>)
    ensures
        match bid_choice(bid_id@, n_bids as nat) {
            Ok(k) => r matches Ok(x) && x == k,
            Err(m) => mesh_failure(r, m),
        },
{
    let k = match parse_unsigned_decimal(bid_id, usize::MAX as u64) {
        Some(k) => k,
        None => {
            return Err(MeshError { message: "Bid ID must be a number".to_owned() });
        },
    };
    if k == 0 || k > n_bids as u64 {
        return Err(MeshError {
            message: "Invalid bid ID. Must be between 1 and ".to_owned()
                .concat(decimal_text(n_bids as u64).as_str()),
        });
    }
    Ok((k - 1) as usize)
}

/// The parts of a text between its colons.
pub open spec fn colon_parts(s: Seq<char>) -> Seq<Seq<char>>
    decreases s.len(),
{
    if s.len() == 0 {
        seq![Seq::empty()]
    } else {
        let before = colon_parts(s.drop_last());
        if s.last() == ':' {
            before.push(Seq::empty())
        } else {
            before.update(before.len() - 1, before.last().push(s.last()))
        }
    }
}

proof fn lemma_colon_parts_len(s: Seq<char>)
    ensures
        colon_parts(s).len() >= 1,
    decreases s.len(),
{
    if s.len() > 0 {
        lemma_colon_parts_len(s.drop_last());
    }
}

/// The key part of a `did:key` DID: its third colon-separated part, the
/// multibase key.
pub fn did_key_part(did: &str) -> (r: Result<String, MeshError>)
    ensures
        colon_parts(did@).len() >= 3 ==> (r matches Ok(k) && k@ == colon_parts(did@)[2]),
        colon_parts(did@).len() < 3 ==> mesh_failure(r, "Invalid DID format"@),
{
    let cv = chars_of(did);
    let mut parts: Vec<Vec<char>> = Vec::new();
    parts.push(Vec::new());
    let mut i: usize = 0;
    while i < cv.len()
        invariant
            cv@ == did@,
            i <= cv@.len(),
            parts@.len() >= 1,
            parts@.len() == colon_parts(cv@.subrange(0, i as int)).len(),
            forall|k: int| 0 <= k < parts@.len() ==> (#[trigger] parts@[k])@ == colon_parts(cv@.subrange(0, i as int))[k],
        decreases cv.len() - i,
    {
        let ghost before = colon_parts(cv@.subrange(0, i as int));
        assert(cv@.subrange(0, i + 1).drop_last() == cv@.subrange(0, i as int));
        assert(cv@.subrange(0, i + 1).last() == cv@[i as int]);
        let ghost old_parts = parts@;
        if cv[i] == ':' {
            parts.push(Vec::new());
            assert forall|k: int| 0 <= k < parts@.len() implies (#[trigger] parts@[k])@
                == colon_parts(cv@.subrange(0, i + 1))[k] by {
                if k < old_parts.len() {
                    assert(parts@[k] == old_parts[k]);
                }
            }
        } else {
            let last = parts.len() - 1;
            let mut cur = parts.pop().unwrap();
            cur.push(cv[i]);
            parts.push(cur);
            assert forall|k: int| 0 <= k < parts@.len() implies (#[trigger] parts@[k])@
                == colon_parts(cv@.subrange(0, i + 1))[k] by {
                if k < last {
                    assert(parts@[k] == old_parts[k]);
                }
            }
        }
        i = i + 1;
    }
    assert(cv@.subrange(0, cv@.len() as int) == did@);
    if parts.len() < 3 {
        return Err(MeshError { message: "Invalid DID format".to_owned() });
    }
    let p = &parts[2];
    Ok(string_from_chars(p, 0, p.len()))
}

/// The Ed25519 key an `ed25519-pub` multicodec value holds: the bytes after
/// the prefix `0xed 0x01`, which must be 32 and form a valid key.
pub open spec fn multicodec_key(decoded: Seq<u8>) -> Result<Seq<u8>, Seq<char>> {
    if !(decoded[0] == 0xedu8 && decoded[1] == 0x01u8) {
        Err("Unsupported key type"@)
    } else if decoded.len() != 34 {
        Err("Invalid public key"@)
    } else {
        match crate::keys::ed25519_key_refusal(decoded.subrange(2, 34)) {
            Some(e) => Err("Invalid public key: "@ + e),
            None => Ok(decoded.subrange(2, 34)),
        }
    }
}

/// Reads the Ed25519 public key out of a decoded multicodec value of at least two bytes.
pub fn ed25519_key_from_multicodec(decoded: &Vec<u8>) -> (r: Result<[u8; 32], MeshError>)
    requires
        decoded@.len() >= 2,
    ensures
        match multicodec_key(decoded@) {
            Ok(k) => r matches Ok(b) && b@ == k,
            Err(m) => mesh_failure(r, m),
        },
{
    if !(decoded[0] == 0xed && decoded[1] == 0x01) {
        return Err(MeshError { message: "Unsupported key type".to_owned() });
    }
    if decoded.len() != 34 {
        return Err(MeshError { message: "Invalid public key".to_owned() });
    }
    let mut bytes = [0u8; 32];
    let mut i: usize = 0;
    while i < 32
        invariant
            decoded@.len() == 34,
            bytes@.len() == 32,
            i <= 32,
            forall|j: int| 0 <= j < i ==> bytes@[j] == decoded@[j + 2],
        decreases 32 - i,
    {
        bytes[i] = decoded[i + 2];
        i = i + 1;
    }
    assert(bytes@ == decoded@.subrange(2, 34));
    match crate::keys::check_verifying_key(&bytes) {
        Some(e) => Err(MeshError { message: "Invalid public key: ".to_owned().concat(e.as_str()) }),
        None => Ok(bytes),
    }
}

/// Arguments for getting bids for a job.
#[derive(Debug)]
pub struct GetBidsArgs {
    /// The job ID (or CID) to get bids for
    pub job_id: String,

    /// Maximum number of bids to return
    pub limit: usize,

    /// Sort bids by price, score, or time
    pub sort_by: String,
}

/// Arguments for selecting a bid.
#[derive(Debug)]
pub struct SelectBidArgs {
    /// The job ID (or CID)
    pub job_id: String,

    /// The bid ID to accept
    pub bid_id: String,

    /// Path to key file for signing the bid selection
    pub key_path: String,
}

/// Arguments for list-nodes command.
#[derive(Debug)]
pub struct ListNodesArgs {
    /// Filter by specific resource capability
    pub has_resource: Option<String>,

    /// Filter by minimum memory requirement (in MB)
    pub min_memory: Option<u64>,

    /// Filter by minimum CPU cores
    pub min_cores: Option<u32>,

    /// Filter by federation ID
    pub federation_id: Option<String>,

    /// Maximum number of nodes to display
    pub limit: usize,
}

/// Arguments for job-status command.
#[derive(Debug)]
pub struct JobStatusArgs {
    /// The Job ID to check status for
    pub job_id: String,
}

/// Arguments for advertise-capability command.
#[derive(Debug)]
pub struct AdvertiseCapabilityArgs {
    /// Path to capability manifest file
    pub manifest_path: Option<String>,

    /// Available memory in MB
    pub memory_mb: Option<u64>,

    /// Available CPU cores
    pub cpu_cores: Option<u32>,

    /// Path to key file for signing the capability advertisement
    pub key_path: String,
}

/// Struct for verify-receipt command arguments
#[derive(Debug)]
pub struct VerifyReceiptArgs {
    /// The receipt CID to verify
    pub receipt_cid: String,
}

/// Arguments for check-balance command.
#[derive(Debug)]
pub struct CheckBalanceArgs {
    /// Path to key file to check balance for
    pub key_path: String,

    /// Federation ID to check balance in
    pub federation_id: Option<String>,
}

/// Arguments for the submit-job command.
#[derive(Debug)]
pub struct SubmitJobArgs {
    /// Path to the job manifest file (TOML or JSON format)
    pub manifest_path: Option<String>,

    /// Inline WASM module CID (Content Identifier)
    pub wasm_module_cid: Option<String>,

    /// Memory requirement in MB
    pub memory_mb: Option<u64>,

    /// CPU cores requirement
    pub cpu_cores: Option<u32>,

    /// Path to key file for signing the job submission
    pub key_path: String,

    /// Federation ID to submit the job to (optional)
    pub federation_id: Option<String>,

    /// Additional parameters as JSON string
    pub params: Option<String>,
}

/// What checking a signed job manifest gives: whether the signature holds for
/// the manifest's bytes under the key of the signer's `did:key`, or why it
/// could not be checked; nothing where the signer's key decodes to fewer than
/// two bytes.
pub open spec fn manifest_verdict(manifest: Seq<u8>, signature: Seq<char>, did: Seq<char>) -> Option<Result<bool, Seq<char>>> {
    let parts = colon_parts(did);
    if parts.len() < 3 {
        Some(Err("Invalid DID format"@))
    } else {
        match crate::keys::multibase_reading(parts[2]) {
            Err(e) => Some(Err("Failed to decode key part: "@ + e)),
            Ok(decoded) => match crate::keys::base64_reading(signature) {
                Err(e) => Some(Err("Failed to decode signature: "@ + e)),
                Ok(sig) => if sig.len() != 64 {
                    Some(Err("Invalid signature format"@))
                } else if decoded.len() < 2 {
                    None
                } else {
                    match multicodec_key(decoded) {
                        Err(m) => Some(Err(m)),
                        Ok(k) => Some(Ok(crate::bundle::ed25519_accepts(k, manifest, sig))),
                    }
                },
            },
        }
    }
}

/// The decoded key and signature of a signed manifest, or why they could not be read.
enum ManifestParts {
    Parts(Vec<u8>, [u8; 64]),
    Failed(MeshError),
}

fn manifest_parts(signature: &str, signer_did: &str) -> (r: ManifestParts)
    ensures
        ({
            let parts = colon_parts(signer_did@);
            match r {
                ManifestParts::Parts(decoded, sig) => parts.len() >= 3
                    && crate::keys::multibase_reading(parts[2]) == Ok::<Seq<u8>, Seq<char>>(decoded@)
                    && crate::keys::base64_reading(signature@) == Ok::<Seq<u8>, Seq<char>>(sig@),
                ManifestParts::Failed(e) => manifest_verdict(Seq::empty(), signature@, signer_did@)
                    == Some(Err::<bool, Seq<char>>(e.message@)),
            }
        }),
{
    let key_part = match did_key_part(signer_did) {
        Ok(k) => k,
        Err(e) => {
            return ManifestParts::Failed(e);
        },
    };
    let decoded = match crate::keys::multibase_decode(key_part.as_str()) {
        Ok(d) => d,
        Err(e) => {
            return ManifestParts::Failed(MeshError { message: "Failed to decode key part: ".to_owned().concat(e.as_str()) });
        },
    };
    let sig_bytes = match crate::keys::base64_decode(signature) {
        Ok(b) => b,
        Err(e) => {
            return ManifestParts::Failed(MeshError { message: "Failed to decode signature: ".to_owned().concat(e.as_str()) });
        },
    };
    match crate::bundle::to_signature_bytes(sig_bytes.as_slice()) {
        Ok(sig) => ManifestParts::Parts(decoded, sig),
        Err(_) => ManifestParts::Failed(MeshError { message: "Invalid signature format".to_owned() }),
    }
}

/// Checks a signed job manifest: the signature (base64) over the manifest's
/// bytes, under the Ed25519 key that the signer's `did:key` names in its
/// third part. `Ok(false)` is a signature that does not hold; an error says
/// why the check could not be made.
pub fn verify_signed_manifest(manifest: &[u8], signature: &str, signer_did: &str) -> (r: Result<bool, MeshError>)
    requires
        manifest_verdict(manifest@, signature@, signer_did@) is Some,
    ensures
        match manifest_verdict(manifest@, signature@, signer_did@) {
            Some(Ok(b)) => r == Ok::<bool, MeshError>(b),
            Some(Err(m)) => mesh_failure(r, m),
            None => false,
        },
{
    match manifest_parts(signature, signer_did) {
        ManifestParts::Failed(e) => Err(e),
        ManifestParts::Parts(decoded, sig) => {
            let key = ed25519_key_from_multicodec(&decoded)?;
            Ok(crate::bundle::ed25519_verify(&key, manifest, &sig))
        },
    }
}

/// Checks a signed job manifest as `verify_signed_manifest` does, or gives
/// nothing where the signer's key decodes to fewer than two bytes.
pub fn check_signed_manifest(manifest: &[u8], signature: &str, signer_did: &str) -> (r: Option<Result<bool, MeshError>>)
    ensures
        r is None <==> manifest_verdict(manifest@, signature@, signer_did@) is None,
        r matches Some(x) ==> match manifest_verdict(manifest@, signature@, signer_did@) {
            Some(Ok(b)) => x == Ok::<bool, MeshError>(b),
            Some(Err(m)) => mesh_failure(x, m),
            None => false,
        },
{
    match manifest_parts(signature, signer_did) {
        ManifestParts::Parts(decoded, _) => {
            if decoded.len() < 2 {
                return None;
            }
        },
        ManifestParts::Failed(_) => {},
    }
    Some(verify_signed_manifest(manifest, signature, signer_did))
}

/// Whether a job reference is a content identifier rather than a job id: it
/// starts with `bafy` or `Qm`.
pub fn names_content(job_id: &str) -> (r: bool)
    ensures
        r == (crate::text::has_prefix(job_id@, "bafy"@) || crate::text::has_prefix(job_id@, "Qm"@)),
{
    crate::text::starts_with(job_id, "bafy") || crate::text::starts_with(job_id, "Qm")
}

/// A bid offered on a job; when it was made is the caller's to record.
#[derive(Debug)]
pub struct BidDetails {
    pub bidder_did: String,
    pub bid_cid: String,
    pub price: u64,
    /// Offered latency in milliseconds.
    pub latency: Option<u64>,
    /// Available memory in MB.
    pub memory: u64,
    pub cores: u64,
    pub reputation: Option<u8>,
    /// Share of renewable energy, in percent.
    pub renewable: Option<u8>,
    pub comment: Option<String>,
}

/// A number followed by its unit, or `N/A`.
pub open spec fn opt_cell(v: Option<nat>, unit: Seq<char>) -> Seq<char> {
    match v {
        Some(n) => crate::text::decimal_digits(n) + unit,
        None => "N/A"@,
    }
}

/// The cells of a bid's row: price, latency, memory, cores, reputation,
/// renewable share and bidder.
pub open spec fn bid_row(b: BidDetails) -> Seq<Seq<char>> {
    seq![
        crate::text::decimal_digits(b.price as nat) + " COMPUTE"@,
        opt_cell(match b.latency { Some(l) => Some(l as nat), None => None }, "ms"@),
        crate::text::decimal_digits(b.memory as nat) + "MB"@,
        crate::text::decimal_digits(b.cores as nat),
        opt_cell(match b.reputation { Some(x) => Some(x as nat), None => None }, "%"@),
        opt_cell(match b.renewable { Some(x) => Some(x as nat), None => None }, "%"@),
        b.bidder_did@,
    ]
}

fn opt_cell_text(v: Option<u64>, unit: &str) -> (r: String)
    ensures
        r@ == opt_cell(match v { Some(n) => Some(n as nat), None => None }, unit@),
{
    match v {
        Some(n) => crate::text::decimal_text(n).concat(unit),
        None => "N/A".to_owned(),
    }
}

/// The cells of a bid's row in the bid listing.
pub fn bid_cells(b: &BidDetails) -> (r: Vec<String>)
    ensures
        crate::text::texts(r@) == bid_row(*b),
{
    let reputation: Option<u64> = match b.reputation {
        Some(x) => Some(x as u64),
        None => None,
    };
    let renewable: Option<u64> = match b.renewable {
        Some(x) => Some(x as u64),
        None => None,
    };
    let mut r: Vec<String> = Vec::new();
    r.push(crate::text::decimal_text(b.price).concat(" COMPUTE"));
    r.push(opt_cell_text(b.latency, "ms"));
    r.push(crate::text::decimal_text(b.memory).concat("MB"));
    r.push(crate::text::decimal_text(b.cores));
    r.push(opt_cell_text(reputation, "%"));
    r.push(opt_cell_text(renewable, "%"));
    r.push(b.bidder_did.clone());
    assert(crate::text::texts(r@) == bid_row(*b));
    r
}

fn bid(
    bidder_did: &str, bid_cid: &str, price: u64, latency: u64, memory: u64, cores: u64, reputation: u8,
    renewable: u8, comment: &str,
) -> (r: BidDetails)
    ensures
        r.bidder_did@ == bidder_did@ && r.bid_cid@ == bid_cid@ && r.price == price
            && r.latency == Some(latency) && r.memory == memory && r.cores == cores
            && r.reputation == Some(reputation) && r.renewable == Some(renewable)
            && (r.comment matches Some(c) && c@ == comment@),
{
    BidDetails {
        bidder_did: bidder_did.to_owned(),
        bid_cid: bid_cid.to_owned(),
        price,
        latency: Some(latency),
        memory,
        cores,
        reputation: Some(reputation),
        renewable: Some(renewable),
        comment: Some(comment.to_owned()),
    }
}

/// The bids the mesh commands show while no network is attached.
pub fn sample_bids() -> (r: Vec<BidDetails>)
    ensures
        r@.len() == 3,
        r@[0].bidder_did@ == "did:icn:node:12345"@ && r@[0].price == 100 && r@[0].latency == Some(50u64)
            && r@[0].memory == 2048 && r@[0].cores == 4 && r@[0].reputation == Some(95u8)
            && r@[0].renewable == Some(80u8)
            && r@[0].bid_cid@ == "bafybeihykld7uyxzogax6vgyvag42y7464eywpf55hnrwvgzxwvjmnx7fy"@
            && (r@[0].comment matches Some(c) && c@ == "High performance node with green energy"@),
        r@[1].bidder_did@ == "did:icn:node:67890"@ && r@[1].price == 80 && r@[1].latency == Some(100u64)
            && r@[1].memory == 1024 && r@[1].cores == 2 && r@[1].reputation == Some(85u8)
            && r@[1].renewable == Some(30u8)
            && r@[1].bid_cid@ == "bafybeigdyrzt5sfp7udm7hu76uh7y26nf3efuylqabf3oclgtqy55fbzdi"@
            && (r@[1].comment matches Some(c) && c@ == "Budget-friendly option"@),
        r@[2].bidder_did@ == "did:icn:node:abcde"@ && r@[2].price == 150 && r@[2].latency == Some(30u64)
            && r@[2].memory == 4096 && r@[2].cores == 8 && r@[2].reputation == Some(98u8)
            && r@[2].renewable == Some(100u8)
            && r@[2].bid_cid@ == "bafybeihdwdcefgh4dfw4ls5fhwrvqxt225tczacdwvqxtdxgpqr3efghij"@
            && (r@[2].comment matches Some(c) && c@ == "Premium node with 100% renewable energy"@),
{
    let mut r: Vec<BidDetails> = Vec::new();
    r.push(bid("did:icn:node:12345", "bafybeihykld7uyxzogax6vgyvag42y7464eywpf55hnrwvgzxwvjmnx7fy", 100, 50, 2048, 4,
        95, 80, "High performance node with green energy"));
    r.push(bid("did:icn:node:67890", "bafybeigdyrzt5sfp7udm7hu76uh7y26nf3efuylqabf3oclgtqy55fbzdi", 80, 100, 1024, 2,
        85, 30, "Budget-friendly option"));
    r.push(bid("did:icn:node:abcde", "bafybeihdwdcefgh4dfw4ls5fhwrvqxt225tczacdwvqxtdxgpqr3efghij", 150, 30, 4096, 8,
        98, 100, "Premium node with 100% renewable energy"));
    r
}

/// A job manifest's bytes with its signature (base64) and its signer's DID.
#[derive(Debug)]
pub struct SignedJob {
    pub manifest: Vec<u8>,
    pub signature: String,
    pub signer: String,
}

/// Signs a job manifest's bytes with a 32-byte Ed25519 secret key and records
/// the signature in base64 under the given signer; a key of another length is
/// refused.
pub fn sign_job_manifest(manifest: &Vec<u8>, private_key: &[u8], signer_did: &str) -> (r: Result<SignedJob, MeshError>)
    ensures
        private_key@.len() == 32 <==> r is Ok,
        r matches Ok(j) ==> j.manifest@ == manifest@ && j.signer@ == signer_did@
            && j.signature@ == crate::keys::base64_text(crate::keys::ed25519_signature(private_key@, manifest@)),
        private_key@.len() != 32 ==> mesh_failure(r,
            "Expected 32 bytes for ed25519 key, got "@ + decimal_digits(private_key@.len())),
{
    let key = to_32_bytes(private_key)?;
    let sig = crate::keys::ed25519_sign(&key, manifest.as_slice());
    let signature = crate::keys::base64_encode(sig.as_slice());
    Ok(SignedJob { manifest: copy_bytes(manifest), signature, signer: signer_did.to_owned() })
}

fn copy_bytes(v: &Vec<u8>) -> (r: Vec<u8>)
    ensures
        r@ == v@,
{
    let mut r: Vec<u8> = Vec::new();
    let mut i: usize = 0;
    while i < v.len()
        invariant
            i <= v@.len(),
            r@ == v@.subrange(0, i as int),
        decreases v.len() - i,
    {
        r.push(v[i]);
        i = i + 1;
        assert(r@ == v@.subrange(0, i as int));
    }
    assert(v@.subrange(0, v@.len() as int) == v@);
    r
}

/// The `did:key` DID of an Ed25519 public key: `did:key:` and, in multibase
/// base58btc, the `ed25519-pub` multicodec prefix `0xed 0x01` then the key.
pub open spec fn ed25519_did_key(public_key: Seq<u8>) -> Seq<char> {
    "did:key:"@ + crate::keys::base58btc_text(seq![0xedu8, 0x01u8] + public_key)
}

proof fn lemma_colon_parts_append(p: Seq<char>, t: Seq<char>)
    requires
        forall|i: int| 0 <= i < t.len() ==> t[i] != ':',
    ensures
        colon_parts(p + t) == colon_parts(p).update(colon_parts(p).len() - 1, colon_parts(p).last() + t),
    decreases t.len(),
{
    lemma_colon_parts_len(p);
    if t.len() == 0 {
        assert(p + t == p);
        assert(colon_parts(p).last() + t == colon_parts(p).last());
        assert(colon_parts(p).update(colon_parts(p).len() - 1, colon_parts(p).last()) == colon_parts(p));
    } else {
        lemma_colon_parts_append(p, t.drop_last());
        assert((p + t).drop_last() == p + t.drop_last());
        assert((p + t).last() == t.last());
        assert(colon_parts(p).last() + t == (colon_parts(p).last() + t.drop_last()).push(t.last()));
    }
}

/// Signs a job manifest under the `did:key` DID of the signing key. What is
/// signed so verifies: checking the signed manifest accepts it.
pub fn sign_job_submission(secret: &[u8; 32], manifest: &Vec<u8>) -> (r: SignedJob)
    ensures
        r.manifest@ == manifest@,
        r.signature@ == crate::keys::base64_text(crate::keys::ed25519_signature(secret@, manifest@)),
        r.signer@ == ed25519_did_key(crate::keys::ed25519_public(secret@)),
        manifest_verdict(r.manifest@, r.signature@, r.signer@) == Some(Ok::<bool, Seq<char>>(true)),
{
    let public = crate::keys::ed25519_public_key(secret);
    let mut bytes: Vec<u8> = Vec::new();
    bytes.push(0xed);
    bytes.push(0x01);
    let mut i: usize = 0;
    while i < 32
        invariant
            i <= 32,
            public@.len() == 32,
            bytes@ == seq![0xedu8, 0x01u8] + public@.subrange(0, i as int),
        decreases 32 - i,
    {
        bytes.push(public[i]);
        i = i + 1;
        assert(bytes@ == seq![0xedu8, 0x01u8] + public@.subrange(0, i as int));
    }
    assert(public@.subrange(0, 32) == public@);
    let key_text = crate::keys::multibase_encode_base58btc(bytes.as_slice());
    let signer = "did:key:".to_owned().concat(key_text.as_str());
    let sig = crate::keys::ed25519_sign(secret, manifest.as_slice());
    let signature = crate::keys::base64_encode(sig.as_slice());
    let r = SignedJob { manifest: copy_bytes(manifest), signature, signer };
    proof {
        reveal_strlit("did:key:");
        reveal_with_fuel(colon_parts, 9);
        let pre = "did:key:"@;
        assert(pre.len() == 8);
        assert(pre.subrange(0, 3) == "did"@) by { reveal_strlit("did"); }
        assert(colon_parts(pre) == seq!["did"@, "key"@, Seq::<char>::empty()]) by {
            reveal_strlit("did");
            reveal_strlit("key");
            assert(pre.drop_last() == pre.subrange(0, 7));
            assert(colon_parts(pre.subrange(0, 0)) == seq![Seq::<char>::empty()]);
            assert(colon_parts(pre.subrange(0, 1)) == seq![seq!['d']]) by {
                assert(pre.subrange(0, 1).drop_last() == pre.subrange(0, 0));
            }
            assert(colon_parts(pre.subrange(0, 2)) == seq![seq!['d', 'i']]) by {
                assert(pre.subrange(0, 2).drop_last() == pre.subrange(0, 1));
                assert(seq!['d'].push('i') =~= seq!['d', 'i']);
                assert(seq![seq!['d']].update(0, seq!['d'].push('i')) =~= seq![seq!['d', 'i']]);
            }
            assert(colon_parts(pre.subrange(0, 3)) == seq![seq!['d', 'i', 'd']]) by {
                assert(pre.subrange(0, 3).drop_last() == pre.subrange(0, 2));
                assert(seq!['d', 'i'].push('d') =~= seq!['d', 'i', 'd']);
                assert(seq![seq!['d', 'i']].update(0, seq!['d', 'i'].push('d')) =~= seq![seq!['d', 'i', 'd']]);
            }
            assert(colon_parts(pre.subrange(0, 4)) == seq![seq!['d', 'i', 'd'], Seq::<char>::empty()]) by {
                assert(pre.subrange(0, 4).drop_last() == pre.subrange(0, 3));
            }
            assert(colon_parts(pre.subrange(0, 5)) == seq![seq!['d', 'i', 'd'], seq!['k']]) by {
                assert(pre.subrange(0, 5).drop_last() == pre.subrange(0, 4));
            }
            assert(colon_parts(pre.subrange(0, 6)) == seq![seq!['d', 'i', 'd'], seq!['k', 'e']]) by {
                assert(pre.subrange(0, 6).drop_last() == pre.subrange(0, 5));
                assert(seq!['k'].push('e') =~= seq!['k', 'e']);
                assert(seq![seq!['d', 'i', 'd'], seq!['k']].update(1, seq!['k'].push('e'))
                    =~= seq![seq!['d', 'i', 'd'], seq!['k', 'e']]);
            }
            assert(colon_parts(pre.subrange(0, 7)) == seq![seq!['d', 'i', 'd'], seq!['k', 'e', 'y']]) by {
                assert(pre.subrange(0, 7).drop_last() == pre.subrange(0, 6));
                assert(seq!['k', 'e'].push('y') =~= seq!['k', 'e', 'y']);
                assert(seq![seq!['d', 'i', 'd'], seq!['k', 'e']].update(1, seq!['k', 'e'].push('y'))
                    =~= seq![seq!['d', 'i', 'd'], seq!['k', 'e', 'y']]);
            }
            assert(pre.subrange(0, 8) == pre);
            assert(seq!['d', 'i', 'd'] == "did"@);
            assert(seq!['k', 'e', 'y'] == "key"@);
        }
        lemma_colon_parts_append(pre, key_text@);
        let parts = colon_parts(r.signer@);
        assert(parts.len() == 3);
        assert(parts[2] == key_text@);
        let decoded = bytes@;
        assert(decoded[0] == 0xedu8 && decoded[1] == 0x01u8 && decoded.len() == 34);
        assert(decoded.subrange(2, 34) == public@);
        assert(multicodec_key(decoded) == Ok::<Seq<u8>, Seq<char>>(public@));
    }
    r
}


/// The acceptance of a bid on a job, signed by the requester.
#[derive(Debug)]
pub struct BidAcceptance {
    pub job_id: String,
    /// The bid's number, counted from one.
    pub bid_index: u64,
    pub bidder_did: String,
    pub price: u64,
    /// When the bid was accepted, as RFC 3339 text.
    pub timestamp: String,
    /// The base64 text of the Ed25519 signature over the acceptance's JSON text.
    pub signature: String,
}

/// The JSON text of an acceptance, as signed: its fields in declaration order,
/// compact, each string written as `serde_json` writes one.
pub open spec fn acceptance_text(a: BidAcceptance) -> Seq<char> {
    "{\"job_id\":"@ + crate::json::json_written(JsonValue::Str(a.job_id))
        + ",\"bid_index\":"@ + decimal_digits(a.bid_index as nat)
        + ",\"bidder_did\":"@ + crate::json::json_written(JsonValue::Str(a.bidder_did))
        + ",\"price\":"@ + decimal_digits(a.price as nat)
        + ",\"timestamp\":"@ + crate::json::json_written(JsonValue::Str(a.timestamp)) + "}"@
}

fn quoted(s: &String) -> (r: String)
    ensures
        r@ == crate::json::json_written(JsonValue::Str(*s)),
{
    crate::json::json_text(&JsonValue::Str(s.clone()))
}

/// Accepts bid number `bid_id` (counted from one) among `bids` for a job: the
/// acceptance names the job, the bid's number, bidder and price, and the time
/// given, and is signed with the requester's secret key.
pub fn accept_bid(
    secret: &[u8; 32],
    job_id: &str,
    bid_id: &str,
    bids: &Vec<BidDetails>,
    timestamp: &str,
) -> (r: Result<BidAcceptance, MeshError>)
    ensures
        match bid_choice(bid_id@, bids@.len()) {
            Err(m) => mesh_failure(r, m),
            Ok(k) => r matches Ok(a)
                && a.job_id@ == job_id@
                && a.bid_index == k + 1
                && a.bidder_did@ == bids@[k as int].bidder_did@
                && a.price == bids@[k as int].price
                && a.timestamp@ == timestamp@
                && a.signature@ == crate::keys::base64_text(
                    crate::keys::ed25519_signature(secret@, encode_utf8(acceptance_text(a)))),
        },
{
    let k = select_bid_index(bid_id, bids.len())?;
    let bid = &bids[k];
    let job = job_id.to_owned();
    let bidder = bid.bidder_did.clone();
    let time = timestamp.to_owned();
    let index: u64 = (k + 1) as u64;
    let text = "{\"job_id\":".to_owned()
        .concat(quoted(&job).as_str())
        .concat(",\"bid_index\":")
        .concat(decimal_text(index).as_str())
        .concat(",\"bidder_did\":")
        .concat(quoted(&bidder).as_str())
        .concat(",\"price\":")
        .concat(decimal_text(bid.price).as_str())
        .concat(",\"timestamp\":")
        .concat(quoted(&time).as_str())
        .concat("}");
    let sig = crate::keys::ed25519_sign(secret, text.as_str().as_bytes());
    let signature = crate::keys::base64_encode(sig.as_slice());
    let a = BidAcceptance { job_id: job, bid_index: index, bidder_did: bidder, price: bid.price, timestamp: time, signature };
    proof {
        reveal_strlit("{\"job_id\":");
        reveal_strlit(",\"bid_index\":");
        reveal_strlit(",\"bidder_did\":");
        reveal_strlit(",\"price\":");
        reveal_strlit(",\"timestamp\":");
        reveal_strlit("}");
        assert(text@ == acceptance_text(a));
    }
    Ok(a)
}

} // verus!
