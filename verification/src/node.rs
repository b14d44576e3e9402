//! The federation node: its configuration and the services it starts.
use vstd::prelude::*;

verus! {

/// What the node reads of a federation's metadata.
#[derive(Debug)]
pub struct FederationMetadataPlaceholder {
    pub name: String,
}

/// A federation's configuration.
#[derive(Debug)]
pub struct FederationConfig {
    pub metadata: FederationMetadataPlaceholder,
}

/// The node's command-line arguments.
#[derive(Debug)]
pub struct CliArgs {
    pub config_path: String,
}

/// Where the node looks for its configuration when none is named.
pub fn default_config_path() -> (r: String)
    ensures
        r@ == "federation_icn.toml"@,
{
    "federation_icn.toml".to_owned()
}

/// Starts a federation node from the configuration named here.
#[derive(Debug, Clone)]
pub struct StartCommand {
    /// Path to federation config
    pub config_path: String,
}

/// Loads a federation configuration; the configuration format is not read
/// yet, and every path yields the federation named `dummy`.
pub fn load_federation_config(path: &str) -> (r: FederationConfig)
    ensures
        r.metadata.name@ == "dummy"@,
{
    FederationConfig { metadata: FederationMetadataPlaceholder { name: "dummy".to_owned() } }
}

/// The DAG store a node keeps.
pub trait DagStore {}

/// A DAG store that keeps nothing.
#[derive(Debug)]
pub struct DummyDagStore;

impl DagStore for DummyDagStore {}

/// The runtime service a node runs.
pub trait RuntimeService {}

/// A runtime service that runs nothing.
#[derive(Debug)]
pub struct DummyRuntimeService;

impl RuntimeService for DummyRuntimeService {}

/// The API service a node serves.
pub trait ApiService {}

/// An API service that serves nothing.
#[derive(Debug)]
pub struct DummyApiService;

impl ApiService for DummyApiService {}

/// The network service a node connects.
pub trait NetworkService {}

/// A network service that connects nowhere.
#[derive(Debug)]
pub struct DummyNetworkService;

impl NetworkService for DummyNetworkService {}

} // verus!
