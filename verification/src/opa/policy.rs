//! Typed sandbox policies as plain values.

use crate::json::JsonValue;
use vstd::prelude::*;

verus! {

/// Kind of an input/output error, as the operating system reports it.
#[derive(Debug, Clone, Copy, PartialEq, Eq, Structural)]
pub enum IoErrorKind {
    NotFound,
    PermissionDenied,
    ConnectionRefused,
    ConnectionReset,
    HostUnreachable,
    NetworkUnreachable,
    ConnectionAborted,
    NotConnected,
    AddrInUse,
    AddrNotAvailable,
    NetworkDown,
    BrokenPipe,
    AlreadyExists,
    WouldBlock,
    NotADirectory,
    IsADirectory,
    DirectoryNotEmpty,
    ReadOnlyFilesystem,
    FilesystemLoop,
    StaleNetworkFileHandle,
    InvalidInput,
    InvalidData,
    TimedOut,
    WriteZero,
    StorageFull,
    NotSeekable,
    QuotaExceeded,
    FileTooLarge,
    ResourceBusy,
    ExecutableFileBusy,
    Deadlock,
    CrossesDevices,
    TooManyLinks,
    InvalidFilename,
    ArgumentListTooLong,
    Interrupted,
    Unsupported,
    UnexpectedEof,
    OutOfMemory,
    Other,
    /// A kind that has no name.
    Uncategorized,
}

/// What became of the resolution of a policy binary path.
#[derive(Debug, PartialEq, Eq)]
pub enum BinaryResolution {
    /// The path is a symlink to a different target, which joins the policy.
    Resolved(String),
    /// Nothing to add: a glob, no process, no symlink, or canonical already.
    Literal,
    /// The candidate is absent under an accessible process root.
    Absent,
    /// The process root itself is unreachable.
    Inaccessible(IoErrorKind),
    /// The process root is reachable and the candidate path failed otherwise
    /// than by being absent.
    CandidateInaccessible(IoErrorKind),
    /// A part of a symlink chain failed to resolve.
    ChainBroken(IoErrorKind),
}

/// Filesystem section of a policy.
#[derive(Debug)]
pub struct FilesystemSection {
    pub include_workdir: bool,
    pub read_only: Vec<String>,
    pub read_write: Vec<String>,
}

/// Landlock section of a policy.
#[derive(Debug)]
pub struct LandlockSection {
    pub compatibility: String,
}

/// Process section of a policy.
#[derive(Debug)]
pub struct ProcessSection {
    pub run_as_user: String,
    pub run_as_group: String,
}

/// Matcher of one query or params value.
#[derive(Debug)]
pub struct L7QueryMatcher {
    pub glob: String,
    pub any: Vec<String>,
}

/// What an allow or deny rule selects. Empty texts and lists select nothing.
#[derive(Debug)]
pub struct L7Selector {
    pub method: String,
    pub path: String,
    pub command: String,
    pub operation_type: String,
    pub operation_name: String,
    pub fields: Vec<String>,
    pub query: Vec<(String, L7QueryMatcher)>,
    pub params: Vec<(String, L7QueryMatcher)>,
}

/// An allow rule.
#[derive(Debug)]
pub struct L7Rule {
    pub allow: Option<L7Selector>,
}

/// A persisted GraphQL operation.
#[derive(Debug)]
pub struct GraphqlOperation {
    pub operation_type: String,
    pub operation_name: String,
    pub fields: Vec<String>,
}

/// MCP options of an endpoint.
#[derive(Debug)]
pub struct McpOptions {
    pub versions: Vec<String>,
    pub strict_tool_names: Option<bool>,
    pub allow_all_known_mcp_methods: Option<bool>,
}

/// One network endpoint of a policy.
#[derive(Debug)]
pub struct NetworkEndpoint {
    pub host: String,
    pub port: u32,
    pub ports: Vec<u32>,
    pub path: String,
    pub protocol: String,
    pub tls: String,
    pub enforcement: String,
    pub access: String,
    pub rules: Vec<L7Rule>,
    pub allowed_ips: Vec<String>,
    pub advisor_proposed: bool,
    pub deny_rules: Vec<L7Selector>,
    pub allow_encoded_slash: bool,
    pub websocket_credential_rewrite: bool,
    pub request_body_credential_rewrite: bool,
    pub allow_uninspected_credentials: bool,
    pub provider_credentialed: bool,
    /// The identity of an MCP endpoint; other endpoints have none.
    pub endpoint_id: Option<String>,
    pub credential_signing: String,
    pub signing_service: String,
    pub signing_region: String,
    /// The provider that the endpoint's credential is bound to, if it is.
    pub credential_provider: Option<String>,
    pub persisted_queries: String,
    pub graphql_persisted_queries: Vec<(String, GraphqlOperation)>,
    pub graphql_max_body_bytes: u32,
    pub json_rpc_max_body_bytes: u32,
    pub mcp: Option<McpOptions>,
}

/// A binary that a network policy names, with the outcome of its resolution.
#[derive(Debug)]
pub struct NetworkBinary {
    pub path: String,
    pub resolution: BinaryResolution,
}

/// One network policy.
#[derive(Debug)]
pub struct NetworkPolicyRule {
    pub name: String,
    pub endpoints: Vec<NetworkEndpoint>,
    pub binaries: Vec<NetworkBinary>,
}

/// The hosts that a middleware is selected for.
#[derive(Debug)]
pub struct EndpointSelector {
    pub included: Vec<String>,
    pub excluded: Vec<String>,
}

/// One network middleware of a policy.
#[derive(Debug)]
pub struct NetworkMiddleware {
    pub middleware: String,
    pub order: i32,
    pub name: String,
    pub config: Option<JsonValue>,
    pub on_error: String,
    pub endpoints: Option<EndpointSelector>,
}

/// A typed sandbox policy. Names of policies and middlewares are unique.
#[derive(Debug)]
pub struct SandboxPolicy {
    pub filesystem: Option<FilesystemSection>,
    pub landlock: Option<LandlockSection>,
    pub process: Option<ProcessSection>,
    pub network_policies: Vec<(String, NetworkPolicyRule)>,
    pub network_middlewares: Vec<(String, NetworkMiddleware)>,
    /// The deterministic hash of the policy.
    pub policy_hash: String,
}

} // verus!
