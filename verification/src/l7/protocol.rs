//! Application protocols and MCP protocol revisions.

use crate::text;
use crate::text::{same, same_ignoring_case};
use vstd::prelude::*;

verus! {

/// Application protocol that an endpoint declares.
#[derive(Debug, Clone, Copy, PartialEq, Eq, Structural)]
pub enum L7Protocol {
    Rest,
    Websocket,
    Graphql,
    Sql,
    JsonRpc,
    Mcp,
}

impl L7Protocol {
    /// The canonical name.
    pub open spec fn name(self) -> Seq<char> {
        match self {
            L7Protocol::Rest => "rest"@,
            L7Protocol::Websocket => "websocket"@,
            L7Protocol::Graphql => "graphql"@,
            L7Protocol::Sql => "sql"@,
            L7Protocol::JsonRpc => "json-rpc"@,
            L7Protocol::Mcp => "mcp"@,
        }
    }

    /// The protocol of a name, in any case.
    pub open spec fn named(name: Seq<char>) -> Option<L7Protocol> {
        if text::lowered(name) == text::lowered("rest"@) {
            Some(L7Protocol::Rest)
        } else if text::lowered(name) == text::lowered("websocket"@) {
            Some(L7Protocol::Websocket)
        } else if text::lowered(name) == text::lowered("graphql"@) {
            Some(L7Protocol::Graphql)
        } else if text::lowered(name) == text::lowered("sql"@) {
            Some(L7Protocol::Sql)
        } else if text::lowered(name) == text::lowered("json-rpc"@) {
            Some(L7Protocol::JsonRpc)
        } else if text::lowered(name) == text::lowered("mcp"@) {
            Some(L7Protocol::Mcp)
        } else {
            None
        }
    }

    /// The canonical name.
    pub fn as_str(self) -> (r: &'static str)
        ensures
            r@ == self.name(),
    {
        match self {
            L7Protocol::Rest => "rest",
            L7Protocol::Websocket => "websocket",
            L7Protocol::Graphql => "graphql",
            L7Protocol::Sql => "sql",
            L7Protocol::JsonRpc => "json-rpc",
            L7Protocol::Mcp => "mcp",
        }
    }

    /// Reads a protocol name, in any case.
    pub fn parse(name: &str) -> (r: Option<L7Protocol>)
        ensures
            r == L7Protocol::named(name@),
    {
        if same_ignoring_case(name, "rest") {
            Some(L7Protocol::Rest)
        } else if same_ignoring_case(name, "websocket") {
            Some(L7Protocol::Websocket)
        } else if same_ignoring_case(name, "graphql") {
            Some(L7Protocol::Graphql)
        } else if same_ignoring_case(name, "sql") {
            Some(L7Protocol::Sql)
        } else if same_ignoring_case(name, "json-rpc") {
            Some(L7Protocol::JsonRpc)
        } else if same_ignoring_case(name, "mcp") {
            Some(L7Protocol::Mcp)
        } else {
            None
        }
    }
}

/// The greatest number of messages in one JSON-RPC batch of the MCP revision
/// that permits batches.
pub const MAX_MCP_LEGACY_BATCH_MESSAGES: usize = 64;

/// Supported MCP revision.
#[derive(Debug, Clone, Copy, PartialEq, Eq, Structural)]
pub enum McpProtocolVersion {
    V2025_03_26,
    V2025_06_18,
    V2025_11_25,
}

impl McpProtocolVersion {
    /// The revision date that stands on the wire.
    pub open spec fn date(self) -> Seq<char> {
        match self {
            McpProtocolVersion::V2025_03_26 => "2025-03-26"@,
            McpProtocolVersion::V2025_06_18 => "2025-06-18"@,
            McpProtocolVersion::V2025_11_25 => "2025-11-25"@,
        }
    }

    /// The revision with a date, where one is supported.
    pub open spec fn dated(date: Seq<char>) -> Option<McpProtocolVersion> {
        if date == McpProtocolVersion::V2025_03_26.date() {
            Some(McpProtocolVersion::V2025_03_26)
        } else if date == McpProtocolVersion::V2025_06_18.date() {
            Some(McpProtocolVersion::V2025_06_18)
        } else if date == McpProtocolVersion::V2025_11_25.date() {
            Some(McpProtocolVersion::V2025_11_25)
        } else {
            None
        }
    }

    /// Whether the revision permits top-level JSON-RPC batches.
    pub open spec fn permits_batches(self) -> bool {
        self == McpProtocolVersion::V2025_03_26
    }

    /// The revision date that stands on the wire.
    #[must_use]
    pub fn as_str(self) -> (date: &'static str)
        ensures
            date@ == self.date(),
    {
        match self {
            McpProtocolVersion::V2025_03_26 => "2025-03-26",
            McpProtocolVersion::V2025_06_18 => "2025-06-18",
            McpProtocolVersion::V2025_11_25 => "2025-11-25",
        }
    }

    /// Reads a revision date.
    pub fn parse(date: &str) -> (r: Option<McpProtocolVersion>)
        ensures
            r == McpProtocolVersion::dated(date@),
    {
        if same(date, "2025-03-26") {
            Some(McpProtocolVersion::V2025_03_26)
        } else if same(date, "2025-06-18") {
            Some(McpProtocolVersion::V2025_06_18)
        } else if same(date, "2025-11-25") {
            Some(McpProtocolVersion::V2025_11_25)
        } else {
            None
        }
    }

    /// Whether the revision permits top-level JSON-RPC batches.
    #[must_use]
    pub fn allows_json_rpc_batches(self) -> (r: bool)
        ensures
            r == self.permits_batches(),
    {
        match self {
            McpProtocolVersion::V2025_03_26 => true,
            _ => false,
        }
    }
}

/// Reading the date of a revision gives the revision.
pub proof fn revision_reads_its_date(revision: McpProtocolVersion)
    ensures
        McpProtocolVersion::dated(revision.date()) == Some(revision),
{
    reveal_strlit("2025-03-26");
    reveal_strlit("2025-06-18");
    reveal_strlit("2025-11-25");
    assert("2025-03-26"@[6] != "2025-06-18"@[6]);
    assert("2025-03-26"@[6] != "2025-11-25"@[6]);
    assert("2025-06-18"@[6] != "2025-11-25"@[6]);
}

} // verus!
