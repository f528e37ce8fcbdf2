//! Selection of the MCP revision of Streamable HTTP requests.

use crate::bytes;
use crate::bytes::{find_head_end, slice, utf8_text};
use crate::l7::jsonrpc::{InfoModel, JsonRpcRequestInfo};
use crate::l7::protocol::McpProtocolVersion;
use crate::l7::provider::L7Request;
use crate::text;
use crate::text::{
    chars_of, same, same_ignoring_case, split_at_first, split_crlf_parts, trimmed, CharClass,
};
use vstd::prelude::*;

verus! {

/// Revision selected for one MCP HTTP request.
#[derive(Debug, Clone, Copy, PartialEq, Eq, Structural)]
pub enum McpRequestProtocolVersion {
    /// A standalone initialize request selects its revision in its body.
    Initialization,
    /// Any other request selects a revision by its header or the fallback.
    Selected(McpProtocolVersion),
}

/// Failure to select an allowed revision for an MCP HTTP request.
#[derive(Debug, Clone, Copy, PartialEq, Eq, Structural)]
pub enum McpProtocolVersionError {
    /// The head yields no single header value.
    InvalidHeader,
    /// The header value names no supported revision.
    UnsupportedHeaderValue,
    /// The selected revision is not allowed by the endpoint.
    NotAllowed(McpProtocolVersion),
}

impl McpProtocolVersionError {
    /// The diagnostic.
    pub open spec fn text(self) -> Seq<char> {
        match self {
            McpProtocolVersionError::InvalidHeader => {
                "MCP-Protocol-Version must contain exactly one non-empty header value"@
            },
            McpProtocolVersionError::UnsupportedHeaderValue => {
                "MCP-Protocol-Version names an unsupported protocol version"@
            },
            McpProtocolVersionError::NotAllowed(version) => "MCP protocol version "@
                + version.date() + " is not allowed by endpoint policy"@,
        }
    }

    /// The HTTP status for this rejection.
    #[must_use]
    pub fn http_status(self) -> (status: &'static str)
        ensures
            status@ == if self is NotAllowed {
                "403 Forbidden"@
            } else {
                "400 Bad Request"@
            },
    {
        match self {
            McpProtocolVersionError::InvalidHeader
            | McpProtocolVersionError::UnsupportedHeaderValue => "400 Bad Request",
            McpProtocolVersionError::NotAllowed(_) => "403 Forbidden",
        }
    }

    /// The machine-readable response code.
    #[must_use]
    pub fn response_code(self) -> (code: &'static str)
        ensures
            code@ == match self {
                McpProtocolVersionError::InvalidHeader => "invalid_mcp_protocol_version_header"@,
                McpProtocolVersionError::UnsupportedHeaderValue => {
                    "unsupported_mcp_protocol_version"@
                },
                McpProtocolVersionError::NotAllowed(_) => "mcp_protocol_version_not_allowed"@,
            },
    {
        match self {
            McpProtocolVersionError::InvalidHeader => "invalid_mcp_protocol_version_header",
            McpProtocolVersionError::UnsupportedHeaderValue => "unsupported_mcp_protocol_version",
            McpProtocolVersionError::NotAllowed(_) => "mcp_protocol_version_not_allowed",
        }
    }

    /// The diagnostic.
    pub fn message(self) -> (r: String)
        ensures
            r@ == self.text(),
    {
        match self {
            McpProtocolVersionError::InvalidHeader => {
                "MCP-Protocol-Version must contain exactly one non-empty header value".to_string()
            },
            McpProtocolVersionError::UnsupportedHeaderValue => {
                "MCP-Protocol-Version names an unsupported protocol version".to_string()
            },
            McpProtocolVersionError::NotAllowed(version) => {
                let mut r = "MCP protocol version ".to_string();
                r.append(version.as_str());
                r.append(" is not allowed by endpoint policy");
                r
            },
        }
    }
}

/// Whether a request is exactly one `initialize` call that awaits a response.
pub open spec fn standalone_initialize(info: InfoModel) -> bool {
    &&& !info.is_batch
    &&& !info.has_response
    &&& info.error is None
    &&& info.calls.len() == 1
    &&& info.calls[0].method == "initialize"@
    &&& !info.calls[0].is_notification
}

/// Recognizes exactly one `initialize` call that awaits a response.
pub fn is_standalone_initialize(info: &JsonRpcRequestInfo) -> (r: bool)
    ensures
        r == standalone_initialize(info@),
{
    assert(info@.calls.len() == info.calls@.len());
    if info.is_batch || info.has_response || info.error.is_some() || info.calls.len() != 1 {
        return false;
    }
    assert(info@.calls[0] == info.calls@[0]@);
    same(info.calls[0].method.as_str(), "initialize") && !info.calls[0].is_notification
}

/// The value of a header line that names the MCP revision. Only space and tab
/// around it are no part of it.
pub open spec fn version_value(line: Seq<char>) -> Option<Seq<char>> {
    match text::split_once(line, ':') {
        Some((name, value)) => if text::lowered(name) == text::lowered("mcp-protocol-version"@) {
            Some(text::trim(value, CharClass::Horizontal))
        } else {
            None
        },
        None => None,
    }
}

/// The values of the header lines that name the MCP revision.
pub open spec fn version_values(lines: Seq<Seq<char>>) -> Seq<Seq<char>>
    decreases lines.len(),
{
    if lines.len() == 0 {
        seq![]
    } else {
        match version_value(lines.last()) {
            Some(value) => version_values(lines.drop_last()).push(value),
            None => version_values(lines.drop_last()),
        }
    }
}

/// The one value of the revision header, if the header is there.
pub open spec fn version_header(raw: Seq<u8>) -> Result<
    Option<Seq<char>>,
    McpProtocolVersionError,
> {
    match bytes::head_end(raw) {
        None => Err(McpProtocolVersionError::InvalidHeader),
        Some(end) => {
            let head = raw.take(end);
            if !vstd::utf8::valid_utf8(head) {
                Err(McpProtocolVersionError::InvalidHeader)
            } else {
                let values = version_values(
                    text::split_crlf(vstd::utf8::decode_utf8(head)).skip(1),
                );
                if values.len() == 0 {
                    Ok(None)
                } else if values.len() > 1 || values[0].len() == 0 {
                    Err(McpProtocolVersionError::InvalidHeader)
                } else {
                    Ok(Some(values[0]))
                }
            }
        },
    }
}

fn value_of_line(line: &str) -> (r: Option<String>)
    ensures
        match r {
            Some(value) => version_value(line@) == Some(value@),
            None => version_value(line@) is None,
        },
{
    match split_at_first(line, ':') {
        Some((name, value)) => if same_ignoring_case(name.as_str(), "mcp-protocol-version") {
            Some(trimmed(value.as_str(), CharClass::Horizontal))
        } else {
            None
        },
        None => None,
    }
}

fn values_of_lines(lines: &Vec<String>) -> (values: Vec<String>)
    requires
        lines@.len() > 0,
    ensures
        text::texts(values@) == version_values(text::texts(lines@).skip(1)),
{
    let ghost all = text::texts(lines@).skip(1);
    let mut values: Vec<String> = Vec::new();
    let mut i: usize = 1;
    assert(text::texts(values@) == version_values(all.take(0)));
    while i < lines.len()
        invariant
            1 <= i <= lines@.len(),
            all == text::texts(lines@).skip(1),
            text::texts(values@) == version_values(all.take(i - 1)),
        decreases lines@.len() - i,
    {
        assert(all.take(i as int).drop_last() == all.take(i - 1));
        assert(all.take(i as int).last() == lines@[i as int]@);
        if let Some(value) = value_of_line(lines[i].as_str()) {
            let ghost before = text::texts(values@);
            values.push(value);
            assert(text::texts(values@) == before.push(value@));
        }
        i += 1;
    }
    assert(all.take(i - 1) == all);
    values
}

/// Reads the revision header of a request head.
pub fn request_protocol_version_header(raw_header: &[u8]) -> (r: Result<
    Option<String>,
    McpProtocolVersionError,
>)
    ensures
        match r {
            Ok(Some(value)) => version_header(raw_header@) == Ok::<
                Option<Seq<char>>,
                McpProtocolVersionError,
            >(Some(value@)),
            Ok(None) => version_header(raw_header@) == Ok::<
                Option<Seq<char>>,
                McpProtocolVersionError,
            >(None),
            Err(error) => version_header(raw_header@) == Err::<
                Option<Seq<char>>,
                McpProtocolVersionError,
            >(error),
        },
{
    let end = match find_head_end(raw_header) {
        Some(end) => end,
        None => {
            return Err(McpProtocolVersionError::InvalidHeader);
        },
    };
    let head = slice(raw_header, 0, end);
    assert(head@ == raw_header@.take(end as int));
    let headers = match utf8_text(head.as_slice()) {
        Some(headers) => headers,
        None => {
            return Err(McpProtocolVersionError::InvalidHeader);
        },
    };
    let lines = split_crlf_parts(headers.as_str());
    proof {
        crate::l7::rest::parsed_head::lemma_split_crlf_nonempty(headers@);
        assert(text::texts(lines@).len() == lines@.len());
    }
    let mut values = values_of_lines(&lines);
    assert(text::texts(values@).len() == values@.len());
    if values.len() == 0 {
        return Ok(None);
    }
    assert(text::texts(values@)[0] == values@[0]@);
    if values.len() > 1 || chars_of(values[0].as_str()).len() == 0 {
        return Err(McpProtocolVersionError::InvalidHeader);
    }
    Ok(Some(values.remove(0)))
}

/// The revision that a header value names; without a header it is the first
/// one.
pub open spec fn named_version(header: Option<Seq<char>>) -> Result<
    McpProtocolVersion,
    McpProtocolVersionError,
> {
    match header {
        None => Ok(McpProtocolVersion::V2025_03_26),
        Some(value) => match McpProtocolVersion::dated(value) {
            Some(version) => Ok(version),
            None => Err(McpProtocolVersionError::UnsupportedHeaderValue),
        },
    }
}

/// The revision of a request, or why it has none.
pub open spec fn request_version(
    raw: Seq<u8>,
    info: InfoModel,
    allowed: Seq<McpProtocolVersion>,
) -> Result<McpRequestProtocolVersion, McpProtocolVersionError> {
    if standalone_initialize(info) {
        Ok(McpRequestProtocolVersion::Initialization)
    } else {
        match version_header(raw) {
            Err(error) => Err(error),
            Ok(header) => match named_version(header) {
                Err(error) => Err(error),
                Ok(version) => if allowed.contains(version) {
                    Ok(McpRequestProtocolVersion::Selected(version))
                } else {
                    Err(McpProtocolVersionError::NotAllowed(version))
                },
            },
        }
    }
}

fn allows(allowed: &[McpProtocolVersion], version: McpProtocolVersion) -> (r: bool)
    ensures
        r == allowed@.contains(version),
{
    let mut i: usize = 0;
    while i < allowed.len()
        invariant
            i <= allowed@.len(),
            forall|k: int| 0 <= k < i ==> allowed@[k] != version,
        decreases allowed@.len() - i,
    {
        if allowed[i] == version {
            return true;
        }
        i += 1;
    }
    false
}

/// Selects and authorizes the revision of one MCP HTTP request.
///
/// Initialization negotiates its revision in the body and is the only request
/// exempt from the header. Every other request stands for itself: without the
/// header it selects the fallback, and the revision must be allowed.
pub fn select_request_protocol_version(
    request: &L7Request,
    info: &JsonRpcRequestInfo,
    allowed_versions: &[McpProtocolVersion],
) -> (r: Result<McpRequestProtocolVersion, McpProtocolVersionError>)
    ensures
        r == request_version(request.raw_header@, info@, allowed_versions@),
{
    if is_standalone_initialize(info) {
        return Ok(McpRequestProtocolVersion::Initialization);
    }
    let version = match request_protocol_version_header(request.raw_header.as_slice()) {
        Ok(Some(value)) => match McpProtocolVersion::parse(value.as_str()) {
            Some(version) => version,
            None => {
                return Err(McpProtocolVersionError::UnsupportedHeaderValue);
            },
        },
        Ok(None) => McpProtocolVersion::V2025_03_26,
        Err(error) => {
            return Err(error);
        },
    };
    if !allows(allowed_versions, version) {
        return Err(McpProtocolVersionError::NotAllowed(version));
    }
    Ok(McpRequestProtocolVersion::Selected(version))
}

/// A selected revision is always one that the endpoint allows.
pub proof fn selected_version_is_allowed(
    raw: Seq<u8>,
    info: InfoModel,
    allowed: Seq<McpProtocolVersion>,
)
    ensures
        request_version(raw, info, allowed) matches Ok(
            McpRequestProtocolVersion::Selected(version),
        ) ==> allowed.contains(version),
{
}

} // verus!
