//! What every diagnostic tells of what it is about.

use crate::host_gateway;
use crate::host_gateway::HostGatewayError;
use crate::json::Json;
use crate::l7::duplicate;
use crate::l7::jsonrpc;
use crate::l7::mcp::McpProtocolVersionError;
use crate::l7::mcp_inspection;
use crate::l7::mcp_inspection::{EnvelopeModel, MethodAvailability, MethodModel, PayloadModel};
use crate::l7::mcp_payload;
use crate::l7::protocol::McpProtocolVersion;
use crate::l7::rest::body;
use crate::l7::rest::body::BodyFault;
use crate::l7::rest::head;
use crate::l7::rest::head::FieldFault;
use crate::l7::rest::output::ChunkSizeError;
use crate::numeral;
use crate::numeral::Base;
use crate::opa::aliases;
use crate::opa::chain;
use crate::opa::chain::ChainFault;
use crate::opa::diagnostics::PolicyViolation;
use crate::opa::preparation_laws;
use crate::opa::structure;
use vstd::prelude::*;

verus! {

/// A mapping of the host alias that is not usable is told by what is wrong with
/// its address or addresses.
pub proof fn unusable_mapping_is_told(error: HostGatewayError)
    ensures
        ({
            let told = host_gateway::mapping_text(error);
            &&& error == HostGatewayError::InvalidAddress ==> told
                == "supervisor host-gateway alias has an invalid address"@
            &&& error == HostGatewayError::UnsafeAddress ==> told
                == "supervisor host-gateway alias has an unsafe address"@
            &&& error == HostGatewayError::AmbiguousIpv4 ==> told
                == "supervisor host-gateway alias has ambiguous IPv4 addresses"@
            &&& error == HostGatewayError::AmbiguousIpv6 ==> told
                == "supervisor host-gateway alias has ambiguous IPv6 addresses"@
        }),
{
}

/// Whether a text is that of faults in the filesystem, process or Landlock section.
pub open spec fn is_sandbox_category(violation: PolicyViolation, told: Seq<char>) -> bool {
    &&& violation == PolicyViolation::InvalidProcessIdentity ==> told
        == "invalid process identity"@
    &&& violation == PolicyViolation::InvalidLandlockCompatibility ==> told
        == "invalid Landlock compatibility"@
    &&& (violation == PolicyViolation::PathTraversal || violation == PolicyViolation::RelativePath
        || violation == PolicyViolation::OverlyBroadPath || violation
        == PolicyViolation::FieldTooLong) ==> told == "invalid filesystem path"@
    &&& violation == PolicyViolation::TooManyPaths ==> told == "filesystem path limit exceeded"@
}

/// Whether a text is that of faults in endpoints.
pub open spec fn is_endpoint_category(violation: PolicyViolation, told: Seq<char>) -> bool {
    &&& (violation == PolicyViolation::TldWildcard || violation
        == PolicyViolation::TcpEndpointIpLiteral || violation
        == PolicyViolation::InvalidTcpEndpointHost || violation
        == PolicyViolation::InvalidHostWildcard) ==> told == "invalid network endpoint host"@
    &&& (violation == PolicyViolation::MissingEndpointHost || violation
        == PolicyViolation::MissingTcpEndpointHost) ==> told == "missing network endpoint host"@
    &&& (violation == PolicyViolation::MissingEndpointPort || violation
        == PolicyViolation::InvalidEndpointPort) ==> told == "invalid network endpoint port"@
    &&& violation == PolicyViolation::MissingSigningService ==> told
        == "incomplete credential signing configuration"@
    &&& violation == PolicyViolation::UnknownCredentialSigning ==> told
        == "invalid credential signing configuration"@
    &&& violation == PolicyViolation::CredentialSigningWithBodyRewrite ==> told
        == "conflicting credential rewrite configuration"@
    &&& violation == PolicyViolation::InvalidL7Endpoint ==> told
        == "invalid L7 endpoint configuration"@
    &&& violation == PolicyViolation::MissingMcpVersions ==> told
        == "missing MCP protocol version"@
    &&& violation == PolicyViolation::McpOptionsOnNonMcpEndpoint ==> told
        == "MCP options require MCP protocol"@
    &&& violation == PolicyViolation::UnsupportedMcpVersion ==> told
        == "unsupported MCP protocol version"@
    &&& violation == PolicyViolation::DuplicateMcpVersion ==> told
        == "duplicate MCP protocol version"@
}

/// Whether a text is that of faults in middlewares.
pub open spec fn is_middleware_category(violation: PolicyViolation, told: Seq<char>) -> bool {
    &&& violation == PolicyViolation::InvalidMiddlewareConfig ==> told
        == "invalid middleware configuration"@
    &&& violation == PolicyViolation::TooManyMiddlewareConfigs ==> told
        == "middleware configuration limit exceeded"@
    &&& violation == PolicyViolation::DuplicateMiddlewareOrder ==> told
        == "duplicate middleware order"@
    &&& violation == PolicyViolation::TooManyMiddlewareSelectorPatterns ==> told
        == "middleware selector limit exceeded"@
    &&& violation == PolicyViolation::MiddlewareTlsSkipConflict ==> told
        == "middleware conflicts with TLS inspection"@
}

/// A violation is told by a fixed text for its kind, so that nothing of the policy
/// is shown.
pub proof fn violation_is_told_by_its_kind(violation: PolicyViolation)
    ensures
        is_sandbox_category(violation, violation.category()),
        is_endpoint_category(violation, violation.category()),
        is_middleware_category(violation, violation.category()),
{
}

/// A malformed head or trailer of a response is told by what is malformed.
pub proof fn malformed_field_is_told(fault: FieldFault)
    ensures
        ({
            let told = head::fault_text(fault);
            &&& fault is StatusLine ==> told == "HTTP response status line is malformed"@
            &&& fault is FieldName ==> told == "HTTP response field name is malformed"@
            &&& fault is FieldValue ==> told == "HTTP response field value contains a control byte"@
            &&& fault is MalformedField ==> told == "Malformed HTTP response header field"@
            &&& fault is ProtectedTrailer ==> told
                == "HTTP response declares a protected trailer field"@
            &&& fault is IncompleteStatusLine ==> told == "HTTP response status line is incomplete"@
            &&& fault is StatusLineEncoding ==> told
                == "HTTP response status line contains invalid UTF-8"@
            &&& fault is TrailerEncoding ==> told == "HTTP response trailer contains invalid UTF-8"@
            &&& fault is MalformedTrailer ==> told == "Malformed HTTP response trailer"@
            &&& fault is ProtectedTrailerField ==> told
                == "HTTP response trailer uses a protected field name"@
            &&& fault is TrailerCount ==> told == "HTTP response trailer count exceeds limit"@
            &&& fault matches FieldFault::TokenList(detail) ==> told == detail
        }),
{
}

/// A malformed body of a response is told by what is malformed, and a malformed
/// trailer as one of a head is.
pub proof fn malformed_body_is_told(fault: BodyFault)
    ensures
        ({
            let told = body::body_fault_text(fault);
            &&& fault is UnexpectedEnd ==> told == "HTTP response body ended unexpectedly"@
            &&& fault is UnterminatedLine ==> told == "HTTP response ended before line terminator"@
            &&& fault is ChunkTerminator ==> told
                == "HTTP response chunk is missing its terminator"@
            &&& fault is Unexpected ==> told == "HTTP response reader exact-read state mismatch"@
            &&& fault == BodyFault::ChunkSize(ChunkSizeError::Encoding) ==> told
                == "Invalid UTF-8 in response chunk-size line"@
            &&& fault == BodyFault::ChunkSize(ChunkSizeError::Number) ==> told
                == "Invalid HTTP response chunk size"@
            &&& fault matches BodyFault::Trailer(inner) ==> told == head::fault_text(inner)
        }),
{
}

/// A chain that cannot be made is told by the fault that stands against it.
pub proof fn chain_fault_is_told(fault: ChainFault)
    ensures
        ({
            let told = chain::fault_message(fault);
            &&& fault matches ChainFault::Evaluation(detail) ==> told == detail
            &&& fault matches ChainFault::Selector(detail) ==> told == detail
            &&& fault matches ChainFault::OnError(detail) ==> told == detail
            &&& fault is KeyNotText ==> told == "network_middlewares keys must be strings"@
            &&& fault matches ChainFault::ConfigNotObject(name) ==> told
                == "network middleware config "@ + name + " must be an object"@
            &&& fault matches ChainFault::ConfigsNotObject(shown) ==> told
                == "network_middlewares must be an object, got "@ + shown
            &&& fault matches ChainFault::TooManyStages(limit) ==> told
                == "selected middleware stage count exceeds platform maximum "@
                + numeral::numeral(limit as nat, Base::Decimal)
        }),
{
}

/// A protocol revision that cannot be used is told by why it cannot.
pub proof fn unusable_revision_is_told(error: McpProtocolVersionError)
    ensures
        error is InvalidHeader ==> error.text()
            == "MCP-Protocol-Version must contain exactly one non-empty header value"@,
        error is UnsupportedHeaderValue ==> error.text()
            == "MCP-Protocol-Version names an unsupported protocol version"@,
        error matches McpProtocolVersionError::NotAllowed(version) ==> error.text()
            == "MCP protocol version "@ + version.date() + " is not allowed by endpoint policy"@,
{
}

/// A tool is asked for where the method calls one, and in no other case. It is the
/// one that the request names; a call that is no request, or has no envelope, or
/// whose params are malformed, names none and says why.
pub proof fn only_tool_calls_name_a_tool(payload: PayloadModel, method: MethodModel)
    ensures
        method.method != "tools/call"@ ==> mcp_payload::method_tool(payload, method) == Ok::<
            Option<Seq<char>>,
            Seq<char>,
        >(None),
        method.method == "tools/call"@ ==> match mcp_payload::method_envelope(
            payload,
            method.batch_index,
        ) {
            None => mcp_payload::method_tool(payload, method) == Err::<
                Option<Seq<char>>,
                Seq<char>,
            >("inspected MCP method is missing its JSON-RPC envelope"@),
            Some(EnvelopeModel::Request(name, params)) => match mcp_inspection::called_tool(
                name,
                params,
            ) {
                Ok(tool) => mcp_payload::method_tool(payload, method) == Ok::<
                    Option<Seq<char>>,
                    Seq<char>,
                >(tool),
                Err(detail) => mcp_payload::method_tool(payload, method) == Err::<
                    Option<Seq<char>>,
                    Seq<char>,
                >("invalid MCP `tools/call` params: "@ + detail),
            },
            Some(_) => mcp_payload::method_tool(payload, method) == Err::<
                Option<Seq<char>>,
                Seq<char>,
            >("MCP `tools/call` must be a request with an id"@),
        },
{
}

/// A method that a revision does not have is told with the revision and the method.
pub proof fn unavailable_method_is_told(method: MethodModel, revision: McpProtocolVersion)
    ensures
        ({
            let fault = mcp_payload::method_fault(method, revision);
            &&& fault is None <==> method.availability == MethodAvailability::Available
                || method.availability == MethodAvailability::Extension
            &&& method.availability == MethodAvailability::Unavailable ==> (fault matches Some(error)
                && error.detail == "MCP "@ + revision.date() + " does not make `"@ + method.method
                + "` available"@)
            &&& method.availability == MethodAvailability::Unsupported ==> (fault matches Some(error)
                && error.detail == "MCP "@ + revision.date()
                + " returned an unsupported classification for `"@ + method.method + "`"@)
        }),
{
}

/// A batch that a revision refuses is told with the revision, and with its size
/// where it is too large.
pub proof fn refused_batch_is_told(list: Seq<EnvelopeModel>, revision: McpProtocolVersion)
    ensures
        ({
            let fault = mcp_payload::batch_fault(PayloadModel::Batch(list), revision);
            &&& !revision.permits_batches() ==> (fault matches Some(error) && error.detail
                == "MCP "@ + revision.date() + " does not permit top-level JSON-RPC batches"@)
            &&& revision.permits_batches() && list.len() > 64 ==> (fault matches Some(error)
                && error.detail == "MCP "@ + revision.date() + " batch contains "@
                + numeral::numeral(list.len(), Base::Decimal) + " messages; the maximum is "@
                + numeral::numeral(64, Base::Decimal))
        }),
{
}

/// A duplicate key is told with the key and with where it stands.
pub proof fn duplicate_key_is_told(found: duplicate::DuplicateModel)
    ensures
        jsonrpc::duplicate_detail(found) == "duplicate JSON object key '"@ + found.key + "' at "@
            + found.object_path,
{
}

/// The place of an endpoint is told by its policy and its number.
pub proof fn endpoint_is_told_by_its_place(policy: Seq<char>, index: int)
    ensures
        aliases::location_of(policy, index) == "network_policies."@ + policy + ".endpoints["@
            + numeral::numeral(index as nat, Base::Decimal) + "]"@,
{
}

/// Whether what was found is absent or an object.
pub open spec fn is_object_if_any(found: Option<Json>) -> bool {
    found matches Some(value) ==> value is Object
}

/// Data that is misshaped is told by its first section that is. The sections are
/// looked at in this order: filesystem, Landlock, process, middlewares, policies.
pub proof fn misshaped_section_is_told(data: Json)
    ensures
        ({
            let told = structure::structure_fault(data);
            let filesystem = data.field("filesystem_policy"@);
            let landlock = data.field("landlock"@);
            let process = data.field("process"@);
            let middlewares = data.field("network_middlewares"@);
            let policies = data.field("network_policies"@);
            let first = is_object_if_any(filesystem);
            let second = first && is_object_if_any(landlock);
            let third = second && is_object_if_any(process);
            let fourth = third && structure::middlewares_fault(middlewares) is None;
            &&& !(data is Object) ==> told == Some("OPA policy data must be an object"@)
            &&& data is Object && !first ==> told == Some(
                "filesystem_policy"@ + " must be an object"@,
            )
            &&& data is Object && first && !is_object_if_any(landlock) ==> told == Some(
                "landlock"@ + " must be an object"@,
            )
            &&& data is Object && second && !is_object_if_any(process) ==> told == Some(
                "process"@ + " must be an object"@,
            )
            &&& data is Object && third && !is_object_if_any(middlewares) ==> told == Some(
                "network_middlewares must be an object"@,
            )
            &&& data is Object && third && is_object_if_any(middlewares) && !fourth ==> told
                == Some("network middleware entries must be objects"@)
            &&& data is Object && fourth && !is_object_if_any(policies) ==> told == Some(
                "network_policies must be an object"@,
            )
        }),
{
}

/// A list that is misshaped is told by its name: it is no array, or an entry is no
/// object.
pub proof fn misshaped_list_is_told(found: Option<Json>, name: Seq<char>)
    ensures
        ({
            let told = structure::object_array_fault(found, name);
            &&& preparation_laws::is_objects_if_any(found) <==> told is None
            &&& (found matches Some(value) && !(value is Array)) ==> told == Some(
                name + " must be an array"@,
            )
            &&& (found matches Some(value) && value is Array
                && !preparation_laws::is_objects_if_any(found)) ==> told == Some(
                name + " entries must be objects"@,
            )
        }),
{
}

/// A policy that is misshaped is told by what is misshaped in it: the policy, its
/// endpoints, the rules of an endpoint, or its binaries.
pub proof fn misshaped_policy_is_told(policy: Json, rest: Seq<Json>, endpoint: Json)
    ensures
        !(policy is Object) ==> structure::policy_fault(policy) == Some(
            "network policy entries must be objects"@,
        ),
        policy is Object && !preparation_laws::is_objects_if_any(policy.field("endpoints"@))
            ==> structure::policy_fault(policy) == structure::object_array_fault(
            policy.field("endpoints"@),
            "network policy endpoints"@,
        ),
        policy is Object && policy.field("endpoints"@) is None ==> structure::policy_fault(policy)
            == structure::object_array_fault(policy.field("binaries"@), "network policy binaries"@),
        !preparation_laws::is_objects_if_any(endpoint.field("rules"@))
            ==> structure::endpoint_fault(endpoint) == structure::object_array_fault(
            endpoint.field("rules"@),
            "network endpoint rules"@,
        ),
        preparation_laws::is_objects_if_any(endpoint.field("rules"@))
            ==> structure::endpoint_fault(endpoint) == structure::object_array_fault(
            endpoint.field("deny_rules"@),
            "network endpoint deny_rules"@,
        ),
{
}

} // verus!
