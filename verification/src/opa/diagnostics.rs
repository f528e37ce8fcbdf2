//! Diagnostics of policy loading, bounded and without authored content.

use crate::text;
use vstd::prelude::*;

verus! {

/// The greatest number of categories in one policy-load error.
pub const POLICY_VALIDATION_DIAGNOSTIC_MAX_ITEMS: usize = 8;

/// The greatest byte length of one policy-load error, its omission marker
/// counted.
pub const POLICY_VALIDATION_DIAGNOSTIC_MAX_BYTES: usize = 512;

/// Kind of a violation that policy validation found.
#[derive(Debug, Clone, Copy, PartialEq, Eq, Structural)]
pub enum PolicyViolation {
    InvalidProcessIdentity,
    InvalidLandlockCompatibility,
    PathTraversal,
    RelativePath,
    OverlyBroadPath,
    FieldTooLong,
    TooManyPaths,
    TldWildcard,
    TcpEndpointIpLiteral,
    InvalidTcpEndpointHost,
    InvalidHostWildcard,
    MissingEndpointHost,
    MissingTcpEndpointHost,
    MissingEndpointPort,
    InvalidEndpointPort,
    MissingSigningService,
    UnknownCredentialSigning,
    CredentialSigningWithBodyRewrite,
    InvalidL7Endpoint,
    InvalidMiddlewareConfig,
    TooManyMiddlewareConfigs,
    DuplicateMiddlewareOrder,
    TooManyMiddlewareSelectorPatterns,
    MiddlewareTlsSkipConflict,
    MissingMcpVersions,
    McpOptionsOnNonMcpEndpoint,
    UnsupportedMcpVersion,
    DuplicateMcpVersion,
}

impl PolicyViolation {
    /// The fixed category of a violation.
    pub open spec fn category(self) -> Seq<char> {
        match self {
            PolicyViolation::InvalidProcessIdentity => "invalid process identity"@,
            PolicyViolation::InvalidLandlockCompatibility => "invalid Landlock compatibility"@,
            PolicyViolation::PathTraversal | PolicyViolation::RelativePath
            | PolicyViolation::OverlyBroadPath
            | PolicyViolation::FieldTooLong => "invalid filesystem path"@,
            PolicyViolation::TooManyPaths => "filesystem path limit exceeded"@,
            PolicyViolation::TldWildcard | PolicyViolation::TcpEndpointIpLiteral
            | PolicyViolation::InvalidTcpEndpointHost
            | PolicyViolation::InvalidHostWildcard => "invalid network endpoint host"@,
            PolicyViolation::MissingEndpointHost | PolicyViolation::MissingTcpEndpointHost => {
                "missing network endpoint host"@
            },
            PolicyViolation::MissingEndpointPort | PolicyViolation::InvalidEndpointPort => {
                "invalid network endpoint port"@
            },
            PolicyViolation::MissingSigningService => {
                "incomplete credential signing configuration"@
            },
            PolicyViolation::UnknownCredentialSigning => {
                "invalid credential signing configuration"@
            },
            PolicyViolation::CredentialSigningWithBodyRewrite => {
                "conflicting credential rewrite configuration"@
            },
            PolicyViolation::InvalidL7Endpoint => "invalid L7 endpoint configuration"@,
            PolicyViolation::InvalidMiddlewareConfig => "invalid middleware configuration"@,
            PolicyViolation::TooManyMiddlewareConfigs => {
                "middleware configuration limit exceeded"@
            },
            PolicyViolation::DuplicateMiddlewareOrder => "duplicate middleware order"@,
            PolicyViolation::TooManyMiddlewareSelectorPatterns => {
                "middleware selector limit exceeded"@
            },
            PolicyViolation::MiddlewareTlsSkipConflict => {
                "middleware conflicts with TLS inspection"@
            },
            PolicyViolation::MissingMcpVersions => "missing MCP protocol version"@,
            PolicyViolation::McpOptionsOnNonMcpEndpoint => "MCP options require MCP protocol"@,
            PolicyViolation::UnsupportedMcpVersion => "unsupported MCP protocol version"@,
            PolicyViolation::DuplicateMcpVersion => "duplicate MCP protocol version"@,
        }
    }
}

/// The fixed category of a violation, without authored fields.
pub fn redacted_policy_violation_category(violation: PolicyViolation) -> (category: &'static str)
    ensures
        category@ == violation.category(),
{
    match violation {
        PolicyViolation::InvalidProcessIdentity => "invalid process identity",
        PolicyViolation::InvalidLandlockCompatibility => "invalid Landlock compatibility",
        PolicyViolation::PathTraversal
        | PolicyViolation::RelativePath
        | PolicyViolation::OverlyBroadPath
        | PolicyViolation::FieldTooLong => "invalid filesystem path",
        PolicyViolation::TooManyPaths => "filesystem path limit exceeded",
        PolicyViolation::TldWildcard
        | PolicyViolation::TcpEndpointIpLiteral
        | PolicyViolation::InvalidTcpEndpointHost
        | PolicyViolation::InvalidHostWildcard => "invalid network endpoint host",
        PolicyViolation::MissingEndpointHost | PolicyViolation::MissingTcpEndpointHost => {
            "missing network endpoint host"
        },
        PolicyViolation::MissingEndpointPort | PolicyViolation::InvalidEndpointPort => {
            "invalid network endpoint port"
        },
        PolicyViolation::MissingSigningService => "incomplete credential signing configuration",
        PolicyViolation::UnknownCredentialSigning => "invalid credential signing configuration",
        PolicyViolation::CredentialSigningWithBodyRewrite => {
            "conflicting credential rewrite configuration"
        },
        PolicyViolation::InvalidL7Endpoint => "invalid L7 endpoint configuration",
        PolicyViolation::InvalidMiddlewareConfig => "invalid middleware configuration",
        PolicyViolation::TooManyMiddlewareConfigs => "middleware configuration limit exceeded",
        PolicyViolation::DuplicateMiddlewareOrder => "duplicate middleware order",
        PolicyViolation::TooManyMiddlewareSelectorPatterns => "middleware selector limit exceeded",
        PolicyViolation::MiddlewareTlsSkipConflict => "middleware conflicts with TLS inspection",
        PolicyViolation::MissingMcpVersions => "missing MCP protocol version",
        PolicyViolation::McpOptionsOnNonMcpEndpoint => "MCP options require MCP protocol",
        PolicyViolation::UnsupportedMcpVersion => "unsupported MCP protocol version",
        PolicyViolation::DuplicateMcpVersion => "duplicate MCP protocol version",
    }
}

/// The byte length of a text.
pub open spec fn size(s: Seq<char>) -> int {
    vstd::utf8::encode_utf8(s).len() as int
}

/// The marker of omitted categories.
pub open spec fn omitted() -> Seq<char> {
    "; additional violations omitted"@
}

/// What stands before a category.
pub open spec fn separator(index: int) -> Seq<char> {
    if index == 0 {
        ": "@
    } else {
        "; "@
    }
}

/// Whether a category is the first that is left out.
pub open spec fn is_left_out(rendered: Seq<char>, category: Seq<char>, index: int) -> bool {
    ||| index == POLICY_VALIDATION_DIAGNOSTIC_MAX_ITEMS
    ||| size(rendered) + size(separator(index)) + size(category) + size(omitted())
        > POLICY_VALIDATION_DIAGNOSTIC_MAX_BYTES
}

/// What is rendered, with the categories from `index` on still to come.
pub open spec fn rendered_on(rendered: Seq<char>, categories: Seq<Seq<char>>, index: int) -> Seq<
    char,
>
    decreases categories.len() - index,
{
    if index < 0 || index >= categories.len() {
        rendered
    } else if is_left_out(rendered, categories[index], index) {
        rendered + omitted()
    } else {
        rendered_on(rendered + separator(index) + categories[index], categories, index + 1)
    }
}

/// Heading and categories: complete items as far as the limits allow, and a
/// marker where items are left out.
pub open spec fn bounded(heading: Seq<char>, categories: Seq<Seq<char>>) -> Seq<char> {
    rendered_on(heading, categories, 0)
}

fn bytes_in(s: &str) -> (n: usize)
    ensures
        n == size(s@),
{
    s.as_bytes().len()
}

fn left_out(rendered: &str, category: &str, index: usize) -> (r: bool)
    ensures
        r == is_left_out(rendered@, category@, index as int),
{
    let mark = if index == 0 {
        ": "
    } else {
        "; "
    };
    let total: u128 = bytes_in(rendered) as u128 + bytes_in(mark) as u128 + bytes_in(
        category,
    ) as u128 + bytes_in("; additional violations omitted") as u128;
    index == POLICY_VALIDATION_DIAGNOSTIC_MAX_ITEMS || total
        > POLICY_VALIDATION_DIAGNOSTIC_MAX_BYTES as u128
}

fn append_category(rendered: &mut String, category: &str, index: usize)
    ensures
        final(rendered)@ == old(rendered)@ + separator(index as int) + category@,
{
    if index == 0 {
        rendered.append(": ");
    } else {
        rendered.append("; ");
    }
    rendered.append(category);
}

/// Renders a heading and fixed categories within the limits. Room for the
/// marker is kept before each complete item; no text is cut.
pub fn render_bounded_validation_diagnostics(heading: &str, diagnostics: &Vec<String>) -> (rendered:
    String)
    ensures
        rendered@ == bounded(heading@, text::texts(diagnostics@)),
{
    let ghost all = text::texts(diagnostics@);
    let mut rendered = heading.to_string();
    let mut index: usize = 0;
    while index < diagnostics.len()
        invariant
            index <= diagnostics@.len(),
            all == text::texts(diagnostics@),
            bounded(heading@, all) == rendered_on(rendered@, all, index as int),
        decreases diagnostics@.len() - index,
    {
        assert(all[index as int] == diagnostics@[index as int]@);
        if left_out(rendered.as_str(), diagnostics[index].as_str(), index) {
            rendered.append("; additional violations omitted");
            return rendered;
        }
        append_category(&mut rendered, diagnostics[index].as_str(), index);
        index += 1;
    }
    rendered
}

/// Renders one category as often as it occurred, within the limits.
pub fn render_repeated_validation_diagnostic(heading: &str, count: usize, category: &str) -> (
    rendered: String)
    ensures
        rendered@ == bounded(heading@, Seq::new(count as nat, |i: int| category@)),
{
    let ghost all = Seq::new(count as nat, |i: int| category@);
    let mut rendered = heading.to_string();
    let mut index: usize = 0;
    while index < count
        invariant
            index <= count,
            all == Seq::new(count as nat, |i: int| category@),
            bounded(heading@, all) == rendered_on(rendered@, all, index as int),
        decreases count - index,
    {
        if left_out(rendered.as_str(), category, index) {
            rendered.append("; additional violations omitted");
            return rendered;
        }
        append_category(&mut rendered, category, index);
        index += 1;
    }
    rendered
}

/// Renders the categories of violations, within the limits.
pub fn render_violations(heading: &str, violations: &Vec<PolicyViolation>) -> (rendered: String)
    ensures
        rendered@ == bounded(
            heading@,
            violations@.map_values(|violation: PolicyViolation| violation.category()),
        ),
{
    let ghost all = violations@.map_values(|violation: PolicyViolation| violation.category());
    let mut categories: Vec<String> = Vec::new();
    let mut i: usize = 0;
    while i < violations.len()
        invariant
            i <= violations@.len(),
            all == violations@.map_values(|violation: PolicyViolation| violation.category()),
            text::texts(categories@) == all.take(i as int),
        decreases violations@.len() - i,
    {
        let category = redacted_policy_violation_category(violations[i]).to_string();
        let ghost before = text::texts(categories@);
        categories.push(category);
        assert(text::texts(categories@) == before.push(category@));
        assert(all.take(i + 1) == before.push(category@));
        i += 1;
    }
    assert(all.take(i as int) == all);
    render_bounded_validation_diagnostics(heading, &categories)
}

/// The bytes of two texts in a row are those of the one and the other.
pub proof fn lemma_encode_add(a: Seq<char>, b: Seq<char>)
    ensures
        vstd::utf8::encode_utf8(a + b) == vstd::utf8::encode_utf8(a) + vstd::utf8::encode_utf8(b),
    decreases a.len(),
{
    if a.len() == 0 {
        assert(a + b == b);
        assert(vstd::utf8::encode_utf8(a) + vstd::utf8::encode_utf8(b) == vstd::utf8::encode_utf8(
            b,
        ));
    } else {
        lemma_encode_add(a.drop_first(), b);
        assert((a + b).drop_first() == a.drop_first() + b);
        let first = vstd::utf8::encode_scalar(a[0] as u32);
        assert(vstd::utf8::encode_utf8(a + b) == first + vstd::utf8::encode_utf8(
            (a + b).drop_first(),
        ));
        assert(first + (vstd::utf8::encode_utf8(a.drop_first()) + vstd::utf8::encode_utf8(b)) == (
        first + vstd::utf8::encode_utf8(a.drop_first())) + vstd::utf8::encode_utf8(b));
    }
}

proof fn lemma_rendered_size(rendered: Seq<char>, categories: Seq<Seq<char>>, index: int)
    requires
        size(rendered) + size(omitted()) <= POLICY_VALIDATION_DIAGNOSTIC_MAX_BYTES,
    ensures
        size(rendered_on(rendered, categories, index)) <= POLICY_VALIDATION_DIAGNOSTIC_MAX_BYTES,
    decreases categories.len() - index,
{
    if 0 <= index < categories.len() {
        lemma_encode_add(rendered, omitted());
        if !is_left_out(rendered, categories[index], index) {
            let next = rendered + separator(index) + categories[index];
            lemma_encode_add(rendered, separator(index));
            lemma_encode_add(rendered + separator(index), categories[index]);
            lemma_rendered_size(next, categories, index + 1);
        }
    }
}

/// A policy-load error keeps to the byte limit, whatever the violations are,
/// as long as its heading leaves room for the omission marker.
pub proof fn diagnostics_keep_to_byte_limit(heading: Seq<char>, categories: Seq<Seq<char>>)
    requires
        size(heading) + size(omitted()) <= POLICY_VALIDATION_DIAGNOSTIC_MAX_BYTES,
    ensures
        size(bounded(heading, categories)) <= POLICY_VALIDATION_DIAGNOSTIC_MAX_BYTES,
{
    lemma_rendered_size(heading, categories, 0);
}

proof fn lemma_rendered_items(
    rendered: Seq<char>,
    a: Seq<Seq<char>>,
    b: Seq<Seq<char>>,
    index: int,
)
    requires
        0 <= index <= POLICY_VALIDATION_DIAGNOSTIC_MAX_ITEMS,
        a.len() > POLICY_VALIDATION_DIAGNOSTIC_MAX_ITEMS,
        b.len() > POLICY_VALIDATION_DIAGNOSTIC_MAX_ITEMS,
        a.take(POLICY_VALIDATION_DIAGNOSTIC_MAX_ITEMS as int) == b.take(
            POLICY_VALIDATION_DIAGNOSTIC_MAX_ITEMS as int,
        ),
    ensures
        rendered_on(rendered, a, index) == rendered_on(rendered, b, index),
    decreases POLICY_VALIDATION_DIAGNOSTIC_MAX_ITEMS - index,
{
    if index < POLICY_VALIDATION_DIAGNOSTIC_MAX_ITEMS {
        let n = POLICY_VALIDATION_DIAGNOSTIC_MAX_ITEMS as int;
        assert(a.take(n)[index] == a[index]);
        assert(b.take(n)[index] == b[index]);
        lemma_rendered_items(rendered + separator(index) + a[index], a, b, index + 1);
    }
}

/// A policy-load error holds no more than the greatest number of categories:
/// what comes behind them does not show, only that there is more.
pub proof fn diagnostics_keep_to_item_limit(
    heading: Seq<char>,
    a: Seq<Seq<char>>,
    b: Seq<Seq<char>>,
)
    requires
        a.len() > POLICY_VALIDATION_DIAGNOSTIC_MAX_ITEMS,
        b.len() > POLICY_VALIDATION_DIAGNOSTIC_MAX_ITEMS,
        a.take(POLICY_VALIDATION_DIAGNOSTIC_MAX_ITEMS as int) == b.take(
            POLICY_VALIDATION_DIAGNOSTIC_MAX_ITEMS as int,
        ),
    ensures
        bounded(heading, a) == bounded(heading, b),
{
    lemma_rendered_items(heading, a, b, 0);
}

} // verus!
