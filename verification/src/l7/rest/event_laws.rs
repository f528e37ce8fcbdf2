//! What holds of every event and of every body that tells a client why a response
//! was not delivered.

use crate::json;
use crate::json::{Json, NumberModel};
use crate::l7::rest::events;
use crate::l7::rest::events::{
    EventAction, EventDisposition, EventSeverity, HttpResponseInvocation,
};
use crate::l7::rest::output;
use crate::l7::rest::output::{HttpRequestTarget, MiddlewareDenial};
use crate::text;
use vstd::prelude::*;

verus! {

/// An event says what became of the response: blocked where the middleware blocked
/// it, failed where the middleware failed otherwise, allowed where it did neither.
/// Only the last is a success.
pub proof fn event_says_what_became_of_the_response(
    policy_name: Seq<char>,
    target: HttpRequestTarget,
    status_code: u16,
    invocation: HttpResponseInvocation,
)
    ensures
        ({
            let event = events::invocation_event(policy_name, target, status_code, invocation);
            let blocks = invocation.outcome@ == "BlockDelivery"@;
            &&& blocks <==> event.action == EventAction::Denied
            &&& blocks <==> event.disposition == EventDisposition::Blocked
            &&& !blocks && invocation.failed <==> event.action == EventAction::Other
            &&& !blocks && invocation.failed <==> event.disposition == EventDisposition::Failed
            &&& event.success <==> !blocks && !invocation.failed
            &&& event.success <==> event.severity == EventSeverity::Informational
            &&& !event.success <==> event.severity == EventSeverity::Medium
            &&& event.failed == invocation.failed
        }),
{
}

/// An event tells of the request, of the response and of the middleware as they
/// were. A port that is none, and a sequence number that is not there, are zero.
pub proof fn event_tells_of_its_invocation(
    policy_name: Seq<char>,
    target: HttpRequestTarget,
    status_code: u16,
    invocation: HttpResponseInvocation,
)
    ensures
        ({
            let event = events::invocation_event(policy_name, target, status_code, invocation);
            &&& event.method == target.method@
            &&& event.url_scheme == target.scheme@
            &&& event.url_host == target.host@
            &&& event.url_path == target.path@
            &&& event.destination_domain == target.host@
            &&& target.port <= 65535 ==> event.url_port == target.port && event.destination_port
                == target.port
            &&& target.port > 65535 ==> event.url_port == 0 && event.destination_port == 0
            &&& event.status_code == status_code
            &&& event.policy_name == policy_name
            &&& event.rule_type == "supervisor-middleware"@
            &&& event.config_name == invocation.config_name@
            &&& event.implementation == invocation.implementation@
            &&& event.outcome == text::lowered(invocation.outcome@)
            &&& event.sequence == match invocation.sequence {
                Some(n) => n,
                None => 0,
            }
            &&& event.input_bytes == invocation.input_size
        }),
{
}

/// The evidence of findings on an invocation.
pub open spec fn is_evidence(
    evidence: Seq<(Seq<char>, Seq<char>)>,
    policy_name: Seq<char>,
    target: HttpRequestTarget,
    invocation: HttpResponseInvocation,
) -> bool {
    &&& evidence.contains(("policy"@, policy_name))
    &&& evidence.contains(("middleware_config"@, invocation.config_name@))
    &&& evidence.contains(("middleware_implementation"@, invocation.implementation@))
    &&& evidence.contains(("host"@, target.host@))
    &&& evidence.contains(("phase"@, "pre_return"@))
}

/// The attributes of findings on an invocation.
pub open spec fn is_attributes(
    attributes: Seq<(Seq<char>, Seq<char>)>,
    invocation: HttpResponseInvocation,
) -> bool {
    &&& attributes.contains(("middleware_config"@, invocation.config_name@))
    &&& attributes.contains(("middleware_implementation"@, invocation.implementation@))
    &&& attributes.contains(("phase"@, "pre_return"@))
}

proof fn lemma_evidence(
    policy_name: Seq<char>,
    target: HttpRequestTarget,
    invocation: HttpResponseInvocation,
    more: (Seq<char>, Seq<char>),
)
    ensures
        ({
            let evidence = events::invocation_evidence(policy_name, target, invocation);
            let attributes = events::invocation_attributes(invocation);
            &&& is_evidence(evidence, policy_name, target, invocation)
            &&& is_evidence(evidence.push(more), policy_name, target, invocation)
            &&& evidence.push(more).contains(more)
            &&& evidence.len() == 5
            &&& is_attributes(attributes, invocation)
            &&& is_attributes(attributes.push(more), invocation)
            &&& attributes.push(more).contains(more)
            &&& attributes.len() == 3
        }),
{
    let a = events::invocation_evidence(policy_name, target, invocation);
    let b = events::invocation_attributes(invocation);
    assert(a[0] == ("policy"@, policy_name) && a.push(more)[0] == a[0]);
    assert(a[1] == ("middleware_config"@, invocation.config_name@) && a.push(more)[1] == a[1]);
    assert(a[2] == ("middleware_implementation"@, invocation.implementation@) && a.push(more)[2]
        == a[2]);
    assert(a[3] == ("host"@, target.host@) && a.push(more)[3] == a[3]);
    assert(a[4] == ("phase"@, "pre_return"@) && a.push(more)[4] == a[4]);
    assert(a.push(more)[5] == more);
    assert(b[0] == ("middleware_config"@, invocation.config_name@) && b.push(more)[0] == b[0]);
    assert(b[1] == ("middleware_implementation"@, invocation.implementation@) && b.push(more)[1]
        == b[1]);
    assert(b[2] == ("phase"@, "pre_return"@) && b.push(more)[2] == b[2]);
    assert(b.push(more)[3] == more);
}

/// A blocked delivery is found, and nothing else is found to be one. The finding
/// shows the policy, the middleware and the host.
pub proof fn blocked_delivery_is_found(
    policy_name: Seq<char>,
    target: HttpRequestTarget,
    invocation: HttpResponseInvocation,
)
    ensures
        match events::block_finding(policy_name, target, invocation) {
            None => invocation.outcome@ != "BlockDelivery"@,
            Some(finding) => {
                &&& invocation.outcome@ == "BlockDelivery"@
                &&& finding.severity == EventSeverity::Medium
                &&& finding.id == "openshell.middleware.http_response_blocked"@
                &&& finding.title == "HTTP response blocked by middleware"@
                &&& finding.message == "HTTP response delivery blocked by middleware"@
                &&& finding.evidence.len() == 5
                &&& is_evidence(finding.evidence, policy_name, target, invocation)
                &&& finding.attributes.len() == 3
                &&& is_attributes(finding.attributes, invocation)
            },
        },
{
    lemma_evidence(policy_name, target, invocation, ("policy"@, policy_name));
}

/// A middleware that failed open is found, and nothing else is found to be one. The
/// finding shows the policy, the middleware, the host and the kind of failure.
pub proof fn failure_to_inspect_is_found(
    policy_name: Seq<char>,
    target: HttpRequestTarget,
    invocation: HttpResponseInvocation,
)
    ensures
        match events::fail_open_finding(policy_name, target, invocation) {
            None => !invocation.failed || invocation.outcome@ != "FailOpen"@,
            Some(finding) => {
                let category = match invocation.failure_category {
                    Some(category) => category@,
                    None => "middleware_failure"@,
                };
                &&& invocation.failed
                &&& invocation.outcome@ == "FailOpen"@
                &&& finding.severity == EventSeverity::Medium
                &&& finding.id == "openshell.middleware.http_response_fail_open"@
                &&& finding.title == "HTTP response middleware failed open"@
                &&& finding.message
                    == "HTTP response middleware failed and response inspection was bypassed"@
                &&& finding.evidence.len() == 6
                &&& is_evidence(finding.evidence, policy_name, target, invocation)
                &&& finding.evidence.contains(("failure_category"@, category))
                &&& finding.attributes.len() == 4
                &&& is_attributes(finding.attributes, invocation)
                &&& finding.attributes.contains(("failure_category"@, category))
            },
        },
{
    lemma_evidence(
        policy_name,
        target,
        invocation,
        ("failure_category"@, events::failure_category_of(invocation)),
    );
}

/// The finding on a delivery failure is severe, and tells whether anything had been
/// sent to the client by then.
pub proof fn delivery_failure_is_found(
    policy_name: Seq<char>,
    target: HttpRequestTarget,
    status_code: u16,
)
    ensures
        ({
            let early = events::failure_finding(policy_name, target, status_code, false);
            let late = events::failure_finding(policy_name, target, status_code, true);
            let status = crate::numeral::numeral(
                status_code as nat,
                crate::numeral::Base::Decimal,
            );
            &&& early.severity == EventSeverity::High && late.severity == EventSeverity::High
            &&& early.id == "openshell.middleware.http_response_failure"@ && late.id == early.id
            &&& early.title == "HTTP response middleware delivery failure"@ && late.title
                == early.title
            &&& early.message == "HTTP response middleware failed before response commitment"@
            &&& late.message == "HTTP response middleware failed after response commitment"@
            &&& early.evidence.contains(("policy"@, policy_name)) && late.evidence.contains(
                ("policy"@, policy_name),
            )
            &&& early.evidence.contains(("host"@, target.host@)) && late.evidence.contains(
                ("host"@, target.host@),
            )
            &&& early.evidence.contains(("upstream_status"@, status)) && late.evidence.contains(
                ("upstream_status"@, status),
            )
            &&& early.evidence.contains(("commitment"@, "before_commit"@))
            &&& late.evidence.contains(("commitment"@, "after_commit"@))
            &&& early.evidence.len() == 4 && late.evidence.len() == 4
            &&& early.attributes.len() == 0 && late.attributes.len() == 0
        }),
{
    let status = crate::numeral::numeral(status_code as nat, crate::numeral::Base::Decimal);
    let early = events::failure_finding(policy_name, target, status_code, false).evidence;
    let late = events::failure_finding(policy_name, target, status_code, true).evidence;
    assert(early[0] == ("policy"@, policy_name) && late[0] == early[0]);
    assert(early[1] == ("host"@, target.host@) && late[1] == early[1]);
    assert(early[2] == ("commitment"@, "before_commit"@));
    assert(late[2] == ("commitment"@, "after_commit"@));
    assert(early[3] == ("upstream_status"@, status) && late[3] == early[3]);
}

proof fn lemma_found(object: Seq<(Seq<char>, Json)>, at: int, key: Seq<char>, value: Json)
    requires
        0 <= at < object.len(),
        object[at] == (key, value),
        forall|i: int| 0 <= i < at ==> (#[trigger] object[i]).0 != key,
    ensures
        json::lookup(object, key) == Some(value),
{
    json::lemma_position_is(object, key, at);
}

/// Whether a body tells which request it answers.
pub open spec fn tells_of_target(body: Json, target: HttpRequestTarget) -> bool {
    &&& body.field("method"@) == Some(Json::Text(target.method@))
    &&& body.field("path"@) == Some(Json::Text(target.path@))
    &&& body.field("host"@) == Some(Json::Text(target.host@))
    &&& body.field("port"@) == Some(Json::Number(NumberModel::Integer(target.port as int)))
}

proof fn lemma_names()
    ensures
        "error"@[0] == 'e' && "detail"@[0] == 'd' && "layer"@[0] == 'l' && "host"@[0] == 'h',
        "method"@[0] == 'm' && "middleware"@[0] == 'm' && "method"@.len() == 6
            && "middleware"@.len() == 10,
        "policy"@[0] == 'p' && "path"@[0] == 'p' && "port"@[0] == 'p' && "reason_code"@[0] == 'r',
        "policy"@.len() == 6 && "path"@.len() == 4 && "port"@.len() == 4,
        "path"@[1] == 'a' && "port"@[1] == 'o',
{
    reveal_strlit("error");
    reveal_strlit("detail");
    reveal_strlit("layer");
    reveal_strlit("host");
    reveal_strlit("method");
    reveal_strlit("middleware");
    reveal_strlit("policy");
    reveal_strlit("path");
    reveal_strlit("port");
    reveal_strlit("reason_code");
}

/// The body that tells a client of a denial says that the middleware denied the
/// response, under which policy and for which request. It gives the reason where
/// the middleware gave one.
pub proof fn denial_is_told(
    policy_name: Seq<char>,
    target: HttpRequestTarget,
    denial: MiddlewareDenial,
)
    ensures
        ({
            let body = output::denial_body(policy_name, target, denial);
            &&& body.field("error"@) == Some(Json::Text("middleware_denied"@))
            &&& body.field("policy"@) == Some(Json::Text(policy_name))
            &&& body.field("middleware"@) == Some(Json::Text(denial.config_name@))
            &&& body.field("reason_code"@) == match denial.reason_code {
                Some(code) => Some(Json::Text(code@)),
                None => None,
            }
            &&& body.field("layer"@) == Some(Json::Text("http_response_pre_return"@))
            &&& tells_of_target(body, target)
        }),
{
    lemma_names();
    let list = output::denial_body(policy_name, target, denial)->Object_0;
    let port = Json::Number(NumberModel::Integer(target.port as int));
    lemma_found(list, 0, "error"@, Json::Text("middleware_denied"@));
    lemma_found(list, 2, "policy"@, Json::Text(policy_name));
    lemma_found(list, 3, "middleware"@, Json::Text(denial.config_name@));
    match denial.reason_code {
        Some(code) => {
            lemma_found(list, 4, "reason_code"@, Json::Text(code@));
            lemma_found(list, 5, "layer"@, Json::Text("http_response_pre_return"@));
            lemma_found(list, 6, "method"@, Json::Text(target.method@));
            lemma_found(list, 7, "path"@, Json::Text(target.path@));
            lemma_found(list, 8, "host"@, Json::Text(target.host@));
            lemma_found(list, 9, "port"@, port);
        },
        None => {
            json::lemma_position(list, "reason_code"@);
            lemma_found(list, 4, "layer"@, Json::Text("http_response_pre_return"@));
            lemma_found(list, 5, "method"@, Json::Text(target.method@));
            lemma_found(list, 6, "path"@, Json::Text(target.path@));
            lemma_found(list, 7, "host"@, Json::Text(target.host@));
            lemma_found(list, 8, "port"@, port);
        },
    }
}

/// The body that tells a client of a delivery failure says so, under which policy
/// and for which request.
pub proof fn delivery_failure_is_told(policy_name: Seq<char>, target: HttpRequestTarget)
    ensures
        ({
            let body = output::failure_body(policy_name, target);
            &&& body.field("error"@) == Some(Json::Text("response_delivery_failed"@))
            &&& body.field("policy"@) == Some(Json::Text(policy_name))
            &&& body.field("layer"@) == Some(Json::Text("http_response_pre_return"@))
            &&& body.field("middleware"@) is None
            &&& tells_of_target(body, target)
        }),
{
    lemma_names();
    let list = output::failure_body(policy_name, target)->Object_0;
    lemma_found(list, 0, "error"@, Json::Text("response_delivery_failed"@));
    lemma_found(list, 2, "policy"@, Json::Text(policy_name));
    lemma_found(list, 3, "layer"@, Json::Text("http_response_pre_return"@));
    lemma_found(list, 4, "method"@, Json::Text(target.method@));
    lemma_found(list, 5, "path"@, Json::Text(target.path@));
    lemma_found(list, 6, "host"@, Json::Text(target.host@));
    lemma_found(
        list,
        7,
        "port"@,
        Json::Number(NumberModel::Integer(target.port as int)),
    );
    json::lemma_position(list, "middleware"@);
}

/// The message of an event names the configuration, the middleware, the outcome, the
/// sequence number, the size of the input, and whether the middleware failed, in
/// this order.
pub proof fn event_message_names_the_invocation(
    policy_name: Seq<char>,
    target: HttpRequestTarget,
    status_code: u16,
    invocation: HttpResponseInvocation,
    number: u64,
)
    requires
        invocation.sequence == Some(number),
    ensures
        events::invocation_event(policy_name, target, status_code, invocation).message
            == "HTTP_RESPONSE_MIDDLEWARE config="@ + invocation.config_name@ + " implementation="@
            + invocation.implementation@ + " outcome="@ + text::lowered(invocation.outcome@)
            + " sequence="@ + crate::numeral::numeral(
            number as nat,
            crate::numeral::Base::Decimal,
        ) + " input_bytes="@ + crate::numeral::numeral(
            invocation.input_size as nat,
            crate::numeral::Base::Decimal,
        ) + " failed="@ + if invocation.failed {
            "true"@
        } else {
            "false"@
        },
{
}

} // verus!
