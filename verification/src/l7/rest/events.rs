//! Events that the response relay reports.

use crate::l7::rest::output::HttpRequestTarget;
use crate::numeral;
use crate::numeral::{numeral_of, Base};
use crate::text;
use crate::text::{same, to_lower};
use vstd::prelude::*;

verus! {

/// One invocation of a response middleware.
#[derive(Debug)]
pub struct HttpResponseInvocation {
    pub config_name: String,
    pub implementation: String,
    /// The name of the outcome, such as `BlockDelivery` or `FailOpen`.
    pub outcome: String,
    pub sequence: Option<u64>,
    pub input_size: u64,
    pub failed: bool,
    pub failure_category: Option<String>,
}

/// What was done with the response.
#[derive(Debug, Clone, Copy, PartialEq, Eq, Structural)]
pub enum EventAction {
    Denied,
    Other,
    Allowed,
}

/// What became of the response.
#[derive(Debug, Clone, Copy, PartialEq, Eq, Structural)]
pub enum EventDisposition {
    Blocked,
    Failed,
    Allowed,
}

/// How severe an event is.
#[derive(Debug, Clone, Copy, PartialEq, Eq, Structural)]
pub enum EventSeverity {
    Informational,
    Medium,
    High,
}

/// The kind of an activity.
#[derive(Debug, Clone, Copy, PartialEq, Eq, Structural)]
pub enum EventActivity {
    Other,
}

/// An HTTP activity of a response middleware.
#[derive(Debug)]
pub struct InvocationEvent {
    pub activity: EventActivity,
    pub action: EventAction,
    pub disposition: EventDisposition,
    pub severity: EventSeverity,
    pub success: bool,
    /// The method of the request.
    pub method: String,
    /// The URL of the request.
    pub url_scheme: String,
    pub url_host: String,
    pub url_path: String,
    pub url_port: u16,
    /// The endpoint that the request went to.
    pub destination_domain: String,
    pub destination_port: u16,
    pub status_code: u16,
    /// The rule that selected the middleware, and its type.
    pub policy_name: String,
    pub rule_type: String,
    pub config_name: String,
    pub implementation: String,
    pub outcome: String,
    pub sequence: u64,
    pub input_bytes: u64,
    pub failed: bool,
    pub message: String,
}

/// What an [`InvocationEvent`] denotes.
#[verifier::ext_equal]
pub struct InvocationEventModel {
    pub activity: EventActivity,
    pub action: EventAction,
    pub disposition: EventDisposition,
    pub severity: EventSeverity,
    pub success: bool,
    pub method: Seq<char>,
    pub url_scheme: Seq<char>,
    pub url_host: Seq<char>,
    pub url_path: Seq<char>,
    pub url_port: u16,
    pub destination_domain: Seq<char>,
    pub destination_port: u16,
    pub status_code: u16,
    pub policy_name: Seq<char>,
    pub rule_type: Seq<char>,
    pub config_name: Seq<char>,
    pub implementation: Seq<char>,
    pub outcome: Seq<char>,
    pub sequence: u64,
    pub input_bytes: u64,
    pub failed: bool,
    pub message: Seq<char>,
}

impl View for InvocationEvent {
    type V = InvocationEventModel;

    open spec fn view(&self) -> InvocationEventModel {
        InvocationEventModel {
            activity: self.activity,
            action: self.action,
            disposition: self.disposition,
            severity: self.severity,
            success: self.success,
            method: self.method@,
            url_scheme: self.url_scheme@,
            url_host: self.url_host@,
            url_path: self.url_path@,
            url_port: self.url_port,
            destination_domain: self.destination_domain@,
            destination_port: self.destination_port,
            status_code: self.status_code,
            policy_name: self.policy_name@,
            rule_type: self.rule_type@,
            config_name: self.config_name@,
            implementation: self.implementation@,
            outcome: self.outcome@,
            sequence: self.sequence,
            input_bytes: self.input_bytes,
            failed: self.failed,
            message: self.message@,
        }
    }
}

/// What a list of events denotes.
pub open spec fn events_of(list: Seq<InvocationEvent>) -> Seq<InvocationEventModel> {
    list.map_values(|event: InvocationEvent| event@)
}

/// Whether an invocation blocked delivery.
pub open spec fn blocked(invocation: HttpResponseInvocation) -> bool {
    invocation.outcome@ == "BlockDelivery"@
}

/// The sequence number of an invocation, or zero.
pub open spec fn sequence_of(invocation: HttpResponseInvocation) -> u64 {
    match invocation.sequence {
        Some(n) => n,
        None => 0,
    }
}

/// A truth value as text.
pub open spec fn truth(b: bool) -> Seq<char> {
    if b {
        "true"@
    } else {
        "false"@
    }
}

/// The message of an invocation.
pub open spec fn invocation_message(invocation: HttpResponseInvocation) -> Seq<char> {
    "HTTP_RESPONSE_MIDDLEWARE config="@ + invocation.config_name@ + " implementation="@
        + invocation.implementation@ + " outcome="@ + text::lowered(invocation.outcome@)
        + " sequence="@ + numeral::numeral(sequence_of(invocation) as nat, Base::Decimal)
        + " input_bytes="@ + numeral::numeral(invocation.input_size as nat, Base::Decimal)
        + " failed="@ + truth(invocation.failed)
}

/// The port of a target, or zero where it is none.
pub open spec fn port_of(target: HttpRequestTarget) -> u16 {
    if target.port <= u16::MAX {
        target.port as u16
    } else {
        0
    }
}

/// The event of an invocation.
pub open spec fn invocation_event(
    policy_name: Seq<char>,
    target: HttpRequestTarget,
    status_code: u16,
    invocation: HttpResponseInvocation,
) -> InvocationEventModel {
    let blocks = blocked(invocation);
    let failed = invocation.failed;
    InvocationEventModel {
        activity: EventActivity::Other,
        action: if blocks {
            EventAction::Denied
        } else if failed {
            EventAction::Other
        } else {
            EventAction::Allowed
        },
        disposition: if blocks {
            EventDisposition::Blocked
        } else if failed {
            EventDisposition::Failed
        } else {
            EventDisposition::Allowed
        },
        severity: if failed || blocks {
            EventSeverity::Medium
        } else {
            EventSeverity::Informational
        },
        success: !(failed || blocks),
        method: target.method@,
        url_scheme: target.scheme@,
        url_host: target.host@,
        url_path: target.path@,
        url_port: port_of(target),
        destination_domain: target.host@,
        destination_port: port_of(target),
        status_code,
        policy_name,
        rule_type: "supervisor-middleware"@,
        config_name: invocation.config_name@,
        implementation: invocation.implementation@,
        outcome: text::lowered(invocation.outcome@),
        sequence: sequence_of(invocation),
        input_bytes: invocation.input_size,
        failed,
        message: invocation_message(invocation),
    }
}

/// The event of one invocation.
pub fn event_of_invocation(
    policy_name: &str,
    target: &HttpRequestTarget,
    status_code: u16,
    invocation: &HttpResponseInvocation,
) -> (event: InvocationEvent)
    ensures
        event@ == invocation_event(policy_name@, *target, status_code, *invocation),
{
    let outcome = to_lower(invocation.outcome.as_str());
    let failed = invocation.failed;
    let blocks = same(invocation.outcome.as_str(), "BlockDelivery");
    let sequence: u64 = match invocation.sequence {
        Some(n) => n,
        None => 0,
    };
    let port: u16 = if target.port <= u16::MAX as u32 {
        target.port as u16
    } else {
        0
    };
    let mut message = "HTTP_RESPONSE_MIDDLEWARE config=".to_string();
    message.append(invocation.config_name.as_str());
    message.append(" implementation=");
    message.append(invocation.implementation.as_str());
    message.append(" outcome=");
    message.append(outcome.as_str());
    message.append(" sequence=");
    message.append(numeral_of(sequence, Base::Decimal).as_str());
    message.append(" input_bytes=");
    message.append(numeral_of(invocation.input_size, Base::Decimal).as_str());
    message.append(" failed=");
    if failed {
        message.append("true");
    } else {
        message.append("false");
    }
    InvocationEvent {
        activity: EventActivity::Other,
        action: if blocks {
            EventAction::Denied
        } else if failed {
            EventAction::Other
        } else {
            EventAction::Allowed
        },
        disposition: if blocks {
            EventDisposition::Blocked
        } else if failed {
            EventDisposition::Failed
        } else {
            EventDisposition::Allowed
        },
        severity: if failed || blocks {
            EventSeverity::Medium
        } else {
            EventSeverity::Informational
        },
        success: !(failed || blocks),
        method: target.method.clone(),
        url_scheme: target.scheme.clone(),
        url_host: target.host.clone(),
        url_path: target.path.clone(),
        url_port: port,
        destination_domain: target.host.clone(),
        destination_port: port,
        status_code,
        policy_name: policy_name.to_string(),
        rule_type: "supervisor-middleware".to_string(),
        config_name: invocation.config_name.clone(),
        implementation: invocation.implementation.clone(),
        outcome,
        sequence,
        input_bytes: invocation.input_size,
        failed,
        message,
    }
}

/// The events of invocations, in order.
pub fn http_response_middleware_invocation_events(
    policy_name: &str,
    target: &HttpRequestTarget,
    status_code: u16,
    invocations: &Vec<HttpResponseInvocation>,
) -> (events: Vec<InvocationEvent>)
    ensures
        events_of(events@) == invocations@.map_values(
            |invocation: HttpResponseInvocation|
                invocation_event(policy_name@, *target, status_code, invocation),
        ),
{
    let ghost all = invocations@.map_values(
        |invocation: HttpResponseInvocation|
            invocation_event(policy_name@, *target, status_code, invocation),
    );
    let mut events: Vec<InvocationEvent> = Vec::new();
    let mut i: usize = 0;
    while i < invocations.len()
        invariant
            i <= invocations@.len(),
            all == invocations@.map_values(
                |invocation: HttpResponseInvocation|
                    invocation_event(policy_name@, *target, status_code, invocation),
            ),
            events_of(events@) == all.take(i as int),
        decreases invocations@.len() - i,
    {
        let event = event_of_invocation(policy_name, target, status_code, &invocations[i]);
        let ghost model = event@;
        let ghost before = events_of(events@);
        events.push(event);
        assert(events_of(events@) == before.push(model));
        assert(all.take(i + 1) == before.push(model));
        i += 1;
    }
    assert(all.take(i as int) == all);
    events
}

/// A finding that the relay reports.
#[derive(Debug)]
pub struct FindingEvent {
    pub severity: EventSeverity,
    pub id: String,
    pub title: String,
    /// Evidence, as names and values in order.
    pub evidence: Vec<(String, String)>,
    /// Further attributes, as names and values in order.
    pub attributes: Vec<(String, String)>,
    pub message: String,
}

/// What a [`FindingEvent`] denotes.
#[verifier::ext_equal]
pub struct FindingModel {
    pub severity: EventSeverity,
    pub id: Seq<char>,
    pub title: Seq<char>,
    pub evidence: Seq<(Seq<char>, Seq<char>)>,
    pub attributes: Seq<(Seq<char>, Seq<char>)>,
    pub message: Seq<char>,
}

/// What evidence denotes.
pub open spec fn evidence_of(list: Seq<(String, String)>) -> Seq<(Seq<char>, Seq<char>)> {
    list.map_values(|pair: (String, String)| (pair.0@, pair.1@))
}

impl View for FindingEvent {
    type V = FindingModel;

    open spec fn view(&self) -> FindingModel {
        FindingModel {
            severity: self.severity,
            id: self.id@,
            title: self.title@,
            evidence: evidence_of(self.evidence@),
            attributes: evidence_of(self.attributes@),
            message: self.message@,
        }
    }
}

/// The finding, if there is one.
pub open spec fn finding_of(event: Option<FindingEvent>) -> Option<FindingModel> {
    match event {
        Some(event) => Some(event@),
        None => None,
    }
}

/// The evidence that findings on an invocation share.
pub open spec fn invocation_evidence(
    policy_name: Seq<char>,
    target: HttpRequestTarget,
    invocation: HttpResponseInvocation,
) -> Seq<(Seq<char>, Seq<char>)> {
    seq![
        ("policy"@, policy_name),
        ("middleware_config"@, invocation.config_name@),
        ("middleware_implementation"@, invocation.implementation@),
        ("host"@, target.host@),
        ("phase"@, "pre_return"@),
    ]
}

/// The attributes that findings on an invocation share.
pub open spec fn invocation_attributes(invocation: HttpResponseInvocation) -> Seq<
    (Seq<char>, Seq<char>),
> {
    seq![
        ("middleware_config"@, invocation.config_name@),
        ("middleware_implementation"@, invocation.implementation@),
        ("phase"@, "pre_return"@),
    ]
}

fn push_evidence(list: &mut Vec<(String, String)>, key: &str, value: &str)
    ensures
        evidence_of(final(list)@) == evidence_of(old(list)@).push((key@, value@)),
{
    let ghost before = evidence_of(list@);
    let pair = (key.to_string(), value.to_string());
    list.push(pair);
    assert(evidence_of(list@) == before.push((pair.0@, pair.1@)));
}

fn evidence_of_invocation(
    policy_name: &str,
    target: &HttpRequestTarget,
    invocation: &HttpResponseInvocation,
) -> (list: Vec<(String, String)>)
    ensures
        evidence_of(list@) == invocation_evidence(policy_name@, *target, *invocation),
{
    let mut list: Vec<(String, String)> = Vec::new();
    push_evidence(&mut list, "policy", policy_name);
    push_evidence(&mut list, "middleware_config", invocation.config_name.as_str());
    push_evidence(&mut list, "middleware_implementation", invocation.implementation.as_str());
    push_evidence(&mut list, "host", target.host.as_str());
    push_evidence(&mut list, "phase", "pre_return");
    assert(evidence_of(list@) == invocation_evidence(policy_name@, *target, *invocation));
    list
}

fn attributes_of_invocation(invocation: &HttpResponseInvocation) -> (list: Vec<(String, String)>)
    ensures
        evidence_of(list@) == invocation_attributes(*invocation),
{
    let mut list: Vec<(String, String)> = Vec::new();
    push_evidence(&mut list, "middleware_config", invocation.config_name.as_str());
    push_evidence(&mut list, "middleware_implementation", invocation.implementation.as_str());
    push_evidence(&mut list, "phase", "pre_return");
    assert(evidence_of(list@) == invocation_attributes(*invocation));
    list
}

/// The finding on an invocation that blocked delivery.
pub open spec fn block_finding(
    policy_name: Seq<char>,
    target: HttpRequestTarget,
    invocation: HttpResponseInvocation,
) -> Option<FindingModel> {
    if !blocked(invocation) {
        None
    } else {
        Some(
            FindingModel {
                severity: EventSeverity::Medium,
                id: "openshell.middleware.http_response_blocked"@,
                title: "HTTP response blocked by middleware"@,
                evidence: invocation_evidence(policy_name, target, invocation),
                attributes: invocation_attributes(invocation),
                message: "HTTP response delivery blocked by middleware"@,
            },
        )
    }
}

/// The finding on an invocation that blocked delivery.
pub fn http_response_middleware_block_finding_event(
    policy_name: &str,
    target: &HttpRequestTarget,
    invocation: &HttpResponseInvocation,
) -> (event: Option<FindingEvent>)
    ensures
        finding_of(event) == block_finding(policy_name@, *target, *invocation),
{
    if !same(invocation.outcome.as_str(), "BlockDelivery") {
        return None;
    }
    Some(
        FindingEvent {
            severity: EventSeverity::Medium,
            id: "openshell.middleware.http_response_blocked".to_string(),
            title: "HTTP response blocked by middleware".to_string(),
            evidence: evidence_of_invocation(policy_name, target, invocation),
            attributes: attributes_of_invocation(invocation),
            message: "HTTP response delivery blocked by middleware".to_string(),
        },
    )
}

/// The category of a failure.
pub open spec fn failure_category_of(invocation: HttpResponseInvocation) -> Seq<char> {
    match invocation.failure_category {
        Some(category) => category@,
        None => "middleware_failure"@,
    }
}

/// The finding on an invocation that failed open.
pub open spec fn fail_open_finding(
    policy_name: Seq<char>,
    target: HttpRequestTarget,
    invocation: HttpResponseInvocation,
) -> Option<FindingModel> {
    if !invocation.failed || invocation.outcome@ != "FailOpen"@ {
        None
    } else {
        Some(
            FindingModel {
                severity: EventSeverity::Medium,
                id: "openshell.middleware.http_response_fail_open"@,
                title: "HTTP response middleware failed open"@,
                evidence: invocation_evidence(policy_name, target, invocation).push(
                    ("failure_category"@, failure_category_of(invocation)),
                ),
                attributes: invocation_attributes(invocation).push(
                    ("failure_category"@, failure_category_of(invocation)),
                ),
                message: "HTTP response middleware failed and response inspection was bypassed"@,
            },
        )
    }
}

/// The finding on an invocation that failed open.
pub fn http_response_middleware_fail_open_finding_event(
    policy_name: &str,
    target: &HttpRequestTarget,
    invocation: &HttpResponseInvocation,
) -> (event: Option<FindingEvent>)
    ensures
        finding_of(event) == fail_open_finding(policy_name@, *target, *invocation),
{
    if !invocation.failed || !same(invocation.outcome.as_str(), "FailOpen") {
        return None;
    }
    let mut evidence = evidence_of_invocation(policy_name, target, invocation);
    let mut attributes = attributes_of_invocation(invocation);
    match &invocation.failure_category {
        Some(category) => {
            push_evidence(&mut evidence, "failure_category", category.as_str());
            push_evidence(&mut attributes, "failure_category", category.as_str());
        },
        None => {
            push_evidence(&mut evidence, "failure_category", "middleware_failure");
            push_evidence(&mut attributes, "failure_category", "middleware_failure");
        },
    }
    Some(
        FindingEvent {
            severity: EventSeverity::Medium,
            id: "openshell.middleware.http_response_fail_open".to_string(),
            title: "HTTP response middleware failed open".to_string(),
            evidence,
            attributes,
            message: "HTTP response middleware failed and response inspection was bypassed".to_string(),
        },
    )
}

/// The finding on a delivery failure.
pub open spec fn failure_finding(
    policy_name: Seq<char>,
    target: HttpRequestTarget,
    status_code: u16,
    committed: bool,
) -> FindingModel {
    FindingModel {
        severity: EventSeverity::High,
        id: "openshell.middleware.http_response_failure"@,
        title: "HTTP response middleware delivery failure"@,
        evidence: seq![
            ("policy"@, policy_name),
            ("host"@, target.host@),
            (
                "commitment"@,
                if committed {
                    "after_commit"@
                } else {
                    "before_commit"@
                },
            ),
            ("upstream_status"@, numeral::numeral(status_code as nat, Base::Decimal)),
        ],
        attributes: seq![],
        message: if committed {
            "HTTP response middleware failed after response commitment"@
        } else {
            "HTTP response middleware failed before response commitment"@
        },
    }
}

/// The finding on a delivery failure.
pub fn http_response_middleware_failure_event(
    policy_name: &str,
    target: &HttpRequestTarget,
    status_code: u16,
    committed: bool,
) -> (event: FindingEvent)
    ensures
        event@ == failure_finding(policy_name@, *target, status_code, committed),
{
    let mut evidence: Vec<(String, String)> = Vec::new();
    push_evidence(&mut evidence, "policy", policy_name);
    push_evidence(&mut evidence, "host", target.host.as_str());
    if committed {
        push_evidence(&mut evidence, "commitment", "after_commit");
    } else {
        push_evidence(&mut evidence, "commitment", "before_commit");
    }
    let status = numeral_of(status_code as u64, Base::Decimal);
    push_evidence(&mut evidence, "upstream_status", status.as_str());
    let event = FindingEvent {
        severity: EventSeverity::High,
        id: "openshell.middleware.http_response_failure".to_string(),
        title: "HTTP response middleware delivery failure".to_string(),
        evidence,
        attributes: Vec::new(),
        message: if committed {
            "HTTP response middleware failed after response commitment".to_string()
        } else {
            "HTTP response middleware failed before response commitment".to_string()
        },
    };
    assert(event@.attributes == Seq::<(Seq<char>, Seq<char>)>::empty());
    assert(event@.evidence == failure_finding(
        policy_name@,
        *target,
        status_code,
        committed,
    ).evidence);
    event
}

} // verus!
