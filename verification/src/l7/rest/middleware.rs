//! Relaying a response through middleware: what is decided at each point, and
//! what is written.

use crate::bytes::append_bytes;
use crate::l7::provider::BodyLength;
use crate::l7::rest::body;
use crate::l7::rest::head;
use crate::l7::rest::head::{HeaderModel, HttpHeader};
use crate::l7::rest::output;
use crate::l7::rest::output::{
    response_chunk, response_trailers, serialize_response_head, strip_response_integrity_headers,
    ResponseFraming,
};
use crate::l7::rest::relay;
use crate::l7::rest::relay::RelayOutcome;
use crate::text;
use crate::text::without_prefix;
use vstd::prelude::*;

verus! {

/// Why a middleware session is ended before it finishes.
#[derive(Debug, Clone, Copy, PartialEq, Eq, Structural)]
pub enum SessionEnd {
    PolicyReload,
    DownstreamDisconnect,
    UpstreamDisconnect,
    MiddlewareDenial,
    MiddlewareFailure,
}

/// The response that the client gets in place of the upstream response.
#[derive(Debug, Clone, Copy, PartialEq, Eq, Structural)]
pub enum Reply {
    /// A middleware denied the response.
    Denial,
    /// The response could not be delivered.
    Failure,
}

/// Whether a failure came before or after the client got response bytes.
#[derive(Debug, Clone, Copy, PartialEq, Eq, Structural)]
pub enum Commitment {
    BeforeCommit,
    AfterCommit,
}

/// Why the relay gives up on the connection.
#[derive(Debug, Clone, Copy, PartialEq, Eq, Structural)]
pub enum RelayFailure {
    /// The policy generation is stale.
    StalePolicy,
    /// The status line cannot be used.
    StatusLine,
    /// The head could not be written to the client.
    HeadWrite,
    /// The body failed after response bytes were delivered.
    BodyAfterCommit,
    /// Finishing failed after response bytes were delivered.
    FinishAfterCommit,
    /// The event does not fit the phase.
    Unexpected,
}

/// What is done next.
#[derive(Debug, Clone, Copy, PartialEq, Eq, Structural)]
pub enum Next {
    /// Ask the chain for its response stages.
    Describe,
    /// Run the preflight of the stages.
    Preflight,
    /// Relay the response as it came.
    PassThrough,
    /// Write the changed head and relay the body as it came.
    HeadersOnly,
    /// Write the streaming head.
    WriteHead,
    /// Relay the body through the session.
    RelayBody,
    /// Finish the session.
    FinishSession,
    /// Write the head of a bodiless response.
    DeliverBodiless(RelayOutcome),
    /// Write what the session finished with; `whole` says that no byte was
    /// delivered before, so head and framing come with it.
    Deliver { whole: bool, outcome: RelayOutcome },
    /// The response is dealt with.
    Complete(RelayOutcome),
    /// Give up on the connection.
    Fail(RelayFailure),
}

/// What is decided at one point, in the order in which it is done.
#[derive(Debug, Clone, Copy, PartialEq, Eq, Structural)]
pub struct Decision {
    /// End the session.
    pub end_session: Option<SessionEnd>,
    /// Report the diagnostics of the session.
    pub diagnostics: bool,
    /// Report a delivery failure.
    pub report: Option<Commitment>,
    /// Reply to the client.
    pub reply: Option<Reply>,
    pub next: Next,
}

/// Where the relay stands.
#[derive(Debug, Clone, Copy, PartialEq, Eq, Structural)]
pub enum RelayPhase {
    Start,
    Describing,
    Preflighting,
    FinishingBodiless,
    WritingHead,
    RelayingBody,
    Finishing,
    Over,
}

/// What the chain says of its response stages.
#[derive(Debug, Clone, Copy, PartialEq, Eq, Structural)]
pub enum Description {
    /// There are none.
    NoStages,
    /// There are some, and the response head could be normalized.
    Stages,
    /// Describing, or normalizing the head, failed.
    Failed,
}

/// What the preflight says.
#[derive(Debug, Clone, Copy, PartialEq, Eq, Structural)]
pub enum PreflightResult {
    Failed,
    /// The response is blocked, with a denial to tell the client or without.
    /// There may be a session all the same.
    Blocked { denial: bool, session: bool },
    /// No stage wants the body.
    NoSession { headers_unchanged: bool, status_line_valid: bool },
    /// A session takes the body.
    Session { whole_body: bool, status_line_valid: bool },
}

/// How the relay of a body ended.
#[derive(Debug, Clone, Copy, PartialEq, Eq, Structural)]
pub enum BodyResult {
    Complete,
    /// The client could not be written to.
    DownstreamWrite,
    /// A middleware stopped delivery, with a denial or without.
    MiddlewareStop { denial: bool },
    /// Anything else.
    Upstream,
}

/// How finishing a session ended.
#[derive(Debug, Clone, Copy, PartialEq, Eq, Structural)]
pub enum FinishResult {
    Finished,
    Failed { denial: bool },
}

/// What happened. `stale` says that the policy generation changed.
#[derive(Debug, Clone, Copy, PartialEq, Eq, Structural)]
pub enum RelayEvent {
    Started { chain_empty: bool, stale: bool },
    Described { description: Description, stale: bool },
    Preflighted { preflight: PreflightResult, stale: bool },
    HeadWritten { success: bool },
    BodyRelayed { body: BodyResult, committed: bool, stale: bool },
    SessionFinished { finish: FinishResult, stale: bool },
}

/// The relay of one response through middleware.
#[derive(Debug, Clone, Copy, PartialEq, Eq, Structural)]
pub struct MiddlewareRelay {
    pub phase: RelayPhase,
    /// Whether the response has no body.
    pub bodiless: bool,
    /// Whether the client takes chunks.
    pub supports_chunked: bool,
    /// Whether the connection closes behind the response.
    pub server_wants_close: bool,
    /// Whether only the end of the connection ends the body.
    pub until_eof: bool,
    /// Whether a stage needs the whole body before delivery.
    pub whole_body: bool,
    /// Whether response bytes may have reached the client.
    pub committed: bool,
}

/// A decision that only goes on.
pub open spec fn go_on(next: Next) -> Decision {
    Decision { end_session: None, diagnostics: false, report: None, reply: None, next }
}

/// The decision to tell the client of a failure before anything was delivered.
pub open spec fn reply_failure() -> Decision {
    Decision {
        end_session: None,
        diagnostics: false,
        report: Some(Commitment::BeforeCommit),
        reply: Some(Reply::Failure),
        next: Next::Complete(RelayOutcome::Consumed),
    }
}

/// The decision to tell the client of a denial.
pub open spec fn reply_denial() -> Decision {
    Decision {
        end_session: None,
        diagnostics: false,
        report: None,
        reply: Some(Reply::Denial),
        next: Next::Complete(RelayOutcome::Consumed),
    }
}

/// Why a session ends whose body failed.
pub open spec fn body_end_reason(result: BodyResult, stale: bool) -> SessionEnd {
    if stale {
        SessionEnd::PolicyReload
    } else {
        match result {
            BodyResult::DownstreamWrite => SessionEnd::DownstreamDisconnect,
            BodyResult::MiddlewareStop { denial } => if denial {
                SessionEnd::MiddlewareDenial
            } else {
                SessionEnd::MiddlewareFailure
            },
            _ => SessionEnd::UpstreamDisconnect,
        }
    }
}

/// What is decided when a session's body failed.
pub open spec fn body_failure(result: BodyResult, committed: bool, stale: bool) -> Decision {
    let end_session = Some(body_end_reason(result, stale));
    if committed {
        Decision {
            end_session,
            diagnostics: false,
            report: Some(Commitment::AfterCommit),
            reply: None,
            next: Next::Fail(RelayFailure::BodyAfterCommit),
        }
    } else if result == (BodyResult::MiddlewareStop { denial: true }) {
        Decision { end_session, ..reply_denial() }
    } else {
        Decision { end_session, ..reply_failure() }
    }
}

/// What is decided when a session could not finish.
pub open spec fn finish_failure(denial: bool, committed: bool) -> Decision {
    if committed {
        Decision {
            end_session: None,
            diagnostics: true,
            report: Some(Commitment::AfterCommit),
            reply: None,
            next: Next::Fail(RelayFailure::FinishAfterCommit),
        }
    } else if denial {
        Decision { diagnostics: true, ..reply_denial() }
    } else {
        Decision { diagnostics: true, ..reply_failure() }
    }
}

/// Whether a preflight leaves a session behind.
pub open spec fn holds_session(result: PreflightResult) -> bool {
    match result {
        PreflightResult::Session { .. } => true,
        PreflightResult::Blocked { session, .. } => session,
        _ => false,
    }
}

/// What is decided at an event, and where the relay stands then.
pub open spec fn relay_transition(relay: MiddlewareRelay, event: RelayEvent) -> (
    MiddlewareRelay,
    Decision,
) {
    let over = MiddlewareRelay { phase: RelayPhase::Over, ..relay };
    let stale_failure = go_on(Next::Fail(RelayFailure::StalePolicy));
    match (relay.phase, event) {
        (RelayPhase::Start, RelayEvent::Started { chain_empty, stale }) => if stale {
            (over, stale_failure)
        } else if chain_empty {
            (over, go_on(Next::PassThrough))
        } else {
            (MiddlewareRelay { phase: RelayPhase::Describing, ..relay }, go_on(Next::Describe))
        },
        (RelayPhase::Describing, RelayEvent::Described { description, stale }) => if description
            == Description::NoStages {
            (over, go_on(Next::PassThrough))
        } else if stale {
            (over, stale_failure)
        } else if description == Description::Failed {
            (over, reply_failure())
        } else {
            (MiddlewareRelay { phase: RelayPhase::Preflighting, ..relay }, go_on(Next::Preflight))
        },
        (RelayPhase::Preflighting, RelayEvent::Preflighted { preflight: result, stale }) => match result {
            PreflightResult::Failed => (over, reply_failure()),
            _ if stale => (
                over,
                Decision {
                    end_session: if holds_session(result) {
                        Some(SessionEnd::PolicyReload)
                    } else {
                        None
                    },
                    ..stale_failure
                },
            ),
            PreflightResult::Blocked { denial, .. } => if denial {
                (over, reply_denial())
            } else {
                (over, reply_failure())
            },
            PreflightResult::NoSession { headers_unchanged, status_line_valid } => if headers_unchanged {
                (over, go_on(Next::PassThrough))
            } else if !status_line_valid {
                (over, go_on(Next::Fail(RelayFailure::StatusLine)))
            } else {
                (over, go_on(Next::HeadersOnly))
            },
            PreflightResult::Session { whole_body, status_line_valid } => if !status_line_valid {
                (over, go_on(Next::Fail(RelayFailure::StatusLine)))
            } else if relay.bodiless {
                (
                    MiddlewareRelay { phase: RelayPhase::FinishingBodiless, ..relay },
                    go_on(Next::FinishSession),
                )
            } else if whole_body {
                (
                    MiddlewareRelay { phase: RelayPhase::RelayingBody, whole_body: true, ..relay },
                    go_on(Next::RelayBody),
                )
            } else {
                (
                    MiddlewareRelay {
                        phase: RelayPhase::WritingHead,
                        whole_body: false,
                        committed: true,
                        ..relay
                    },
                    go_on(Next::WriteHead),
                )
            },
        },
        (RelayPhase::FinishingBodiless, RelayEvent::SessionFinished { finish: result, stale }) => if result
            != FinishResult::Finished {
            (
                over,
                Decision { diagnostics: true, report: None, ..reply_failure() },
            )
        } else if stale {
            (over, stale_failure)
        } else {
            (over, go_on(Next::DeliverBodiless(relay::outcome_of(relay.server_wants_close))))
        },
        (RelayPhase::WritingHead, RelayEvent::HeadWritten { success }) => if success {
            (MiddlewareRelay { phase: RelayPhase::RelayingBody, ..relay }, go_on(Next::RelayBody))
        } else {
            (
                over,
                Decision {
                    end_session: Some(SessionEnd::DownstreamDisconnect),
                    ..go_on(Next::Fail(RelayFailure::HeadWrite))
                },
            )
        },
        (RelayPhase::RelayingBody, RelayEvent::BodyRelayed { body: result, committed, stale }) => {
            let now = relay.committed || committed;
            if result != BodyResult::Complete {
                (
                    MiddlewareRelay { committed: now, ..over },
                    body_failure(result, now, stale),
                )
            } else if stale {
                (
                    MiddlewareRelay { committed: now, ..over },
                    Decision { end_session: Some(SessionEnd::PolicyReload), ..stale_failure },
                )
            } else {
                (
                    MiddlewareRelay { phase: RelayPhase::Finishing, committed: now, ..relay },
                    go_on(Next::FinishSession),
                )
            }
        },
        (RelayPhase::Finishing, RelayEvent::SessionFinished { finish: result, stale }) => match result {
            FinishResult::Failed { denial } => (over, finish_failure(denial, relay.committed)),
            FinishResult::Finished => if stale {
                (over, stale_failure)
            } else {
                (
                    over,
                    go_on(
                        Next::Deliver {
                            whole: relay.whole_body && !relay.committed,
                            outcome: relay::outcome_of(
                                (relay.committed && !relay.supports_chunked) || relay.until_eof,
                            ),
                        },
                    ),
                )
            },
        },
        _ => (over, go_on(Next::Fail(RelayFailure::Unexpected))),
    }
}

fn proceed(next: Next) -> (d: Decision)
    ensures
        d == go_on(next),
{
    Decision { end_session: None, diagnostics: false, report: None, reply: None, next }
}

fn failure_reply() -> (d: Decision)
    ensures
        d == reply_failure(),
{
    Decision {
        end_session: None,
        diagnostics: false,
        report: Some(Commitment::BeforeCommit),
        reply: Some(Reply::Failure),
        next: Next::Complete(RelayOutcome::Consumed),
    }
}

fn denial_reply() -> (d: Decision)
    ensures
        d == reply_denial(),
{
    Decision {
        end_session: None,
        diagnostics: false,
        report: None,
        reply: Some(Reply::Denial),
        next: Next::Complete(RelayOutcome::Consumed),
    }
}

fn decide_body_failure(result: BodyResult, committed: bool, stale: bool) -> (d: Decision)
    ensures
        d == body_failure(result, committed, stale),
{
    let end_session = if stale {
        Some(SessionEnd::PolicyReload)
    } else {
        match result {
            BodyResult::DownstreamWrite => Some(SessionEnd::DownstreamDisconnect),
            BodyResult::MiddlewareStop { denial } => if denial {
                Some(SessionEnd::MiddlewareDenial)
            } else {
                Some(SessionEnd::MiddlewareFailure)
            },
            _ => Some(SessionEnd::UpstreamDisconnect),
        }
    };
    let denied = match result {
        BodyResult::MiddlewareStop { denial } => denial,
        _ => false,
    };
    let mut d = if committed {
        Decision {
            end_session: None,
            diagnostics: false,
            report: Some(Commitment::AfterCommit),
            reply: None,
            next: Next::Fail(RelayFailure::BodyAfterCommit),
        }
    } else if denied {
        denial_reply()
    } else {
        failure_reply()
    };
    d.end_session = end_session;
    d
}

fn decide_finish_failure(denial: bool, committed: bool) -> (d: Decision)
    ensures
        d == finish_failure(denial, committed),
{
    let mut d = if committed {
        Decision {
            end_session: None,
            diagnostics: true,
            report: Some(Commitment::AfterCommit),
            reply: None,
            next: Next::Fail(RelayFailure::FinishAfterCommit),
        }
    } else if denial {
        denial_reply()
    } else {
        failure_reply()
    };
    d.diagnostics = true;
    d
}

fn outcome(closes: bool) -> (r: RelayOutcome)
    ensures
        r == relay::outcome_of(closes),
{
    if closes {
        RelayOutcome::Consumed
    } else {
        RelayOutcome::Reusable
    }
}

impl MiddlewareRelay {
    /// The relay of a response before anything was done.
    pub fn start(
        status_line: &str,
        bodiless: bool,
        body_length: BodyLength,
        server_wants_close: bool,
        event_stream: bool,
    ) -> (relay: MiddlewareRelay)
        ensures
            relay == (MiddlewareRelay {
                phase: RelayPhase::Start,
                bodiless,
                supports_chunked: text::strip_prefix(status_line@, "HTTP/1.0 "@) is None,
                server_wants_close,
                until_eof: body_length == BodyLength::Absent && (server_wants_close
                    || event_stream),
                whole_body: false,
                committed: false,
            }),
    {
        MiddlewareRelay {
            phase: RelayPhase::Start,
            bodiless,
            supports_chunked: without_prefix(status_line, "HTTP/1.0 ").is_none(),
            server_wants_close,
            until_eof: body_length == BodyLength::Absent && (server_wants_close || event_stream),
            whole_body: false,
            committed: false,
        }
    }

    fn preflighted(&mut self, result: PreflightResult, stale: bool) -> (d: Decision)
        requires
            old(self).phase == RelayPhase::Preflighting,
        ensures
            (*final(self), d) == relay_transition(
                *old(self),
                RelayEvent::Preflighted { preflight: result, stale },
            ),
    {
        self.phase = RelayPhase::Over;
        if let PreflightResult::Failed = result {
            return failure_reply();
        }
        if stale {
            let mut d = proceed(Next::Fail(RelayFailure::StalePolicy));
            let held = match result {
                PreflightResult::Session { .. } => true,
                PreflightResult::Blocked { session, .. } => session,
                _ => false,
            };
            if held {
                d.end_session = Some(SessionEnd::PolicyReload);
            }
            return d;
        }
        match result {
            PreflightResult::Failed => failure_reply(),
            PreflightResult::Blocked { denial, .. } => if denial {
                denial_reply()
            } else {
                failure_reply()
            },
            PreflightResult::NoSession { headers_unchanged, status_line_valid } => if headers_unchanged {
                proceed(Next::PassThrough)
            } else if !status_line_valid {
                proceed(Next::Fail(RelayFailure::StatusLine))
            } else {
                proceed(Next::HeadersOnly)
            },
            PreflightResult::Session { whole_body, status_line_valid } => {
                if !status_line_valid {
                    return proceed(Next::Fail(RelayFailure::StatusLine));
                }
                if self.bodiless {
                    self.phase = RelayPhase::FinishingBodiless;
                    return proceed(Next::FinishSession);
                }
                self.whole_body = whole_body;
                if whole_body {
                    self.phase = RelayPhase::RelayingBody;
                    return proceed(Next::RelayBody);
                }
                self.phase = RelayPhase::WritingHead;
                self.committed = true;
                proceed(Next::WriteHead)
            },
        }
    }

    fn body_relayed(&mut self, result: BodyResult, committed: bool, stale: bool) -> (d: Decision)
        requires
            old(self).phase == RelayPhase::RelayingBody,
        ensures
            (*final(self), d) == relay_transition(
                *old(self),
                RelayEvent::BodyRelayed { body: result, committed, stale },
            ),
    {
        self.committed = self.committed || committed;
        if result != BodyResult::Complete {
            self.phase = RelayPhase::Over;
            return decide_body_failure(result, self.committed, stale);
        }
        if stale {
            self.phase = RelayPhase::Over;
            let mut d = proceed(Next::Fail(RelayFailure::StalePolicy));
            d.end_session = Some(SessionEnd::PolicyReload);
            return d;
        }
        self.phase = RelayPhase::Finishing;
        proceed(Next::FinishSession)
    }

    /// Takes an event and decides what is done next.
    pub fn advance(&mut self, event: RelayEvent) -> (d: Decision)
        ensures
            (*final(self), d) == relay_transition(*old(self), event),
    {
        let phase = self.phase;
        match (phase, event) {
            (RelayPhase::Start, RelayEvent::Started { chain_empty, stale }) => {
                self.phase = RelayPhase::Over;
                if stale {
                    proceed(Next::Fail(RelayFailure::StalePolicy))
                } else if chain_empty {
                    proceed(Next::PassThrough)
                } else {
                    self.phase = RelayPhase::Describing;
                    proceed(Next::Describe)
                }
            },
            (RelayPhase::Describing, RelayEvent::Described { description, stale }) => {
                self.phase = RelayPhase::Over;
                if description == Description::NoStages {
                    proceed(Next::PassThrough)
                } else if stale {
                    proceed(Next::Fail(RelayFailure::StalePolicy))
                } else if description == Description::Failed {
                    failure_reply()
                } else {
                    self.phase = RelayPhase::Preflighting;
                    proceed(Next::Preflight)
                }
            },
            (RelayPhase::Preflighting, RelayEvent::Preflighted { preflight: result, stale }) => self.preflighted(
                result,
                stale,
            ),
            (RelayPhase::FinishingBodiless, RelayEvent::SessionFinished { finish: result, stale }) => {
                self.phase = RelayPhase::Over;
                if result != FinishResult::Finished {
                    let mut d = failure_reply();
                    d.diagnostics = true;
                    d.report = None;
                    d
                } else if stale {
                    proceed(Next::Fail(RelayFailure::StalePolicy))
                } else {
                    proceed(Next::DeliverBodiless(outcome(self.server_wants_close)))
                }
            },
            (RelayPhase::WritingHead, RelayEvent::HeadWritten { success }) => if success {
                self.phase = RelayPhase::RelayingBody;
                proceed(Next::RelayBody)
            } else {
                self.phase = RelayPhase::Over;
                let mut d = proceed(Next::Fail(RelayFailure::HeadWrite));
                d.end_session = Some(SessionEnd::DownstreamDisconnect);
                d
            },
            (RelayPhase::RelayingBody, RelayEvent::BodyRelayed { body: result, committed, stale }) => self.body_relayed(
                result,
                committed,
                stale,
            ),
            (RelayPhase::Finishing, RelayEvent::SessionFinished { finish: result, stale }) => {
                self.phase = RelayPhase::Over;
                match result {
                    FinishResult::Failed { denial } => decide_finish_failure(
                        denial,
                        self.committed,
                    ),
                    FinishResult::Finished => if stale {
                        proceed(Next::Fail(RelayFailure::StalePolicy))
                    } else {
                        proceed(
                            Next::Deliver {
                                whole: self.whole_body && !self.committed,
                                outcome: outcome(
                                    (self.committed && !self.supports_chunked) || self.until_eof,
                                ),
                            },
                        )
                    },
                }
            },
            _ => {
                self.phase = RelayPhase::Over;
                proceed(Next::Fail(RelayFailure::Unexpected))
            },
        }
    }
}

/// Units as they stand on the wire.
pub open spec fn encoded(units: Seq<Seq<u8>>, chunked: bool) -> Seq<u8>
    decreases units.len(),
{
    if units.len() == 0 {
        seq![]
    } else {
        encoded(units.drop_last(), chunked) + if chunked {
            output::chunk(units.last())
        } else {
            units.last()
        }
    }
}

fn append_units(target: &mut Vec<u8>, units: &Vec<Vec<u8>>, chunked: bool)
    ensures
        final(target)@ == old(target)@ + encoded(body::contents(units@), chunked),
{
    let ghost all = body::contents(units@);
    let ghost start = target@;
    let mut i: usize = 0;
    assert(start + encoded(all.take(0), chunked) == start);
    while i < units.len()
        invariant
            i <= units@.len(),
            all == body::contents(units@),
            target@ == start + encoded(all.take(i as int), chunked),
        decreases units@.len() - i,
    {
        let ghost before = encoded(all.take(i as int), chunked);
        assert(all.take(i + 1).drop_last() == all.take(i as int));
        assert(all.take(i + 1).last() == units@[i as int]@);
        if chunked {
            append_bytes(target, response_chunk(units[i].as_slice()).as_slice());
            assert(target@ == start + (before + output::chunk(units@[i as int]@)));
        } else {
            append_bytes(target, units[i].as_slice());
            assert(target@ == start + (before + units@[i as int]@));
        }
        i += 1;
    }
    assert(all.take(i as int) == all);
}

/// What is written of the units that a session released.
#[derive(Debug)]
pub enum UnitDelivery {
    /// Output came before a whole-body stage finished.
    Refused,
    /// Nothing is written.
    Nothing,
    /// Bytes are written; the head comes first where `commits` says so.
    Write { commits: bool, bytes: Vec<u8> },
}

/// What a [`UnitDelivery`] denotes.
#[verifier::ext_equal]
pub enum UnitDeliveryModel {
    Refused,
    Nothing,
    Write { commits: bool, bytes: Seq<u8> },
}

impl View for UnitDelivery {
    type V = UnitDeliveryModel;

    open spec fn view(&self) -> UnitDeliveryModel {
        match self {
            UnitDelivery::Refused => UnitDeliveryModel::Refused,
            UnitDelivery::Nothing => UnitDeliveryModel::Nothing,
            UnitDelivery::Write { commits, bytes } => UnitDeliveryModel::Write {
                commits: *commits,
                bytes: bytes@,
            },
        }
    }
}

/// What is written of units that a session released: before anything was
/// delivered the head comes first, and a pending whole-body stage may release
/// nothing.
pub open spec fn unit_delivery(
    committed: bool,
    units: Seq<Seq<u8>>,
    whole_body_pending: bool,
    chunked: bool,
    commit_head: Seq<u8>,
) -> UnitDeliveryModel {
    if committed {
        UnitDeliveryModel::Write { commits: false, bytes: encoded(units, chunked) }
    } else if units.len() == 0 {
        UnitDeliveryModel::Nothing
    } else if whole_body_pending {
        UnitDeliveryModel::Refused
    } else {
        UnitDeliveryModel::Write { commits: true, bytes: commit_head + encoded(units, chunked) }
    }
}

/// Decides what is written of the units that a session released. The response
/// counts as committed before the first write is tried, since a write may fail
/// after part of the bytes went out.
pub fn deliver_response_units(
    committed: bool,
    units: &Vec<Vec<u8>>,
    whole_body_pending: bool,
    chunked: bool,
    commit_head: &[u8],
) -> (delivery: UnitDelivery)
    ensures
        delivery@ == unit_delivery(
            committed,
            body::contents(units@),
            whole_body_pending,
            chunked,
            commit_head@,
        ),
{
    assert(body::contents(units@).len() == units@.len());
    if !committed && units.len() == 0 {
        return UnitDelivery::Nothing;
    }
    if !committed && whole_body_pending {
        return UnitDelivery::Refused;
    }
    let mut bytes: Vec<u8> = Vec::new();
    if !committed {
        append_bytes(&mut bytes, commit_head);
    }
    append_units(&mut bytes, units, chunked);
    assert(!committed ==> bytes@ == commit_head@ + encoded(body::contents(units@), chunked));
    assert(committed ==> bytes@ == encoded(body::contents(units@), chunked));
    UnitDelivery::Write { commits: !committed, bytes }
}

/// What was learned of a response before its session.
#[derive(Debug)]
pub struct SessionHead {
    pub status_line: String,
    /// The headers after preflight.
    pub headers: Vec<HttpHeader>,
    pub preserved_credential_headers: Vec<String>,
    pub declared_trailers: Vec<String>,
}

/// The head under which units are streamed: in chunks, or where the client
/// takes none, until the connection closes.
pub open spec fn streaming_head_text(
    session: SessionHead,
    supports_chunked: bool,
    server_wants_close: bool,
) -> Seq<char> {
    output::head_text(
        session.status_line@,
        head::headers_of(session.headers@),
        text::texts(session.preserved_credential_headers@),
        if supports_chunked {
            ResponseFraming::Chunked
        } else {
            ResponseFraming::Preserve(BodyLength::Absent)
        },
        server_wants_close || !supports_chunked,
        if supports_chunked {
            text::texts(session.declared_trailers@)
        } else {
            seq![]
        },
    )
}

/// Writes the head under which units are streamed.
pub fn streaming_head(
    session: &SessionHead,
    supports_chunked: bool,
    server_wants_close: bool,
) -> (output: Vec<u8>)
    ensures
        output@ == output::utf8(
            streaming_head_text(*session, supports_chunked, server_wants_close),
        ),
{
    if supports_chunked {
        serialize_response_head(
            session.status_line.as_str(),
            &session.headers,
            &session.preserved_credential_headers,
            ResponseFraming::Chunked,
            server_wants_close,
            &session.declared_trailers,
        )
    } else {
        let none: Vec<String> = Vec::new();
        assert(text::texts(none@) == Seq::<Seq<char>>::empty());
        serialize_response_head(
            session.status_line.as_str(),
            &session.headers,
            &session.preserved_credential_headers,
            ResponseFraming::Preserve(BodyLength::Absent),
            true,
            &none,
        )
    }
}

/// Writes the head of a bodiless response.
pub fn bodiless_head(
    session: &SessionHead,
    body_length: BodyLength,
    server_wants_close: bool,
    strip_stale_integrity_headers: bool,
    stale_names: &Vec<String>,
) -> (output: Vec<u8>)
    ensures
        output@ == output::utf8(
            output::head_text(
                session.status_line@,
                final_headers(*session, strip_stale_integrity_headers, text::texts(stale_names@)),
                text::texts(session.preserved_credential_headers@),
                ResponseFraming::Preserve(body_length),
                server_wants_close,
                seq![],
            ),
        ),
{
    let headers = delivered_headers(session, strip_stale_integrity_headers, stale_names);
    let none: Vec<String> = Vec::new();
    assert(text::texts(none@) == Seq::<Seq<char>>::empty());
    serialize_response_head(
        session.status_line.as_str(),
        &headers,
        &session.preserved_credential_headers,
        ResponseFraming::Preserve(body_length),
        server_wants_close,
        &none,
    )
}

/// What a session finished with.
#[derive(Debug)]
pub struct SessionFinish {
    pub body_units: Vec<Vec<u8>>,
    pub trailers: Vec<HttpHeader>,
    pub strip_stale_integrity_headers: bool,
}

/// The headers that are delivered.
pub open spec fn final_headers(
    session: SessionHead,
    strip: bool,
    stale_names: Seq<Seq<char>>,
) -> Seq<HeaderModel> {
    if strip {
        output::without_names(head::headers_of(session.headers@), stale_names)
    } else {
        head::headers_of(session.headers@)
    }
}

fn delivered_headers(session: &SessionHead, strip: bool, stale_names: &Vec<String>) -> (r: Vec<
    HttpHeader,
>)
    ensures
        head::headers_of(r@) == final_headers(*session, strip, text::texts(stale_names@)),
{
    let mut headers: Vec<HttpHeader> = Vec::new();
    let ghost all = head::headers_of(session.headers@);
    let mut i: usize = 0;
    while i < session.headers.len()
        invariant
            i <= session.headers@.len(),
            all == head::headers_of(session.headers@),
            head::headers_of(headers@) == all.take(i as int),
        decreases session.headers@.len() - i,
    {
        let header = session.headers[i].copy();
        let ghost model = header@;
        let ghost before = head::headers_of(headers@);
        headers.push(header);
        assert(head::headers_of(headers@) == before.push(model));
        assert(all.take(i + 1) == before.push(model));
        i += 1;
    }
    assert(all.take(i as int) == all);
    if strip {
        strip_response_integrity_headers(&mut headers, stale_names);
    }
    headers
}

/// The names of fields.
pub open spec fn names_of(fields: Seq<HeaderModel>) -> Seq<Seq<char>> {
    fields.map_values(|field: HeaderModel| field.name)
}

fn field_names(fields: &Vec<HttpHeader>) -> (names: Vec<String>)
    ensures
        text::texts(names@) == names_of(head::headers_of(fields@)),
{
    let ghost all = names_of(head::headers_of(fields@));
    let mut names: Vec<String> = Vec::new();
    let mut i: usize = 0;
    while i < fields.len()
        invariant
            i <= fields@.len(),
            all == names_of(head::headers_of(fields@)),
            text::texts(names@) == all.take(i as int),
        decreases fields@.len() - i,
    {
        let name = fields[i].name.clone();
        let ghost before = text::texts(names@);
        names.push(name);
        assert(text::texts(names@) == before.push(name@));
        assert(all[i as int] == fields@[i as int].name@);
        assert(all.take(i + 1) == before.push(name@));
        i += 1;
    }
    assert(all.take(i as int) == all);
    names
}

/// How a whole body is framed: by its length, unless trailers follow that the
/// client can take.
pub open spec fn whole_framing(finish: SessionFinish, supports_chunked: bool) -> ResponseFraming {
    if finish.trailers@.len() == 0 || !supports_chunked {
        ResponseFraming::ContentLength(
            body::concat(body::contents(finish.body_units@)).len() as u64,
        )
    } else {
        ResponseFraming::Chunked
    }
}

/// What is written of a whole body and its head.
pub open spec fn whole_output(
    session: SessionHead,
    finish: SessionFinish,
    supports_chunked: bool,
    server_wants_close: bool,
    stale_names: Seq<Seq<char>>,
) -> Seq<u8> {
    let units = body::contents(finish.body_units@);
    let trailers = head::headers_of(finish.trailers@);
    let framing = whole_framing(finish, supports_chunked);
    let text = output::head_text(
        session.status_line@,
        final_headers(session, finish.strip_stale_integrity_headers, stale_names),
        text::texts(session.preserved_credential_headers@),
        framing,
        server_wants_close,
        if supports_chunked {
            names_of(trailers)
        } else {
            seq![]
        },
    );
    if framing is Chunked {
        output::utf8(text) + encoded(units, true) + output::body_end(trailers)
    } else {
        output::utf8(text) + encoded(units, false)
    }
}

/// What is written at the end of a streamed body.
pub open spec fn streamed_output(finish: SessionFinish, supports_chunked: bool) -> Seq<u8> {
    let units = body::contents(finish.body_units@);
    if supports_chunked {
        encoded(units, true) + output::body_end(head::headers_of(finish.trailers@))
    } else {
        encoded(units, false)
    }
}

/// The length of units in all, where a `u64` holds it.
pub fn total_length(units: &Vec<Vec<u8>>) -> (r: Option<u64>)
    ensures
        match r {
            Some(n) => body::concat(body::contents(units@)).len() == n,
            None => body::concat(body::contents(units@)).len() > u64::MAX,
        },
{
    let ghost all = body::contents(units@);
    let mut total: u64 = 0;
    let mut i: usize = 0;
    while i < units.len()
        invariant
            i <= units@.len(),
            all == body::contents(units@),
            body::concat(all.take(i as int)).len() == total,
        decreases units@.len() - i,
    {
        assert(all.take(i + 1).drop_last() == all.take(i as int));
        assert(all.take(i + 1).last() == units@[i as int]@);
        let unit: u64 = units[i].len() as u64;
        if unit > u64::MAX - total {
            proof {
                lemma_concat_prefix(all, i + 1);
            }
            return None;
        }
        total = total + unit;
        i += 1;
    }
    assert(all.take(i as int) == all);
    Some(total)
}

proof fn lemma_concat_prefix(units: Seq<Seq<u8>>, n: int)
    requires
        0 <= n <= units.len(),
    ensures
        body::concat(units.take(n)).len() <= body::concat(units).len(),
    decreases units.len(),
{
    if n < units.len() {
        lemma_concat_prefix(units.drop_last(), n);
        assert(units.drop_last().take(n) == units.take(n));
    } else {
        assert(units.take(n) == units);
    }
}

/// Writes a whole body and its head, or nothing where its length exceeds what
/// a length can say.
pub fn write_whole_output(
    session: &SessionHead,
    finish: &SessionFinish,
    supports_chunked: bool,
    server_wants_close: bool,
    stale_names: &Vec<String>,
) -> (r: Option<Vec<u8>>)
    ensures
        match r {
            Some(bytes) => body::concat(body::contents(finish.body_units@)).len() <= u64::MAX
                && bytes@ == whole_output(
                *session,
                *finish,
                supports_chunked,
                server_wants_close,
                text::texts(stale_names@),
            ),
            None => body::concat(body::contents(finish.body_units@)).len() > u64::MAX,
        },
{
    let headers = delivered_headers(session, finish.strip_stale_integrity_headers, stale_names);
    let length = match total_length(&finish.body_units) {
        Some(length) => length,
        None => {
            return None;
        },
    };
    let by_length = finish.trailers.len() == 0 || !supports_chunked;
    let framing = if by_length {
        ResponseFraming::ContentLength(length)
    } else {
        ResponseFraming::Chunked
    };
    let names = if supports_chunked {
        field_names(&finish.trailers)
    } else {
        let none: Vec<String> = Vec::new();
        assert(text::texts(none@) == Seq::<Seq<char>>::empty());
        none
    };
    let mut bytes = serialize_response_head(
        session.status_line.as_str(),
        &headers,
        &session.preserved_credential_headers,
        framing,
        server_wants_close,
        &names,
    );
    append_units(&mut bytes, &finish.body_units, !by_length);
    if !by_length {
        append_bytes(&mut bytes, response_trailers(&finish.trailers).as_slice());
    }
    Some(bytes)
}

/// Writes the end of a streamed body.
pub fn write_streamed_output(finish: &SessionFinish, supports_chunked: bool) -> (bytes: Vec<u8>)
    ensures
        bytes@ == streamed_output(*finish, supports_chunked),
{
    let mut bytes: Vec<u8> = Vec::new();
    append_units(&mut bytes, &finish.body_units, supports_chunked);
    assert(bytes@ == encoded(body::contents(finish.body_units@), supports_chunked));
    if supports_chunked {
        append_bytes(&mut bytes, response_trailers(&finish.trailers).as_slice());
    }
    bytes
}

/// A response of the relay's own never follows bytes of the upstream response:
/// a reply is decided only while nothing may have been delivered. Once
/// something may have been, that stays so.
pub proof fn reply_only_before_commitment(relay: MiddlewareRelay, event: RelayEvent)
    requires
        relay.committed ==> relay.phase is WritingHead || relay.phase is RelayingBody
            || relay.phase is Finishing || relay.phase is Over,
    ensures
        ({
            let (after, d) = relay_transition(relay, event);
            &&& d.reply is Some ==> !after.committed
            &&& relay.committed ==> after.committed
            &&& after.committed ==> after.phase is WritingHead || after.phase is RelayingBody
                || after.phase is Finishing || after.phase is Over
        }),
{
}

/// A stale policy generation is answered by nothing but giving up, once it is
/// looked at: nothing more is delivered and no reply is sent.
pub proof fn stale_policy_delivers_nothing(relay: MiddlewareRelay, event: RelayEvent)
    requires
        match event {
            RelayEvent::Started { stale, .. } => relay.phase is Start && stale,
            RelayEvent::Described { description, stale } => relay.phase is Describing && stale
                && !(description is NoStages),
            RelayEvent::Preflighted { preflight: result, stale } => relay.phase is Preflighting && stale
                && !(result is Failed),
            RelayEvent::BodyRelayed { body: result, stale, .. } => relay.phase is RelayingBody && stale
                && result is Complete,
            RelayEvent::SessionFinished { finish: result, stale } => (relay.phase is Finishing
                || relay.phase is FinishingBodiless) && stale && result is Finished,
            RelayEvent::HeadWritten { .. } => false,
        },
    ensures
        ({
            let (after, d) = relay_transition(relay, event);
            &&& d.next == Next::Fail(RelayFailure::StalePolicy)
            &&& d.reply is None
            &&& after.phase is Over
        }),
{
}

/// Where the policy changed during preflight, the session that preflight left
/// behind is ended with the reload, whether or not the response was blocked.
pub proof fn stale_preflight_ends_its_session(relay: MiddlewareRelay, preflight: PreflightResult)
    requires
        relay.phase is Preflighting,
        holds_session(preflight),
    ensures
        ({
            let (after, d) = relay_transition(
                relay,
                RelayEvent::Preflighted { preflight, stale: true },
            );
            &&& after.phase is Over
            &&& d.end_session == Some(SessionEnd::PolicyReload)
            &&& d.reply is None
            &&& d.next == Next::Fail(RelayFailure::StalePolicy)
        }),
{
}

/// Whether the session is open in a phase.
pub open spec fn session_open(relay: MiddlewareRelay) -> bool {
    relay.phase is WritingHead || relay.phase is RelayingBody
}

/// A session that takes a body is left only by ending it or by finishing it.
pub proof fn open_session_is_ended_or_finished(relay: MiddlewareRelay, event: RelayEvent)
    requires
        session_open(relay),
        match event {
            RelayEvent::HeadWritten { .. } => relay.phase is WritingHead,
            RelayEvent::BodyRelayed { .. } => relay.phase is RelayingBody,
            _ => false,
        },
    ensures
        ({
            let (after, d) = relay_transition(relay, event);
            &&& session_open(after) <==> d.next is RelayBody
            &&& !session_open(after) ==> (d.end_session is Some <==> !(d.next is FinishSession))
        }),
{
}

} // verus!
