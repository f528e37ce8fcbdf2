//! What holds of every response that is relayed, and of every body that is read.

use crate::l7::provider::BodyLength;
use crate::l7::rest::body;
use crate::l7::rest::body::{BodyFault, BodyModel, BodyPhase, BodySettings, BodyWant, EventModel, Wait};
use crate::l7::rest::middleware;
use crate::l7::rest::middleware::{
    BodyResult, Commitment, Description, FinishResult, MiddlewareRelay, Next, PreflightResult,
    RelayEvent, RelayFailure, Reply, SessionEnd,
};
use crate::l7::rest::output;
use crate::l7::rest::output::ChunkSizeError;
use crate::l7::rest::relay;
use crate::l7::rest::relay::{BodyRelay, EndpointResult, RelayOutcome, ResponseFacts};
use crate::text;
use crate::bytes;
use crate::l7::rest::head;
use crate::l7::rest::reader;
use vstd::prelude::*;

verus! {

/// Whether a body that goes on behind the bytes that came along has the length
/// that was announced: the rest is what is missing, and nothing is missing where
/// all of it came along.
pub open spec fn makes_up(rest: BodyRelay, came: int, announced: int) -> bool {
    match rest {
        BodyRelay::Fixed(more) => 0 < more && came + more == announced,
        BodyRelay::Complete => announced <= came,
        _ => false,
    }
}

/// A framed response that no middleware changes is delivered as it came, head
/// and body, and the connection can serve another request.
pub proof fn framed_response_is_delivered_as_it_came(
    facts: ResponseFacts,
    body_length: BodyLength,
    head: Seq<u8>,
    came: Seq<u8>,
)
    requires
        body_length != BodyLength::Absent,
    ensures
        ({
            let delivery = relay::plain_delivery(
                facts,
                false,
                body_length,
                head + came,
                head.len() as int,
            );
            &&& delivery.first == head + came
            &&& !delivery.shutdown
            &&& delivery.outcome == RelayOutcome::Reusable
            &&& match body_length {
                BodyLength::ContentLength(n) => makes_up(
                    delivery.body,
                    came.len() as int,
                    n as int,
                ),
                _ => delivery.body == BodyRelay::Chunked,
            }
        }),
{
}

/// A response that cannot have a body is its head alone, whatever came along.
pub proof fn bodiless_response_is_its_head(
    facts: ResponseFacts,
    body_length: BodyLength,
    head: Seq<u8>,
    came: Seq<u8>,
)
    ensures
        ({
            let delivery = relay::plain_delivery(
                facts,
                true,
                body_length,
                head + came,
                head.len() as int,
            );
            &&& delivery.first == head
            &&& delivery.body == BodyRelay::Complete
            &&& !delivery.shutdown
            &&& delivery.outcome == RelayOutcome::Consumed <==> facts.server_wants_close
        }),
{
    assert((head + came).take(head.len() as int) == head);
}

/// A response without framing runs until the connection ends where the
/// connection closes or events are streamed. The head says that the connection
/// closes where it does; the rest of it is as it came, and the connection is used
/// up.
pub proof fn unframed_response_runs_until_the_end(
    facts: ResponseFacts,
    front: Seq<u8>,
    came: Seq<u8>,
)
    requires
        facts.server_wants_close || facts.http_10_closes_by_default || facts.event_stream,
    ensures
        ({
            let delivery = relay::plain_delivery(
                facts,
                false,
                BodyLength::Absent,
                front + seq![13u8, 10u8] + came,
                (front.len() + 2) as int,
            );
            &&& delivery.first == front + (if facts.server_wants_close
                || facts.http_10_closes_by_default {
                output::utf8("Connection: close\r\n\r\n"@)
            } else {
                output::utf8("\r\n"@)
            }) + came
            &&& delivery.body == BodyRelay::UntilEof { idle_timeout: !facts.event_stream }
            &&& delivery.shutdown
            &&& delivery.outcome == RelayOutcome::Consumed
        }),
{
    let buffered = front + seq![13u8, 10u8] + came;
    assert(buffered.take(front.len() as int) == front);
    assert(buffered.skip((front.len() + 2) as int) == came);
}

/// A response without framing on a connection that stays is its head alone.
pub proof fn unframed_response_on_a_kept_connection_is_empty(
    facts: ResponseFacts,
    head: Seq<u8>,
    came: Seq<u8>,
)
    requires
        !facts.server_wants_close,
        !facts.http_10_closes_by_default,
        !facts.event_stream,
    ensures
        ({
            let delivery = relay::plain_delivery(
                facts,
                false,
                BodyLength::Absent,
                head + came,
                head.len() as int,
            );
            &&& delivery.first == head
            &&& delivery.body == BodyRelay::Complete
            &&& !delivery.shutdown
            &&& delivery.outcome == RelayOutcome::Reusable
        }),
{
    assert((head + came).take(head.len() as int) == head);
}

/// A response whose headers middleware changed is the new head and the body as it
/// came. It runs until the connection ends where nothing frames it and the
/// connection closes or events are streamed.
pub proof fn changed_head_keeps_the_body(
    head: Seq<u8>,
    bodiless: bool,
    body_length: BodyLength,
    server_wants_close: bool,
    event_stream: bool,
    came: Seq<u8>,
)
    ensures
        ({
            let delivery = relay::headers_only_delivery(
                head,
                bodiless,
                body_length,
                server_wants_close,
                event_stream,
                came,
            );
            &&& !delivery.shutdown
            &&& delivery.first == if bodiless {
                head
            } else {
                head + came
            }
            &&& bodiless ==> delivery.body == BodyRelay::Complete && (delivery.outcome
                == RelayOutcome::Consumed <==> server_wants_close)
            &&& !bodiless ==> match body_length {
                BodyLength::ContentLength(n) => makes_up(delivery.body, came.len() as int, n as int)
                    && delivery.outcome == RelayOutcome::Reusable,
                BodyLength::Chunked => delivery.body == BodyRelay::Chunked && delivery.outcome
                    == RelayOutcome::Reusable,
                BodyLength::Absent => if server_wants_close || event_stream {
                    delivery.body == (BodyRelay::UntilEof { idle_timeout: !event_stream })
                        && delivery.outcome == RelayOutcome::Consumed
                } else {
                    delivery.body == BodyRelay::Complete && delivery.outcome
                        == RelayOutcome::Reusable
                },
            }
        }),
{
}

/// An observer is told of a response that upstream answered below 400, of one
/// that upstream rejected from 400 up, and of a failed transport where there is no
/// valid status.
pub proof fn observer_is_told_the_result(status: Option<nat>)
    ensures
        relay::observed_result(status) == EndpointResult::TransportFailed <==> status is None,
        relay::observed_result(status) == EndpointResult::HttpResponseReceived <==> (
        status matches Some(code) && code <= 399),
        relay::observed_result(status) == EndpointResult::UpstreamRejected <==> (
        status matches Some(code) && code >= 400),
{
}

/// Without stages, or with stages that leave headers and body alone, the response
/// is relayed as it came.
pub proof fn untouched_response_passes_through(relay: MiddlewareRelay, status_line_valid: bool)
    ensures
        relay.phase is Start ==> middleware::relay_transition(
            relay,
            RelayEvent::Started { chain_empty: true, stale: false },
        ).1.next == Next::PassThrough,
        relay.phase is Describing ==> middleware::relay_transition(
            relay,
            RelayEvent::Described { description: Description::NoStages, stale: false },
        ).1.next == Next::PassThrough,
        relay.phase is Preflighting ==> middleware::relay_transition(
            relay,
            RelayEvent::Preflighted {
                preflight: PreflightResult::NoSession { headers_unchanged: true, status_line_valid },
                stale: false,
            },
        ).1.next == Next::PassThrough,
{
}

/// A whole-body session that goes well reaches delivery: the stages are
/// described, preflighted, given the body and finished, and then head and body
/// are delivered together. Nothing is replied, reported or ended on the way.
pub proof fn whole_body_session_delivers(relay: MiddlewareRelay)
    requires
        relay.phase is Start,
        !relay.bodiless,
        !relay.committed,
    ensures
        ({
            let (a, first) = middleware::relay_transition(
                relay,
                RelayEvent::Started { chain_empty: false, stale: false },
            );
            let (b, second) = middleware::relay_transition(
                a,
                RelayEvent::Described { description: Description::Stages, stale: false },
            );
            let (c, third) = middleware::relay_transition(
                b,
                RelayEvent::Preflighted {
                    preflight: PreflightResult::Session { whole_body: true, status_line_valid: true },
                    stale: false,
                },
            );
            let (d, fourth) = middleware::relay_transition(
                c,
                RelayEvent::BodyRelayed {
                    body: BodyResult::Complete,
                    committed: false,
                    stale: false,
                },
            );
            let (e, fifth) = middleware::relay_transition(
                d,
                RelayEvent::SessionFinished { finish: FinishResult::Finished, stale: false },
            );
            &&& first == middleware::go_on(Next::Describe)
            &&& second == middleware::go_on(Next::Preflight)
            &&& third == middleware::go_on(Next::RelayBody)
            &&& fourth == middleware::go_on(Next::FinishSession)
            &&& fifth == middleware::go_on(
                Next::Deliver {
                    whole: true,
                    outcome: if relay.until_eof {
                        RelayOutcome::Consumed
                    } else {
                        RelayOutcome::Reusable
                    },
                },
            )
            &&& e.phase is Over
        }),
{
}

/// A streaming session that goes well writes its head first, counts as committed
/// from then on, and ends in the delivery of what is left. The connection is used
/// up where the client takes no chunks or only the end of the connection ends the
/// body.
pub proof fn streaming_session_delivers(relay: MiddlewareRelay, committed: bool)
    requires
        relay.phase is Preflighting,
        !relay.bodiless,
    ensures
        ({
            let (c, third) = middleware::relay_transition(
                relay,
                RelayEvent::Preflighted {
                    preflight: PreflightResult::Session {
                        whole_body: false,
                        status_line_valid: true,
                    },
                    stale: false,
                },
            );
            let (d, fourth) = middleware::relay_transition(
                c,
                RelayEvent::HeadWritten { success: true },
            );
            let (e, fifth) = middleware::relay_transition(
                d,
                RelayEvent::BodyRelayed { body: BodyResult::Complete, committed, stale: false },
            );
            let (f, sixth) = middleware::relay_transition(
                e,
                RelayEvent::SessionFinished { finish: FinishResult::Finished, stale: false },
            );
            &&& third == middleware::go_on(Next::WriteHead)
            &&& c.committed
            &&& fourth == middleware::go_on(Next::RelayBody)
            &&& fifth == middleware::go_on(Next::FinishSession)
            &&& sixth == middleware::go_on(
                Next::Deliver {
                    whole: false,
                    outcome: if !relay.supports_chunked || relay.until_eof {
                        RelayOutcome::Consumed
                    } else {
                        RelayOutcome::Reusable
                    },
                },
            )
            &&& f.phase is Over
        }),
{
}

/// A response without a body ends its session at once and is delivered as a head;
/// the connection is used up where the server wants to close it.
pub proof fn bodiless_session_delivers_its_head(relay: MiddlewareRelay, whole_body: bool)
    requires
        relay.phase is Preflighting,
        relay.bodiless,
    ensures
        ({
            let (c, third) = middleware::relay_transition(
                relay,
                RelayEvent::Preflighted {
                    preflight: PreflightResult::Session { whole_body, status_line_valid: true },
                    stale: false,
                },
            );
            let (d, fourth) = middleware::relay_transition(
                c,
                RelayEvent::SessionFinished { finish: FinishResult::Finished, stale: false },
            );
            &&& third == middleware::go_on(Next::FinishSession)
            &&& fourth == middleware::go_on(
                Next::DeliverBodiless(
                    if relay.server_wants_close {
                        RelayOutcome::Consumed
                    } else {
                        RelayOutcome::Reusable
                    },
                ),
            )
        }),
{
}

/// A denial that comes before anything was delivered is replied to the client as
/// a denial, at whatever point it comes; any other failure there is replied as a
/// failure. In both cases the connection is used up.
pub proof fn early_denial_is_replied(
    relay: MiddlewareRelay,
    denial: bool,
    session: bool,
)
    requires
        !relay.committed,
    ensures
        ({
            let reply = if denial {
                Some(Reply::Denial)
            } else {
                Some(Reply::Failure)
            };
            let over = Next::Complete(RelayOutcome::Consumed);
            let blocked = middleware::relay_transition(
                relay,
                RelayEvent::Preflighted {
                    preflight: PreflightResult::Blocked { denial, session },
                    stale: false,
                },
            ).1;
            let stopped = middleware::relay_transition(
                relay,
                RelayEvent::BodyRelayed {
                    body: BodyResult::MiddlewareStop { denial },
                    committed: false,
                    stale: false,
                },
            ).1;
            let unfinished = middleware::relay_transition(
                relay,
                RelayEvent::SessionFinished {
                    finish: FinishResult::Failed { denial },
                    stale: false,
                },
            ).1;
            &&& relay.phase is Preflighting ==> blocked.reply == reply && blocked.next == over
            &&& relay.phase is RelayingBody ==> stopped.reply == reply && stopped.next == over
                && stopped.end_session == Some(
                if denial {
                    SessionEnd::MiddlewareDenial
                } else {
                    SessionEnd::MiddlewareFailure
                },
            )
            &&& relay.phase is Finishing ==> unfinished.reply == reply && unfinished.next == over
                && unfinished.diagnostics
        }),
{
}

/// A failure after response bytes may have reached the client gives the
/// connection up: it is reported as such, and nothing is replied.
pub proof fn late_failure_gives_up(
    relay: MiddlewareRelay,
    result: BodyResult,
    denial: bool,
    stale: bool,
)
    requires
        relay.committed,
        !(result is Complete),
    ensures
        ({
            let stopped = middleware::relay_transition(
                relay,
                RelayEvent::BodyRelayed { body: result, committed: true, stale },
            ).1;
            let unfinished = middleware::relay_transition(
                relay,
                RelayEvent::SessionFinished { finish: FinishResult::Failed { denial }, stale },
            ).1;
            &&& relay.phase is RelayingBody ==> {
                &&& stopped.next == Next::Fail(RelayFailure::BodyAfterCommit)
                &&& stopped.report == Some(Commitment::AfterCommit)
                &&& stopped.reply is None
                &&& stopped.end_session is Some
            }
            &&& relay.phase is Finishing ==> {
                &&& unfinished.next == Next::Fail(RelayFailure::FinishAfterCommit)
                &&& unfinished.report == Some(Commitment::AfterCommit)
                &&& unfinished.reply is None
            }
        }),
{
}

/// A session whose body failed is ended for what went wrong: the policy reload
/// first, then a client that is gone, then what the middleware did, and otherwise
/// the upstream.
pub proof fn session_is_ended_for_the_reason(result: BodyResult, stale: bool)
    ensures
        middleware::body_end_reason(result, stale) == SessionEnd::PolicyReload <==> stale,
        middleware::body_end_reason(result, stale) == SessionEnd::DownstreamDisconnect <==> !stale
            && result is DownstreamWrite,
        middleware::body_end_reason(result, stale) == SessionEnd::MiddlewareDenial <==> !stale
            && result == (BodyResult::MiddlewareStop { denial: true }),
        middleware::body_end_reason(result, stale) == SessionEnd::MiddlewareFailure <==> !stale
            && result == (BodyResult::MiddlewareStop { denial: false }),
{
}

/// A body of known length is read to its end, one without framing until the
/// connection ends where that ends it, and any other one is empty.
pub proof fn body_starts_as_it_is_framed(length: u64, until_eof: bool)
    ensures
        body::first_phase(BodyLength::ContentLength(length), until_eof) == if length == 0 {
            BodyPhase::Done
        } else {
            BodyPhase::Fixed(length)
        },
        body::first_phase(BodyLength::Chunked, until_eof) == (BodyPhase::ChunkSize { patient: true }),
        body::first_phase(BodyLength::Absent, until_eof) == if until_eof {
            BodyPhase::UntilEof
        } else {
            BodyPhase::Done
        },
{
}

/// The last bytes of a body of known length complete it; fewer leave the rest
/// open, and the end of the input there is an error.
pub proof fn known_length_is_read_to_its_end(
    model: BodyModel,
    settings: BodySettings,
    remaining: u64,
    data: Seq<u8>,
)
    requires
        model.phase == BodyPhase::Fixed(remaining),
        data.len() <= remaining,
        data.len() <= settings.unit_limit,
    ensures
        ({
            let (after, step) = body::transition(model, settings, EventModel::Payload(data));
            &&& step.error is None
            &&& after.phase == if data.len() == remaining {
                BodyPhase::Done
            } else {
                BodyPhase::Fixed((remaining - data.len()) as u64)
            }
            &&& data.len() == remaining ==> after.pending.len() == 0
            &&& after.trailers == model.trailers
        }),
        body::transition(model, settings, EventModel::Eof).1.error == Some(BodyFault::UnexpectedEnd),
{
}

/// A chunk is read as its size line says: so many bytes, then its end, and then
/// the next size line. Nothing of it is lost.
pub proof fn chunk_is_read_whole(
    model: BodyModel,
    settings: BodySettings,
    line: Seq<u8>,
    data: Seq<u8>,
)
    requires
        model.phase is ChunkSize,
        settings.unit_limit >= 1,
        model.pending.len() < settings.unit_limit,
        output::chunk_size_of(line) == Ok::<nat, ChunkSizeError>(data.len()),
        0 < data.len() <= settings.unit_limit,
    ensures
        ({
            let (a, first) = body::transition(model, settings, EventModel::Line(line));
            let (b, second) = body::transition(a, settings, EventModel::Payload(data));
            let (c, third) = body::transition(b, settings, EventModel::Exact(seq![13u8, 10u8]));
            &&& first.error is None && second.error is None && third.error is None
            &&& a.phase == BodyPhase::ChunkData(data.len() as usize)
            &&& b.phase is ChunkEnd
            &&& c.phase is ChunkSize
            &&& first.units.len() == 0 && third.units.len() == 0
            &&& body::concat(second.units) + c.pending == model.pending + data
            &&& c.trailers == model.trailers
        }),
{
    let (a, first) = body::transition(model, settings, EventModel::Line(line));
    body::step_keeps_payload(a, settings, EventModel::Payload(data));
}

/// A chunk that does not end as it must is an error.
pub proof fn chunk_must_end(model: BodyModel, settings: BodySettings, data: Seq<u8>)
    requires
        model.phase is ChunkEnd,
        data != seq![13u8, 10u8],
    ensures
        body::transition(model, settings, EventModel::Exact(data)).1.error == Some(
            BodyFault::ChunkTerminator,
        ),
{
}

/// The last chunk hands over what is pending and leads to the trailers; an empty
/// line ends these and the body.
pub proof fn last_chunk_leads_to_trailers(
    model: BodyModel,
    settings: BodySettings,
    line: Seq<u8>,
)
    requires
        model.phase is ChunkSize,
        output::chunk_size_of(line) == Ok::<nat, ChunkSizeError>(0),
    ensures
        ({
            let (a, first) = body::transition(model, settings, EventModel::Line(line));
            let (b, second) = body::transition(a, settings, EventModel::Line(Seq::empty()));
            &&& first.error is None && second.error is None
            &&& a.phase is Trailers
            &&& b.phase is Done
            &&& model.pending.len() > 0 ==> first.units == seq![model.pending]
            &&& model.pending.len() == 0 ==> first.units.len() == 0
            &&& second.units.len() == 0
            &&& b.pending.len() == 0
            &&& b.trailers == model.trailers
        }),
{
}

/// A trailer that may come is kept behind those before it, as long as there are
/// no more than the limit; one that may not is an error.
pub proof fn trailers_are_kept_in_order(
    model: BodyModel,
    settings: BodySettings,
    line: Seq<u8>,
)
    requires
        model.phase is Trailers,
        line.len() > 0,
    ensures
        ({
            let (after, step) = body::transition(model, settings, EventModel::Line(line));
            match output::trailer_field(
                line,
                text::texts(settings.connection_nominated@),
                settings.credentials,
            ) {
                Ok(field) => {
                    &&& after.trailers == model.trailers.push(field)
                    &&& after.phase is Trailers
                    &&& step.error is None <==> model.trailers.len() < settings.max_trailers
                },
                Err(fault) => step.error == Some(BodyFault::Trailer(fault)),
            }
        }),
{
}

/// A body that only the end of the connection ends is complete there, with all
/// that is pending handed over.
pub proof fn end_completes_an_unframed_body(model: BodyModel, settings: BodySettings)
    requires
        model.phase is UntilEof,
    ensures
        ({
            let (after, step) = body::transition(model, settings, EventModel::Eof);
            &&& after.phase is Done
            &&& step.error is None
            &&& after.pending.len() == 0
            &&& body::concat(step.units) == model.pending
        }),
{
    assert(seq![model.pending].drop_last() == Seq::<Seq<u8>>::empty());
    assert(body::concat(Seq::<Seq<u8>>::empty()) == Seq::<u8>::empty());
    assert(Seq::<u8>::empty() + model.pending == model.pending);
    if model.pending.len() == 0 {
        assert(model.pending == Seq::<u8>::empty());
    }
}

/// A body that ends inside a chunk, a size line or the trailers is an error.
pub proof fn early_end_is_an_error(model: BodyModel, settings: BodySettings)
    requires
        model.phase is ChunkData || model.phase is ChunkEnd || model.phase is ChunkSize
            || model.phase is Trailers || model.phase is Fixed,
    ensures
        body::transition(model, settings, EventModel::Eof).1.error == Some(
            if model.phase is ChunkSize || model.phase is Trailers {
                BodyFault::UnterminatedLine
            } else {
                BodyFault::UnexpectedEnd
            },
        ),
{
}

/// What is read next fits where the body stands: no more payload than is left or
/// than a unit holds, a line for a size or a trailer, two bytes for the end of a
/// chunk. Streams of events are waited for without limit.
pub proof fn what_is_read_fits(model: BodyModel, settings: BodySettings)
    ensures
        match body::wanted(model, settings) {
            BodyWant::Payload { limit, has_pending } => {
                &&& has_pending <==> model.pending.len() > 0
                &&& limit <= settings.unit_limit
                &&& match model.phase {
                    BodyPhase::Fixed(left) => limit <= left && (limit < settings.unit_limit
                        ==> limit == left),
                    BodyPhase::ChunkData(left) => limit <= left && (limit < settings.unit_limit
                        ==> limit == left),
                    _ => false,
                }
            },
            BodyWant::Exact { length, .. } => length == 2 && model.phase is ChunkEnd,
            BodyWant::Line { .. } => model.phase is ChunkSize || model.phase is Trailers,
            BodyWant::Available { limit, wait } => {
                &&& model.phase is UntilEof
                &&& limit == settings.unit_limit
                &&& wait == Wait::Coalesce <==> model.pending.len() > 0
                &&& model.pending.len() == 0 ==> (wait == Wait::Unlimited
                    <==> settings.event_stream)
            },
            BodyWant::Finished => model.phase is Done,
        },
{
}

/// The facts of a response are those that its head gives. A head without a status
/// counts as a success, and only one of HTTP/1.0 that does not keep the connection
/// closes it without saying so.
pub proof fn facts_are_those_of_the_head(head: Seq<char>, facts: ResponseFacts)
    requires
        relay::facts_of(head, facts),
    ensures
        facts.endpoint_result == EndpointResult::TransportFailed <==> head::observed_status_code(
            head,
        ) is None,
        facts.endpoint_result == EndpointResult::HttpResponseReceived <==> (
        head::observed_status_code(head) matches Some(code) && code <= 399),
        head::status_code(head) matches Some(code) ==> facts.status_code == code,
        head::status_code(head) is None ==> facts.status_code == 200,
        facts.server_wants_close <==> head::connection_closes(head),
        facts.http_10_closes_by_default <==> head::is_http_10(head)
            && !head::connection_keeps_alive(head),
        facts.event_stream <==> head::is_event_stream(head),
{
}

/// An interim response has a status from 100 to 199, but for 101, which is final.
pub proof fn interim_response_is_not_final(raw: Seq<u8>)
    ensures
        relay::is_interim(raw) <==> (head::observed_status_code(bytes::utf8_lossy(raw)) matches Some(
            status,
        ) && (status == 100 || 102 <= status <= 199)),
{
}

/// A line ends with a carriage return and a line feed, and with nothing else.
pub proof fn line_ends_with_its_ending(line: Seq<u8>, other: Seq<u8>)
    ensures
        reader::ends_line(line + seq![13u8, 10u8]),
        other.len() > 0 && other.last() != 10 ==> !reader::ends_line(other),
        !reader::ends_line(seq![10u8]),
        line.len() > 0 && line.last() != 13 ==> !reader::ends_line(line.push(10u8)),
{
    let ended = line + seq![13u8, 10u8];
    assert(ended[ended.len() - 2] == 13 && ended[ended.len() - 1] == 10);
}

/// The heads of a response are too large where the one that is complete ends beyond
/// what is left of the limit, or where one that is not complete reaches it.
pub proof fn heads_keep_to_their_limit(reader: relay::HeadReaderModel)
    ensures
        bytes::head_end(reader.buf) matches Some(end) ==> (reader.too_large() <==> reader.forwarded
            + end > reader.limit),
        bytes::head_end(reader.buf) is None ==> (reader.too_large() <==> reader.forwarded
            + reader.buf.len() >= reader.limit),
{
}

/// A connection that closes cannot be used again, and any other can.
pub proof fn closing_connection_is_consumed(closes: bool)
    ensures
        relay::outcome_of(closes) == RelayOutcome::Consumed <==> closes,
        relay::outcome_of(closes) == RelayOutcome::Reusable <==> !closes,
{
}

/// A session is open while the head is written and the body relayed. The middleware
/// holds one where it took the response in, or blocked it in a session.
pub proof fn session_is_open_while_relaying(relay: MiddlewareRelay, result: PreflightResult)
    ensures
        middleware::session_open(relay) <==> relay.phase is WritingHead || relay.phase
            is RelayingBody,
        middleware::holds_session(result) <==> result is Session || (
        result matches PreflightResult::Blocked { session, .. } && session),
{
}

/// What is replied in place of a response closes the connection and tells nothing
/// of the middleware. A failure is reported, a denial is not.
pub proof fn reply_stands_in_for_the_response(failure: bool)
    ensures
        ({
            let reply = if failure {
                middleware::reply_failure()
            } else {
                middleware::reply_denial()
            };
            &&& reply.next == Next::Complete(RelayOutcome::Consumed)
            &&& reply.end_session is None
            &&& !reply.diagnostics
            &&& reply.report == if failure {
                Some(Commitment::BeforeCommit)
            } else {
                None
            }
            &&& reply.reply == Some(
                if failure {
                    Reply::Failure
                } else {
                    Reply::Denial
                },
            )
        }),
{
}

/// A failure at the finish tells what the middleware said. Where the response had
/// been committed it gives up, and where not it is replied to: by a denial where the
/// middleware denied, and by a failure where it failed.
pub proof fn failure_at_the_finish_is_told(denial: bool)
    ensures
        ({
            let late = middleware::finish_failure(denial, true);
            let early = middleware::finish_failure(denial, false);
            &&& late.diagnostics && early.diagnostics
            &&& late.end_session is None && early.end_session is None
            &&& late.reply is None && late.report == Some(Commitment::AfterCommit)
            &&& late.next == Next::Fail(RelayFailure::FinishAfterCommit)
            &&& early.reply == Some(
                if denial {
                    Reply::Denial
                } else {
                    Reply::Failure
                },
            )
            &&& early.report == if denial {
                None
            } else {
                Some(Commitment::BeforeCommit)
            }
            &&& early.next == Next::Complete(RelayOutcome::Consumed)
        }),
{
}

/// A failure of the body tells nothing of what the middleware said, and ends the
/// session. Where the response had been committed it gives up, and where not it is
/// replied to.
pub proof fn failure_of_the_body_is_told(result: BodyResult, stale: bool)
    ensures
        ({
            let late = middleware::body_failure(result, true, stale);
            let early = middleware::body_failure(result, false, stale);
            let denied = result == (BodyResult::MiddlewareStop { denial: true });
            &&& !late.diagnostics && !early.diagnostics
            &&& late.end_session is Some && early.end_session == late.end_session
            &&& late.reply is None && late.report == Some(Commitment::AfterCommit)
            &&& late.next == Next::Fail(RelayFailure::BodyAfterCommit)
            &&& early.reply == Some(
                if denied {
                    Reply::Denial
                } else {
                    Reply::Failure
                },
            )
            &&& early.next == Next::Complete(RelayOutcome::Consumed)
        }),
{
}

} // verus!
