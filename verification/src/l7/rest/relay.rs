//! Relaying a response that no middleware changes.

use crate::bytes;
use crate::bytes::{append_bytes, find_head_end, slice, utf8_text_lossy};
use crate::l7::provider::BodyLength;
use crate::l7::rest::head;
use crate::l7::rest::head::{
    parse_connection_close, parse_connection_keep_alive, parse_observed_http_status_code,
    parse_status_code, response_is_event_stream, response_is_http_10, HttpHeader,
};
use crate::l7::rest::output;
use crate::l7::rest::output::{append_text, serialize_response_head, ResponseFraming};
use crate::text;
use vstd::prelude::*;

verus! {

/// Gathers the bytes of response heads. Interim responses are forwarded as
/// they come; the final head is retained.
#[derive(Debug)]
pub struct HeadReader {
    buf: Vec<u8>,
    informational_header_bytes: usize,
    limit: usize,
}

/// What a [`HeadReader`] denotes.
#[verifier::ext_equal]
pub struct HeadReaderModel {
    /// Bytes that were received and not forwarded.
    pub buf: Seq<u8>,
    /// How many bytes of interim heads were forwarded.
    pub forwarded: int,
    /// The greatest number of head bytes.
    pub limit: int,
}

impl View for HeadReader {
    type V = HeadReaderModel;

    closed spec fn view(&self) -> HeadReaderModel {
        HeadReaderModel {
            buf: self.buf@,
            forwarded: self.informational_header_bytes as int,
            limit: self.limit as int,
        }
    }
}

/// What to do with the bytes that a [`HeadReader`] holds.
#[derive(Debug)]
pub enum HeadStep {
    /// The heads exceed the limit.
    TooLarge,
    /// Forward an interim head.
    Forward(Vec<u8>),
    /// The final head ends here.
    Final(usize),
    /// Read more bytes.
    NeedMore,
}

/// Whether a head is that of an interim response other than an upgrade.
pub open spec fn is_interim(head: Seq<u8>) -> bool {
    match head::observed_status_code(bytes::utf8_lossy(head)) {
        Some(status) => 100 <= status <= 199 && status != 101,
        None => false,
    }
}

impl HeadReaderModel {
    /// The forwarded heads keep to the limit.
    pub open spec fn wf(self) -> bool {
        0 <= self.forwarded <= self.limit
    }

    /// Whether the head bytes exceed the limit.
    pub open spec fn too_large(self) -> bool {
        match bytes::head_end(self.buf) {
            Some(end) => end > self.limit - self.forwarded,
            None => self.buf.len() >= self.limit - self.forwarded,
        }
    }
}

impl HeadReader {
    /// A reader of heads of at most `limit` bytes in all.
    pub fn new(limit: usize) -> (reader: HeadReader)
        ensures
            reader@ == (HeadReaderModel { buf: seq![], forwarded: 0, limit: limit as int }),
            reader@.wf(),
    {
        let reader = HeadReader { buf: Vec::new(), informational_header_bytes: 0, limit };
        assert(reader@.buf == Seq::<u8>::empty());
        reader
    }

    /// Takes bytes that were read.
    pub fn extend(&mut self, data: &[u8])
        ensures
            final(self)@ == (HeadReaderModel { buf: old(self)@.buf + data@, ..old(self)@ }),
    {
        append_bytes(&mut self.buf, data);
    }

    /// Decides what to do with the bytes that are there.
    pub fn step(&mut self) -> (step: HeadStep)
        requires
            old(self)@.wf(),
        ensures
            final(self)@.wf(),
            final(self)@.limit == old(self)@.limit,
            step is TooLarge <==> old(self)@.too_large(),
            step is NeedMore <==> !old(self)@.too_large() && bytes::head_end(old(self)@.buf) is None,
            step is Forward <==> !old(self)@.too_large() && (bytes::head_end(
                old(self)@.buf,
            ) matches Some(end) && is_interim(old(self)@.buf.take(end))),
            step is Final <==> !old(self)@.too_large() && (bytes::head_end(
                old(self)@.buf,
            ) matches Some(end) && !is_interim(old(self)@.buf.take(end))),
            match step {
                HeadStep::Forward(head) => {
                    &&& bytes::head_end(old(self)@.buf) == Some(head@.len() as int)
                    &&& old(self)@.buf == head@ + final(self)@.buf
                    &&& final(self)@.forwarded == old(self)@.forwarded + head@.len()
                },
                HeadStep::Final(end) => {
                    &&& bytes::head_end(old(self)@.buf) == Some(end as int)
                    &&& 4 <= end <= old(self)@.buf.len()
                    &&& final(self)@ == old(self)@
                },
                _ => final(self)@ == old(self)@,
            },
    {
        let remaining: usize = self.limit - self.informational_header_bytes;
        match find_head_end(self.buf.as_slice()) {
            Some(end) => {
                if end > remaining {
                    return HeadStep::TooLarge;
                }
                let head = slice(self.buf.as_slice(), 0, end);
                assert(head@ == self.buf@.take(end as int));
                let text = utf8_text_lossy(head.as_slice());
                let interim = match parse_observed_http_status_code(text.as_str()) {
                    Some(status) => 100 <= status && status <= 199 && status != 101,
                    None => false,
                };
                if !interim {
                    return HeadStep::Final(end);
                }
                let rest = slice(self.buf.as_slice(), end, self.buf.len());
                assert(self.buf@ == head@ + rest@);
                self.informational_header_bytes = self.informational_header_bytes + end;
                self.buf = rest;
                HeadStep::Forward(head)
            },
            None => if self.buf.len() >= remaining {
                HeadStep::TooLarge
            } else {
                HeadStep::NeedMore
            },
        }
    }

    /// What is done where the input ends before a final head: the rest is
    /// forwarded, the transport has failed, and the connection is used up.
    pub fn end(self) -> (r: (Vec<u8>, EndpointResult, RelayOutcome))
        ensures
            r.0@ == self@.buf,
            r.1 == EndpointResult::TransportFailed,
            r.2 == RelayOutcome::Consumed,
    {
        (self.buf, EndpointResult::TransportFailed, RelayOutcome::Consumed)
    }

    /// The bytes that were received and not forwarded.
    pub fn into_bytes(self) -> (r: Vec<u8>)
        ensures
            r@ == self@.buf,
    {
        self.buf
    }
}

/// What an endpoint observer is told of a response.
#[derive(Debug, Clone, Copy, PartialEq, Eq, Structural)]
pub enum EndpointResult {
    HttpResponseReceived,
    UpstreamRejected,
    TransportFailed,
}

/// What a response head says of delivery.
#[derive(Debug, Clone, Copy, PartialEq, Eq, Structural)]
pub struct ResponseFacts {
    pub endpoint_result: EndpointResult,
    pub status_code: u16,
    pub server_wants_close: bool,
    pub http_10_closes_by_default: bool,
    pub event_stream: bool,
}

/// What an observer is told of a status.
pub open spec fn observed_result(status: Option<nat>) -> EndpointResult {
    match status {
        Some(code) => if code < 400 {
            EndpointResult::HttpResponseReceived
        } else {
            EndpointResult::UpstreamRejected
        },
        None => EndpointResult::TransportFailed,
    }
}

/// Whether facts are those of a response head.
pub open spec fn facts_of(head: Seq<char>, facts: ResponseFacts) -> bool {
    &&& facts.endpoint_result == observed_result(head::observed_status_code(head))
    &&& facts.status_code == match head::status_code(head) {
        Some(code) => code,
        None => 200,
    }
    &&& facts.server_wants_close == head::connection_closes(head)
    &&& facts.http_10_closes_by_default == (head::is_http_10(head)
        && !head::connection_keeps_alive(head))
    &&& facts.event_stream == head::is_event_stream(head)
}

/// Reads what a response head says of delivery.
pub fn response_facts(head: &str) -> (facts: ResponseFacts)
    ensures
        facts_of(head@, facts),
{
    let endpoint_result = match parse_observed_http_status_code(head) {
        Some(status) => if status < 400 {
            EndpointResult::HttpResponseReceived
        } else {
            EndpointResult::UpstreamRejected
        },
        None => EndpointResult::TransportFailed,
    };
    let status_code: u16 = match parse_status_code(head) {
        Some(code) => code,
        None => 200,
    };
    ResponseFacts {
        endpoint_result,
        status_code,
        server_wants_close: parse_connection_close(head),
        http_10_closes_by_default: response_is_http_10(head) && !parse_connection_keep_alive(head),
        event_stream: response_is_event_stream(head),
    }
}

/// Reads what the bytes of a response head say of delivery.
pub fn response_facts_of(head: &[u8]) -> (facts: ResponseFacts)
    ensures
        facts_of(bytes::utf8_lossy(head@), facts),
{
    let text = utf8_text_lossy(head);
    response_facts(text.as_str())
}

impl ResponseFacts {
    /// Whether the connection closes behind the response.
    pub fn connection_closes(self) -> (r: bool)
        ensures
            r == (self.server_wants_close || self.http_10_closes_by_default),
    {
        self.server_wants_close || self.http_10_closes_by_default
    }

    /// Whether a body without a length runs until the connection ends. Any
    /// other such body is empty.
    pub fn body_runs_until_end(self) -> (r: bool)
        ensures
            r == (self.server_wants_close || self.http_10_closes_by_default || self.event_stream),
    {
        self.connection_closes() || self.event_stream
    }
}

/// What follows the response head.
#[derive(Debug, Clone, Copy, PartialEq, Eq, Structural)]
pub enum AfterHead {
    /// The client asked for no upgrade: the response is dropped.
    RefuseUpgrade,
    /// Validate the upgrade response, then forward head and overflow.
    ValidateUpgrade,
    /// Ask the response middleware, which may deliver the response itself.
    RunMiddleware,
    /// Deliver the response.
    Deliver,
}

/// Decides what follows the response head.
pub fn after_response_head(
    status_code: u16,
    client_requested_upgrade: bool,
    has_middleware: bool,
) -> (next: AfterHead)
    ensures
        next == if status_code == 101 {
            if client_requested_upgrade {
                AfterHead::ValidateUpgrade
            } else {
                AfterHead::RefuseUpgrade
            }
        } else if has_middleware {
            AfterHead::RunMiddleware
        } else {
            AfterHead::Deliver
        },
{
    if status_code == 101 {
        if client_requested_upgrade {
            AfterHead::ValidateUpgrade
        } else {
            AfterHead::RefuseUpgrade
        }
    } else if has_middleware {
        AfterHead::RunMiddleware
    } else {
        AfterHead::Deliver
    }
}

/// Whether the upstream connection can serve another request.
#[derive(Debug, Clone, Copy, PartialEq, Eq, Structural)]
pub enum RelayOutcome {
    Reusable,
    Consumed,
}

/// How the rest of the body is relayed.
#[derive(Debug, Clone, Copy, PartialEq, Eq, Structural)]
pub enum BodyRelay {
    /// There is no more of it.
    Complete,
    /// This many bytes.
    Fixed(u64),
    /// Chunks, of which the overflow is the start.
    Chunked,
    /// All bytes until the connection ends, waiting without limit where
    /// `idle_timeout` is not set.
    UntilEof { idle_timeout: bool },
}

/// How a response is delivered.
#[derive(Debug)]
pub struct Delivery {
    /// What is written first.
    pub first: Vec<u8>,
    /// How the rest of the body is relayed.
    pub body: BodyRelay,
    /// Whether the client side is shut down at the end.
    pub shutdown: bool,
    pub outcome: RelayOutcome,
}

/// What a [`Delivery`] denotes.
#[verifier::ext_equal]
pub struct DeliveryModel {
    pub first: Seq<u8>,
    pub body: BodyRelay,
    pub shutdown: bool,
    pub outcome: RelayOutcome,
}

impl View for Delivery {
    type V = DeliveryModel;

    open spec fn view(&self) -> DeliveryModel {
        DeliveryModel {
            first: self.first@,
            body: self.body,
            shutdown: self.shutdown,
            outcome: self.outcome,
        }
    }
}

/// The outcome of a response that needs no more of the connection.
pub open spec fn outcome_of(closes: bool) -> RelayOutcome {
    if closes {
        RelayOutcome::Consumed
    } else {
        RelayOutcome::Reusable
    }
}

/// How the body of an explicitly framed response goes on behind its overflow.
pub open spec fn framed_rest(body_length: BodyLength, overflow: int) -> BodyRelay {
    match body_length {
        BodyLength::ContentLength(length) => if length > overflow {
            BodyRelay::Fixed((length - overflow) as u64)
        } else {
            BodyRelay::Complete
        },
        BodyLength::Chunked => BodyRelay::Chunked,
        BodyLength::Absent => BodyRelay::Complete,
    }
}

/// How a response is delivered that no middleware changes: `buffered` holds
/// its head up to `end` and the body bytes that came along.
pub open spec fn plain_delivery(
    facts: ResponseFacts,
    bodiless: bool,
    body_length: BodyLength,
    buffered: Seq<u8>,
    end: int,
) -> DeliveryModel {
    let closes = facts.server_wants_close || facts.http_10_closes_by_default;
    if bodiless {
        DeliveryModel {
            first: buffered.take(end),
            body: BodyRelay::Complete,
            shutdown: false,
            outcome: outcome_of(facts.server_wants_close),
        }
    } else if body_length == BodyLength::Absent {
        if closes || facts.event_stream {
            DeliveryModel {
                first: buffered.take(end - 2) + output::utf8(
                    if closes {
                        "Connection: close\r\n\r\n"@
                    } else {
                        "\r\n"@
                    },
                ) + buffered.skip(end),
                body: BodyRelay::UntilEof { idle_timeout: !facts.event_stream },
                shutdown: true,
                outcome: RelayOutcome::Consumed,
            }
        } else {
            DeliveryModel {
                first: buffered.take(end),
                body: BodyRelay::Complete,
                shutdown: false,
                outcome: RelayOutcome::Reusable,
            }
        }
    } else {
        DeliveryModel {
            first: buffered,
            body: framed_rest(body_length, buffered.len() - end),
            shutdown: false,
            outcome: RelayOutcome::Reusable,
        }
    }
}

fn rest_of_body(body_length: BodyLength, overflow: usize) -> (body: BodyRelay)
    ensures
        body == framed_rest(body_length, overflow as int),
{
    match body_length {
        BodyLength::ContentLength(length) => if length > overflow as u64 {
            BodyRelay::Fixed(length - overflow as u64)
        } else {
            BodyRelay::Complete
        },
        BodyLength::Chunked => BodyRelay::Chunked,
        BodyLength::Absent => BodyRelay::Complete,
    }
}

/// Decides how a response is delivered that no middleware changes.
///
/// Without framing the body ends with the connection where the server closes
/// it or streams events; otherwise the body is empty. With explicit framing
/// the connection counts as reusable even where the server announced to close
/// it: the next write finds out.
pub fn plan_delivery(
    facts: ResponseFacts,
    bodiless: bool,
    body_length: BodyLength,
    buffered: &[u8],
    header_end: usize,
) -> (delivery: Delivery)
    requires
        2 <= header_end <= buffered@.len(),
    ensures
        delivery@ == plain_delivery(facts, bodiless, body_length, buffered@, header_end as int),
{
    let closes = facts.server_wants_close || facts.http_10_closes_by_default;
    if bodiless {
        let first = slice(buffered, 0, header_end);
        assert(first@ == buffered@.take(header_end as int));
        return Delivery {
            first,
            body: BodyRelay::Complete,
            shutdown: false,
            outcome: if facts.server_wants_close {
                RelayOutcome::Consumed
            } else {
                RelayOutcome::Reusable
            },
        };
    }
    if body_length == BodyLength::Absent {
        if closes || facts.event_stream {
            let mut first = slice(buffered, 0, header_end - 2);
            assert(first@ == buffered@.take(header_end - 2));
            if closes {
                append_text(&mut first, "Connection: close\r\n\r\n");
            } else {
                append_text(&mut first, "\r\n");
            }
            let overflow = slice(buffered, header_end, buffered.len());
            assert(overflow@ == buffered@.skip(header_end as int));
            append_bytes(&mut first, overflow.as_slice());
            return Delivery {
                first,
                body: BodyRelay::UntilEof { idle_timeout: !facts.event_stream },
                shutdown: true,
                outcome: RelayOutcome::Consumed,
            };
        }
        let first = slice(buffered, 0, header_end);
        assert(first@ == buffered@.take(header_end as int));
        return Delivery {
            first,
            body: BodyRelay::Complete,
            shutdown: false,
            outcome: RelayOutcome::Reusable,
        };
    }
    let first = slice(buffered, 0, buffered.len());
    assert(first@ == buffered@);
    Delivery {
        first,
        body: rest_of_body(body_length, buffered.len() - header_end),
        shutdown: false,
        outcome: RelayOutcome::Reusable,
    }
}

/// How a response is delivered whose headers middleware changed.
pub open spec fn headers_only_delivery(
    head: Seq<u8>,
    bodiless: bool,
    body_length: BodyLength,
    server_wants_close: bool,
    event_stream: bool,
    overflow: Seq<u8>,
) -> DeliveryModel {
    if bodiless {
        DeliveryModel {
            first: head,
            body: BodyRelay::Complete,
            shutdown: false,
            outcome: outcome_of(server_wants_close),
        }
    } else if body_length == BodyLength::Absent && (server_wants_close || event_stream) {
        DeliveryModel {
            first: head + overflow,
            body: BodyRelay::UntilEof { idle_timeout: !event_stream },
            shutdown: false,
            outcome: RelayOutcome::Consumed,
        }
    } else {
        DeliveryModel {
            first: head + overflow,
            body: framed_rest(body_length, overflow.len() as int),
            shutdown: false,
            outcome: RelayOutcome::Reusable,
        }
    }
}

/// Decides how a response is delivered whose headers middleware changed and
/// whose body it leaves alone.
pub fn plan_headers_only_delivery(
    status_line: &str,
    headers: &Vec<HttpHeader>,
    preserved_credential_headers: &Vec<String>,
    declared_trailers: &Vec<String>,
    overflow: &[u8],
    bodiless: bool,
    body_length: BodyLength,
    server_wants_close: bool,
    event_stream: bool,
) -> (delivery: Delivery)
    ensures
        delivery@ == headers_only_delivery(
            output::utf8(
                output::head_text(
                    status_line@,
                    head::headers_of(headers@),
                    text::texts(preserved_credential_headers@),
                    ResponseFraming::Preserve(body_length),
                    server_wants_close,
                    text::texts(declared_trailers@),
                ),
            ),
            bodiless,
            body_length,
            server_wants_close,
            event_stream,
            overflow@,
        ),
{
    let mut first = serialize_response_head(
        status_line,
        headers,
        preserved_credential_headers,
        ResponseFraming::Preserve(body_length),
        server_wants_close,
        declared_trailers,
    );
    if bodiless {
        return Delivery {
            first,
            body: BodyRelay::Complete,
            shutdown: false,
            outcome: if server_wants_close {
                RelayOutcome::Consumed
            } else {
                RelayOutcome::Reusable
            },
        };
    }
    append_bytes(&mut first, overflow);
    if body_length == BodyLength::Absent && (server_wants_close || event_stream) {
        return Delivery {
            first,
            body: BodyRelay::UntilEof { idle_timeout: !event_stream },
            shutdown: false,
            outcome: RelayOutcome::Consumed,
        };
    }
    Delivery {
        first,
        body: rest_of_body(body_length, overflow.len()),
        shutdown: false,
        outcome: RelayOutcome::Reusable,
    }
}

/// A final head and the interim heads before it keep to the limit together.
pub proof fn final_head_keeps_to_limit(reader: HeadReaderModel)
    requires
        reader.wf(),
        !reader.too_large(),
        bytes::head_end(reader.buf) is Some,
    ensures
        reader.forwarded + bytes::head_end(reader.buf)->Some_0 <= reader.limit,
{
}

} // verus!
