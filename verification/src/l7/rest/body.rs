//! Response bodies on their way through middleware: transfer framing is taken
//! off and the payload is handed over in units of bounded size.

use crate::bytes::{append_bytes, slice};
use crate::l7::provider::BodyLength;
use crate::l7::rest::head;
use crate::l7::rest::head::{CredentialFields, FieldFault, HeaderModel, HttpHeader, ResponseFieldError};
use crate::l7::rest::output;
use crate::l7::rest::output::{parse_chunk_size, parse_response_trailer, ChunkSizeError};
use crate::numeral;
use crate::numeral::Base;
use crate::text;
use crate::text::CharClass;
use vstd::prelude::*;

verus! {

/// The whole units at the start of bytes.
pub open spec fn full_units(bytes: Seq<u8>, limit: int) -> Seq<Seq<u8>>
    decreases bytes.len(),
{
    if limit <= 0 || bytes.len() < limit {
        seq![]
    } else {
        seq![bytes.take(limit)] + full_units(bytes.skip(limit), limit)
    }
}

/// What whole units leave of bytes.
pub open spec fn leftover(bytes: Seq<u8>, limit: int) -> Seq<u8>
    decreases bytes.len(),
{
    if limit <= 0 || bytes.len() < limit {
        bytes
    } else {
        leftover(bytes.skip(limit), limit)
    }
}

/// Bytes as one unit, unless there are none.
pub open spec fn flushed(bytes: Seq<u8>) -> Seq<Seq<u8>> {
    if bytes.len() == 0 {
        seq![]
    } else {
        seq![bytes]
    }
}

/// The bytes of units in a row.
pub open spec fn concat(units: Seq<Seq<u8>>) -> Seq<u8>
    decreases units.len(),
{
    if units.len() == 0 {
        seq![]
    } else {
        concat(units.drop_last()) + units.last()
    }
}

/// The contents of a list of byte strings.
pub open spec fn contents(list: Seq<Vec<u8>>) -> Seq<Seq<u8>> {
    list.map_values(|unit: Vec<u8>| unit@)
}

/// Where the reading of a body stands.
#[derive(Debug, Clone, Copy, PartialEq, Eq, Structural)]
pub enum BodyPhase {
    /// This many bytes are left of a body of known length.
    Fixed(u64),
    /// A chunk-size line comes. A read that is not patient waits only briefly
    /// while payload is pending.
    ChunkSize { patient: bool },
    /// This many bytes are left of a chunk.
    ChunkData(usize),
    /// The end of a chunk comes.
    ChunkEnd { patient: bool },
    /// Trailer lines come.
    Trailers,
    /// The body goes on until the connection ends.
    UntilEof,
    /// The body is complete.
    Done,
}

/// How long a read may wait.
#[derive(Debug, Clone, Copy, PartialEq, Eq, Structural)]
pub enum Wait {
    Unlimited,
    Idle,
    Coalesce,
}

/// What is read next.
#[derive(Debug, Clone, Copy, PartialEq, Eq, Structural)]
pub enum BodyWant {
    /// Payload of up to this many bytes; what is there after a brief wait will
    /// do once there is some, or where payload is pending already.
    Payload { limit: usize, has_pending: bool },
    /// Exactly this many bytes.
    Exact { length: usize, wait: Wait },
    /// A line.
    Line { wait: Wait },
    /// Some bytes, up to this many.
    Available { limit: usize, wait: Wait },
    /// Nothing.
    Finished,
}

/// What is done where the wait for a read ran out.
#[derive(Debug, Clone, Copy, PartialEq, Eq, Structural)]
pub enum TimeoutStep {
    /// Expire the whole-body stages, then read on.
    Expire,
    /// Report that the wait ran out.
    Report,
}

impl BodyWant {
    /// Whether the time of whole-body stages can run out during a read. A brief
    /// read of framing does not look at it: the patient read behind it does.
    pub fn keeps_whole_deadline(self) -> (r: bool)
        ensures
            r == match self {
                BodyWant::Exact { wait, .. } => wait != Wait::Coalesce,
                BodyWant::Line { wait } => wait != Wait::Coalesce,
                BodyWant::Payload { .. } | BodyWant::Available { .. } => true,
                BodyWant::Finished => false,
            },
    {
        match self {
            BodyWant::Exact { wait, .. } => wait != Wait::Coalesce,
            BodyWant::Line { wait } => wait != Wait::Coalesce,
            BodyWant::Payload { .. } | BodyWant::Available { .. } => true,
            BodyWant::Finished => false,
        }
    }

    /// Decides what is done where the wait for a read of framing, or of what is
    /// available, ran out.
    pub fn after_timeout(self, whole_over: bool) -> (step: TimeoutStep)
        ensures
            step is Expire <==> whole_over && match self {
                BodyWant::Exact { wait, .. } => wait != Wait::Coalesce,
                BodyWant::Line { wait } => wait != Wait::Coalesce,
                BodyWant::Payload { .. } | BodyWant::Available { .. } => true,
                BodyWant::Finished => false,
            },
    {
        if whole_over && self.keeps_whole_deadline() {
            TimeoutStep::Expire
        } else {
            TimeoutStep::Report
        }
    }
}

/// What was read.
#[derive(Debug)]
pub enum BodyEvent {
    Payload(Vec<u8>),
    Exact(Vec<u8>),
    Line(Vec<u8>),
    Available(Vec<u8>),
    Timeout,
    Eof,
}

impl BodyEvent {
    /// Whether payload was read. The policy generation is looked at then, before
    /// the payload goes on.
    pub fn carries_payload(&self) -> (r: bool)
        ensures
            r == (self is Payload || self is Available),
    {
        match self {
            BodyEvent::Payload(_) | BodyEvent::Available(_) => true,
            _ => false,
        }
    }
}

/// What a [`BodyEvent`] denotes.
#[verifier::ext_equal]
pub enum EventModel {
    Payload(Seq<u8>),
    Exact(Seq<u8>),
    Line(Seq<u8>),
    Available(Seq<u8>),
    Timeout,
    Eof,
}

impl View for BodyEvent {
    type V = EventModel;

    open spec fn view(&self) -> EventModel {
        match self {
            BodyEvent::Payload(data) => EventModel::Payload(data@),
            BodyEvent::Exact(data) => EventModel::Exact(data@),
            BodyEvent::Line(data) => EventModel::Line(data@),
            BodyEvent::Available(data) => EventModel::Available(data@),
            BodyEvent::Timeout => EventModel::Timeout,
            BodyEvent::Eof => EventModel::Eof,
        }
    }
}

/// Why a body cannot be read on.
#[derive(Debug, PartialEq, Eq)]
pub enum BodyError {
    /// The body ended unexpectedly.
    UnexpectedEnd,
    /// The response ended inside a line.
    UnterminatedLine,
    ChunkSize(ChunkSizeError),
    ChunkTerminator,
    Trailer(ResponseFieldError),
    /// What was read is not what was to be read next.
    Unexpected,
}

/// What a [`BodyError`] denotes.
#[verifier::ext_equal]
pub enum BodyFault {
    UnexpectedEnd,
    UnterminatedLine,
    ChunkSize(ChunkSizeError),
    ChunkTerminator,
    Trailer(FieldFault),
    Unexpected,
}

impl View for BodyError {
    type V = BodyFault;

    open spec fn view(&self) -> BodyFault {
        match self {
            BodyError::UnexpectedEnd => BodyFault::UnexpectedEnd,
            BodyError::UnterminatedLine => BodyFault::UnterminatedLine,
            BodyError::ChunkSize(error) => BodyFault::ChunkSize(*error),
            BodyError::ChunkTerminator => BodyFault::ChunkTerminator,
            BodyError::Trailer(error) => BodyFault::Trailer(error@),
            BodyError::Unexpected => BodyFault::Unexpected,
        }
    }
}

/// The diagnostic of a body fault.
pub open spec fn body_fault_text(fault: BodyFault) -> Seq<char> {
    match fault {
        BodyFault::UnexpectedEnd => "HTTP response body ended unexpectedly"@,
        BodyFault::UnterminatedLine => "HTTP response ended before line terminator"@,
        BodyFault::ChunkSize(ChunkSizeError::Encoding) => {
            "Invalid UTF-8 in response chunk-size line"@
        },
        BodyFault::ChunkSize(ChunkSizeError::Number) => "Invalid HTTP response chunk size"@,
        BodyFault::ChunkTerminator => "HTTP response chunk is missing its terminator"@,
        BodyFault::Trailer(fault) => head::fault_text(fault),
        BodyFault::Unexpected => "HTTP response reader exact-read state mismatch"@,
    }
}

impl BodyError {
    /// The diagnostic.
    pub fn message(&self) -> (r: String)
        ensures
            r@ == body_fault_text(self@),
    {
        match self {
            BodyError::UnexpectedEnd => "HTTP response body ended unexpectedly".to_string(),
            BodyError::UnterminatedLine => "HTTP response ended before line terminator".to_string(),
            BodyError::ChunkSize(ChunkSizeError::Encoding) => {
                "Invalid UTF-8 in response chunk-size line".to_string()
            },
            BodyError::ChunkSize(ChunkSizeError::Number) => {
                "Invalid HTTP response chunk size".to_string()
            },
            BodyError::ChunkTerminator => {
                "HTTP response chunk is missing its terminator".to_string()
            },
            BodyError::Trailer(error) => error.message(),
            BodyError::Unexpected => "HTTP response reader exact-read state mismatch".to_string(),
        }
    }
}

/// What holds for one response while its body is read.
#[derive(Debug)]
pub struct BodySettings {
    /// The greatest size of a unit, from one up.
    pub unit_limit: usize,
    /// Whether the response streams events.
    pub event_stream: bool,
    /// The greatest number of trailers.
    pub max_trailers: usize,
    /// The names that `Connection` fields nominate.
    pub connection_nominated: Vec<String>,
    /// The names of credential fields.
    pub credentials: CredentialFields,
}

/// The reading of one body.
#[derive(Debug)]
pub struct BodyMachine {
    pub phase: BodyPhase,
    /// Payload that makes no whole unit yet.
    pub pending: Vec<u8>,
    pub trailers: Vec<HttpHeader>,
    pub settings: BodySettings,
}

/// Where the reading of a body stands.
#[verifier::ext_equal]
pub struct BodyModel {
    pub phase: BodyPhase,
    pub pending: Seq<u8>,
    pub trailers: Seq<HeaderModel>,
}

impl View for BodyMachine {
    type V = BodyModel;

    open spec fn view(&self) -> BodyModel {
        BodyModel {
            phase: self.phase,
            pending: self.pending@,
            trailers: head::headers_of(self.trailers@),
        }
    }
}

/// What a read leads to: units for the middleware, in order, and whether the
/// body cannot be read on.
#[derive(Debug)]
pub struct BodyStep {
    pub units: Vec<Vec<u8>>,
    pub error: Option<BodyError>,
}

/// What a [`BodyStep`] denotes.
#[verifier::ext_equal]
pub struct StepModel {
    pub units: Seq<Seq<u8>>,
    pub error: Option<BodyFault>,
}

impl View for BodyStep {
    type V = StepModel;

    open spec fn view(&self) -> StepModel {
        StepModel {
            units: contents(self.units@),
            error: match self.error {
                Some(error) => Some(error@),
                None => None,
            },
        }
    }
}

/// The phase in which the reading of a body starts.
pub open spec fn first_phase(body_length: BodyLength, until_eof: bool) -> BodyPhase {
    match body_length {
        BodyLength::ContentLength(length) => if length == 0 {
            BodyPhase::Done
        } else {
            BodyPhase::Fixed(length)
        },
        BodyLength::Chunked => BodyPhase::ChunkSize { patient: true },
        BodyLength::Absent => if until_eof {
            BodyPhase::UntilEof
        } else {
            BodyPhase::Done
        },
    }
}

/// The lesser of two numbers.
pub open spec fn least(a: int, b: int) -> int {
    if a < b {
        a
    } else {
        b
    }
}

/// What is read next in a phase.
pub open spec fn wanted(model: BodyModel, settings: BodySettings) -> BodyWant {
    let brief = |patient: bool|
        if patient {
            Wait::Unlimited
        } else {
            Wait::Coalesce
        };
    match model.phase {
        BodyPhase::Fixed(remaining) => BodyWant::Payload {
            limit: least(remaining as int, settings.unit_limit as int) as usize,
            has_pending: model.pending.len() > 0,
        },
        BodyPhase::ChunkData(remaining) => BodyWant::Payload {
            limit: least(remaining as int, settings.unit_limit as int) as usize,
            has_pending: model.pending.len() > 0,
        },
        BodyPhase::ChunkSize { patient } => BodyWant::Line { wait: brief(patient) },
        BodyPhase::ChunkEnd { patient } => BodyWant::Exact { length: 2, wait: brief(patient) },
        BodyPhase::Trailers => BodyWant::Line { wait: Wait::Unlimited },
        BodyPhase::UntilEof => BodyWant::Available {
            limit: settings.unit_limit,
            wait: if model.pending.len() > 0 {
                Wait::Coalesce
            } else if settings.event_stream {
                Wait::Unlimited
            } else {
                Wait::Idle
            },
        },
        BodyPhase::Done => BodyWant::Finished,
    }
}

/// A step with units and no error.
pub open spec fn units_step(units: Seq<Seq<u8>>) -> StepModel {
    StepModel { units, error: None }
}

/// A step that ends in an error.
pub open spec fn fault_step(fault: BodyFault) -> StepModel {
    StepModel { units: seq![], error: Some(fault) }
}

/// What payload leads to, of which `remaining` bytes were left and at most
/// `limit` were asked for: whole units, and what is left where the payload
/// came up short or was the last of a body.
pub open spec fn payload_step(
    pending: Seq<u8>,
    data: Seq<u8>,
    limit: int,
    unit_limit: int,
    ends: bool,
) -> (Seq<u8>, Seq<Seq<u8>>) {
    let all = pending + data;
    let rest = leftover(all, unit_limit);
    if data.len() < limit || ends {
        (seq![], full_units(all, unit_limit) + flushed(rest))
    } else {
        (rest, full_units(all, unit_limit))
    }
}

/// What a read leads to.
pub open spec fn transition(model: BodyModel, settings: BodySettings, event: EventModel) -> (
    BodyModel,
    StepModel,
) {
    let unit = settings.unit_limit as int;
    match (model.phase, event) {
        (BodyPhase::Fixed(remaining), EventModel::Payload(data)) => {
            let limit = least(remaining as int, unit);
            if data.len() > limit {
                (model, fault_step(BodyFault::Unexpected))
            } else {
                let left = (remaining - data.len()) as u64;
                let (pending, units) = payload_step(model.pending, data, limit, unit, left == 0);
                (
                    BodyModel {
                        phase: if left == 0 {
                            BodyPhase::Done
                        } else {
                            BodyPhase::Fixed(left)
                        },
                        pending,
                        trailers: model.trailers,
                    },
                    units_step(units),
                )
            }
        },
        (BodyPhase::ChunkData(remaining), EventModel::Payload(data)) => {
            let limit = least(remaining as int, unit);
            if data.len() > limit {
                (model, fault_step(BodyFault::Unexpected))
            } else {
                let left = (remaining - data.len()) as usize;
                let (pending, units) = payload_step(model.pending, data, limit, unit, false);
                (
                    BodyModel {
                        phase: if left == 0 {
                            BodyPhase::ChunkEnd { patient: false }
                        } else {
                            BodyPhase::ChunkData(left)
                        },
                        pending,
                        trailers: model.trailers,
                    },
                    units_step(units),
                )
            }
        },
        (BodyPhase::ChunkSize { .. }, EventModel::Line(line)) => match output::chunk_size_of(line) {
            Err(error) => (model, fault_step(BodyFault::ChunkSize(error))),
            Ok(size) => if size == 0 {
                (
                    BodyModel { phase: BodyPhase::Trailers, pending: seq![], ..model },
                    units_step(flushed(model.pending)),
                )
            } else {
                (
                    BodyModel { phase: BodyPhase::ChunkData(size as usize), ..model },
                    units_step(seq![]),
                )
            },
        },
        (BodyPhase::ChunkEnd { .. }, EventModel::Exact(data)) => if data == seq![13u8, 10u8] {
            (
                BodyModel { phase: BodyPhase::ChunkSize { patient: false }, ..model },
                units_step(seq![]),
            )
        } else {
            (model, fault_step(BodyFault::ChunkTerminator))
        },
        (BodyPhase::ChunkSize { patient: false }, EventModel::Timeout) => (
            BodyModel {
                phase: BodyPhase::ChunkSize { patient: true },
                pending: seq![],
                trailers: model.trailers,
            },
            units_step(flushed(model.pending)),
        ),
        (BodyPhase::ChunkEnd { patient: false }, EventModel::Timeout) => (
            BodyModel {
                phase: BodyPhase::ChunkEnd { patient: true },
                pending: seq![],
                trailers: model.trailers,
            },
            units_step(flushed(model.pending)),
        ),
        (BodyPhase::Trailers, EventModel::Line(line)) => if line.len() == 0 {
            (BodyModel { phase: BodyPhase::Done, ..model }, units_step(seq![]))
        } else {
            match output::trailer_field(
                line,
                text::texts(settings.connection_nominated@),
                settings.credentials,
            ) {
                Err(fault) => (model, fault_step(BodyFault::Trailer(fault))),
                Ok(field) => {
                    let trailers = model.trailers.push(field);
                    (
                        BodyModel { trailers, ..model },
                        if trailers.len() > settings.max_trailers {
                            fault_step(BodyFault::Trailer(FieldFault::TrailerCount))
                        } else {
                            units_step(seq![])
                        },
                    )
                },
            }
        },
        (BodyPhase::UntilEof, EventModel::Available(data)) => (
            BodyModel { pending: leftover(model.pending + data, unit), ..model },
            units_step(full_units(model.pending + data, unit)),
        ),
        (BodyPhase::UntilEof, EventModel::Timeout) => (
            BodyModel {
                phase: if model.pending.len() == 0 {
                    BodyPhase::Done
                } else {
                    BodyPhase::UntilEof
                },
                pending: seq![],
                trailers: model.trailers,
            },
            units_step(flushed(model.pending)),
        ),
        (BodyPhase::UntilEof, EventModel::Eof) => (
            BodyModel { phase: BodyPhase::Done, pending: seq![], trailers: model.trailers },
            units_step(flushed(model.pending)),
        ),
        (BodyPhase::Fixed(_), EventModel::Eof) | (BodyPhase::ChunkData(_), EventModel::Eof) | (
            BodyPhase::ChunkEnd { .. },
            EventModel::Eof,
        ) => (model, fault_step(BodyFault::UnexpectedEnd)),
        (BodyPhase::ChunkSize { .. }, EventModel::Eof) | (BodyPhase::Trailers, EventModel::Eof) => (
            model,
            fault_step(BodyFault::UnterminatedLine),
        ),
        _ => (model, fault_step(BodyFault::Unexpected)),
    }
}

/// Cuts whole units off the start of `pending`, which keeps the rest.
pub fn take_units(pending: &mut Vec<u8>, unit_limit: usize) -> (units: Vec<Vec<u8>>)
    requires
        unit_limit >= 1,
    ensures
        contents(units@) == full_units(old(pending)@, unit_limit as int),
        final(pending)@ == leftover(old(pending)@, unit_limit as int),
{
    let ghost all = pending@;
    let ghost limit = unit_limit as int;
    let mut units: Vec<Vec<u8>> = Vec::new();
    assert(contents(units@) + full_units(pending@, limit) == full_units(all, limit));
    while pending.len() >= unit_limit
        invariant
            unit_limit >= 1,
            limit == unit_limit as int,
            contents(units@) + full_units(pending@, limit) == full_units(all, limit),
            leftover(pending@, limit) == leftover(all, limit),
        decreases pending@.len(),
    {
        let ghost whole = pending@;
        let ghost before = contents(units@);
        let unit = slice(pending.as_slice(), 0, unit_limit);
        let rest = slice(pending.as_slice(), unit_limit, pending.len());
        assert(unit@ == whole.take(limit));
        assert(rest@ == whole.skip(limit));
        units.push(unit);
        assert(contents(units@) == before.push(whole.take(limit)));
        *pending = rest;
        assert(before.push(whole.take(limit)) + full_units(whole.skip(limit), limit) == before + (
        seq![whole.take(limit)] + full_units(whole.skip(limit), limit)));
    }
    assert(contents(units@) + Seq::<Seq<u8>>::empty() == contents(units@));
    units
}

fn push_flushed(units: &mut Vec<Vec<u8>>, pending: &mut Vec<u8>)
    ensures
        contents(final(units)@) == contents(old(units)@) + flushed(old(pending)@),
        final(pending)@ == Seq::<u8>::empty(),
{
    let ghost before = contents(units@);
    if pending.len() > 0 {
        let unit = slice(pending.as_slice(), 0, pending.len());
        assert(unit@ == pending@);
        units.push(unit);
        assert(contents(units@) == before + seq![unit@]);
        *pending = Vec::new();
        assert(pending@ == Seq::<u8>::empty());
    } else {
        assert(pending@ == Seq::<u8>::empty());
        assert(contents(units@) == before + Seq::<Seq<u8>>::empty());
    }
}

fn take_payload(
    pending: &mut Vec<u8>,
    data: &Vec<u8>,
    limit: usize,
    unit_limit: usize,
    ends: bool,
) -> (units: Vec<Vec<u8>>)
    requires
        unit_limit >= 1,
    ensures
        (final(pending)@, contents(units@)) == payload_step(
            old(pending)@,
            data@,
            limit as int,
            unit_limit as int,
            ends,
        ),
{
    append_bytes(pending, data.as_slice());
    let mut units = take_units(pending, unit_limit);
    if data.len() < limit || ends {
        push_flushed(&mut units, pending);
    }
    units
}

fn step_of(units: Vec<Vec<u8>>) -> (step: BodyStep)
    ensures
        step@ == units_step(contents(units@)),
{
    BodyStep { units, error: None }
}

fn no_units() -> (step: BodyStep)
    ensures
        step@ == units_step(seq![]),
{
    let step = BodyStep { units: Vec::new(), error: None };
    assert(step@.units == Seq::<Seq<u8>>::empty());
    step
}

fn failed(error: BodyError) -> (step: BodyStep)
    ensures
        step@ == fault_step(error@),
{
    let step = BodyStep { units: Vec::new(), error: Some(error) };
    assert(step@.units == Seq::<Seq<u8>>::empty());
    step
}

impl BodyMachine {
    /// Begins to read a body. Without framing it is read until the connection
    /// ends where `until_eof` says so, and is empty otherwise.
    pub fn start(body_length: BodyLength, until_eof: bool, settings: BodySettings) -> (machine:
        BodyMachine)
        requires
            settings.unit_limit >= 1,
        ensures
            machine@ == (BodyModel {
                phase: first_phase(body_length, until_eof),
                pending: seq![],
                trailers: seq![],
            }),
            machine.settings == settings,
    {
        let phase = match body_length {
            BodyLength::ContentLength(length) => if length == 0 {
                BodyPhase::Done
            } else {
                BodyPhase::Fixed(length)
            },
            BodyLength::Chunked => BodyPhase::ChunkSize { patient: true },
            BodyLength::Absent => if until_eof {
                BodyPhase::UntilEof
            } else {
                BodyPhase::Done
            },
        };
        let machine = BodyMachine { phase, pending: Vec::new(), trailers: Vec::new(), settings };
        assert(machine@.pending == Seq::<u8>::empty());
        assert(machine@.trailers == Seq::<HeaderModel>::empty());
        machine
    }

    /// What is read next.
    pub fn want(&self) -> (want: BodyWant)
        ensures
            want == wanted(self@, self.settings),
    {
        let has_pending = self.pending.len() > 0;
        let unit_limit: usize = self.settings.unit_limit;
        match self.phase {
            BodyPhase::Fixed(remaining) => BodyWant::Payload {
                limit: if remaining < unit_limit as u64 {
                    remaining as usize
                } else {
                    unit_limit
                },
                has_pending,
            },
            BodyPhase::ChunkData(remaining) => BodyWant::Payload {
                limit: if remaining < unit_limit {
                    remaining
                } else {
                    unit_limit
                },
                has_pending,
            },
            BodyPhase::ChunkSize { patient } => BodyWant::Line {
                wait: if patient {
                    Wait::Unlimited
                } else {
                    Wait::Coalesce
                },
            },
            BodyPhase::ChunkEnd { patient } => BodyWant::Exact {
                length: 2,
                wait: if patient {
                    Wait::Unlimited
                } else {
                    Wait::Coalesce
                },
            },
            BodyPhase::Trailers => BodyWant::Line { wait: Wait::Unlimited },
            BodyPhase::UntilEof => BodyWant::Available {
                limit: unit_limit,
                wait: if has_pending {
                    Wait::Coalesce
                } else if self.settings.event_stream {
                    Wait::Unlimited
                } else {
                    Wait::Idle
                },
            },
            BodyPhase::Done => BodyWant::Finished,
        }
    }

    fn flush(&mut self) -> (units: Vec<Vec<u8>>)
        ensures
            contents(units@) == flushed(old(self).pending@),
            final(self).pending@ == Seq::<u8>::empty(),
            final(self).phase == old(self).phase,
            final(self).trailers == old(self).trailers,
            final(self).settings == old(self).settings,
    {
        let mut units: Vec<Vec<u8>> = Vec::new();
        let ghost bytes = self.pending@;
        push_flushed(&mut units, &mut self.pending);
        assert(contents(units@) == flushed(bytes));
        units
    }

    fn on_fixed(&mut self, remaining: u64, data: Vec<u8>) -> (step: BodyStep)
        requires
            old(self).settings.unit_limit >= 1,
            old(self).phase == BodyPhase::Fixed(remaining),
        ensures
            final(self).settings == old(self).settings,
            (final(self)@, step@) == transition(
                old(self)@,
                old(self).settings,
                EventModel::Payload(data@),
            ),
    {
        let unit_limit: usize = self.settings.unit_limit;
        let limit: usize = if remaining < unit_limit as u64 {
            remaining as usize
        } else {
            unit_limit
        };
        if data.len() > limit {
            return failed(BodyError::Unexpected);
        }
        let left: u64 = remaining - data.len() as u64;
        let units = take_payload(&mut self.pending, &data, limit, unit_limit, left == 0);
        self.phase = if left == 0 {
            BodyPhase::Done
        } else {
            BodyPhase::Fixed(left)
        };
        step_of(units)
    }

    fn on_chunk_data(&mut self, remaining: usize, data: Vec<u8>) -> (step: BodyStep)
        requires
            old(self).settings.unit_limit >= 1,
            old(self).phase == BodyPhase::ChunkData(remaining),
        ensures
            final(self).settings == old(self).settings,
            (final(self)@, step@) == transition(
                old(self)@,
                old(self).settings,
                EventModel::Payload(data@),
            ),
    {
        let unit_limit: usize = self.settings.unit_limit;
        let limit: usize = if remaining < unit_limit {
            remaining
        } else {
            unit_limit
        };
        if data.len() > limit {
            return failed(BodyError::Unexpected);
        }
        let left: usize = remaining - data.len();
        let units = take_payload(&mut self.pending, &data, limit, unit_limit, false);
        self.phase = if left == 0 {
            BodyPhase::ChunkEnd { patient: false }
        } else {
            BodyPhase::ChunkData(left)
        };
        step_of(units)
    }

    fn on_trailer(&mut self, line: Vec<u8>) -> (step: BodyStep)
        requires
            old(self).phase == BodyPhase::Trailers,
        ensures
            final(self).settings == old(self).settings,
            (final(self)@, step@) == transition(
                old(self)@,
                old(self).settings,
                EventModel::Line(line@),
            ),
    {
        if line.len() == 0 {
            self.phase = BodyPhase::Done;
            return no_units();
        }
        match parse_response_trailer(
            line.as_slice(),
            &self.settings.connection_nominated,
            &self.settings.credentials,
        ) {
            Err(error) => failed(BodyError::Trailer(error)),
            Ok(field) => {
                let ghost before = head::headers_of(self.trailers@);
                let ghost model = field@;
                self.trailers.push(field);
                assert(head::headers_of(self.trailers@) == before.push(model));
                if self.trailers.len() > self.settings.max_trailers {
                    failed(BodyError::Trailer(ResponseFieldError::TrailerCount))
                } else {
                    no_units()
                }
            },
        }
    }

    /// Takes what was read.
    pub fn on(&mut self, event: BodyEvent) -> (step: BodyStep)
        requires
            old(self).settings.unit_limit >= 1,
        ensures
            final(self).settings == old(self).settings,
            (final(self)@, step@) == transition(old(self)@, old(self).settings, event@),
    {
        match (self.phase, event) {
            (BodyPhase::Fixed(remaining), BodyEvent::Payload(data)) => self.on_fixed(
                remaining,
                data,
            ),
            (BodyPhase::ChunkData(remaining), BodyEvent::Payload(data)) => self.on_chunk_data(
                remaining,
                data,
            ),
            (BodyPhase::ChunkSize { .. }, BodyEvent::Line(line)) => match parse_chunk_size(
                line.as_slice(),
            ) {
                Err(error) => failed(BodyError::ChunkSize(error)),
                Ok(size) => if size == 0 {
                    let units = self.flush();
                    self.phase = BodyPhase::Trailers;
                    step_of(units)
                } else {
                    self.phase = BodyPhase::ChunkData(size);
                    no_units()
                },
            },
            (BodyPhase::ChunkEnd { .. }, BodyEvent::Exact(data)) => if data.len() == 2 && data[0]
                == 13 && data[1] == 10 {
                assert(data@ == seq![13u8, 10u8]);
                self.phase = BodyPhase::ChunkSize { patient: false };
                no_units()
            } else {
                assert(seq![13u8, 10u8].len() == 2 && seq![13u8, 10u8][0] == 13
                    && seq![13u8, 10u8][1] == 10);
                failed(BodyError::ChunkTerminator)
            },
            (BodyPhase::ChunkSize { patient: false }, BodyEvent::Timeout) => {
                let units = self.flush();
                self.phase = BodyPhase::ChunkSize { patient: true };
                step_of(units)
            },
            (BodyPhase::ChunkEnd { patient: false }, BodyEvent::Timeout) => {
                let units = self.flush();
                self.phase = BodyPhase::ChunkEnd { patient: true };
                step_of(units)
            },
            (BodyPhase::Trailers, BodyEvent::Line(line)) => self.on_trailer(line),
            (BodyPhase::UntilEof, BodyEvent::Available(data)) => {
                append_bytes(&mut self.pending, data.as_slice());
                let units = take_units(&mut self.pending, self.settings.unit_limit);
                step_of(units)
            },
            (BodyPhase::UntilEof, BodyEvent::Timeout) => {
                if self.pending.len() == 0 {
                    self.phase = BodyPhase::Done;
                }
                let units = self.flush();
                step_of(units)
            },
            (BodyPhase::UntilEof, BodyEvent::Eof) => {
                let units = self.flush();
                self.phase = BodyPhase::Done;
                step_of(units)
            },
            (BodyPhase::Fixed(_), BodyEvent::Eof)
            | (BodyPhase::ChunkData(_), BodyEvent::Eof)
            | (BodyPhase::ChunkEnd { .. }, BodyEvent::Eof) => failed(BodyError::UnexpectedEnd),
            (BodyPhase::ChunkSize { .. }, BodyEvent::Eof) | (BodyPhase::Trailers, BodyEvent::Eof) => failed(
                BodyError::UnterminatedLine,
            ),
            _ => failed(BodyError::Unexpected),
        }
    }
}

/// The bytes of two rows of units, one after the other.
proof fn lemma_concat_add(a: Seq<Seq<u8>>, b: Seq<Seq<u8>>)
    ensures
        concat(a + b) == concat(a) + concat(b),
    decreases b.len(),
{
    if b.len() == 0 {
        assert(a + b == a);
        assert(concat(a) + concat(b) == concat(a));
    } else {
        assert((a + b).drop_last() == a + b.drop_last());
        lemma_concat_add(a, b.drop_last());
        assert((concat(a) + concat(b.drop_last())) + b.last() == concat(a) + (concat(b.drop_last())
            + b.last()));
    }
}

proof fn lemma_concat_one(unit: Seq<u8>)
    ensures
        concat(seq![unit]) == unit,
{
    assert(seq![unit].drop_last() == Seq::<Seq<u8>>::empty());
    assert(concat(seq![unit].drop_last()) == Seq::<u8>::empty());
    assert(Seq::<u8>::empty() + unit == unit);
}

/// Cutting bytes into units loses nothing and changes no order: the units and
/// what is left make up the bytes, each unit has the full size, and less than
/// a unit is left.
pub proof fn units_make_up_bytes(bytes: Seq<u8>, limit: int)
    requires
        limit >= 1,
    ensures
        concat(full_units(bytes, limit)) + leftover(bytes, limit) == bytes,
        leftover(bytes, limit).len() < limit,
        forall|i: int|
            0 <= i < full_units(bytes, limit).len() ==> (#[trigger] full_units(
                bytes,
                limit,
            )[i]).len() == limit,
    decreases bytes.len(),
{
    if bytes.len() < limit {
        assert(Seq::<u8>::empty() + bytes == bytes);
    } else {
        let rest = bytes.skip(limit);
        units_make_up_bytes(rest, limit);
        lemma_concat_add(seq![bytes.take(limit)], full_units(rest, limit));
        lemma_concat_one(bytes.take(limit));
        assert((bytes.take(limit) + concat(full_units(rest, limit))) + leftover(rest, limit)
            == bytes.take(limit) + (concat(full_units(rest, limit)) + leftover(rest, limit)));
        assert(bytes.take(limit) + rest == bytes);
    }
}

/// The payload that an event carries.
pub open spec fn payload_of(model: BodyModel, event: EventModel) -> Seq<u8> {
    match (model.phase, event) {
        (BodyPhase::Fixed(_), EventModel::Payload(data)) => data,
        (BodyPhase::ChunkData(_), EventModel::Payload(data)) => data,
        (BodyPhase::UntilEof, EventModel::Available(data)) => data,
        _ => seq![],
    }
}

proof fn lemma_flushed(bytes: Seq<u8>)
    ensures
        concat(flushed(bytes)) == bytes,
{
    if bytes.len() == 0 {
        assert(bytes == Seq::<u8>::empty());
    } else {
        lemma_concat_one(bytes);
    }
}

/// A read without an error hands over, or keeps pending, exactly the payload
/// that was pending and the payload that was read, in order; the units that it
/// hands over are not empty and keep to the limit.
pub proof fn step_keeps_payload(model: BodyModel, settings: BodySettings, event: EventModel)
    requires
        settings.unit_limit >= 1,
        model.pending.len() < settings.unit_limit,
        transition(model, settings, event).1.error is None,
    ensures
        ({
            let (after, step) = transition(model, settings, event);
            &&& concat(step.units) + after.pending == model.pending + payload_of(model, event)
            &&& after.pending.len() < settings.unit_limit
            &&& forall|i: int|
                0 <= i < step.units.len() ==> 0 < (#[trigger] step.units[i]).len()
                    <= settings.unit_limit
        }),
{
    let limit = settings.unit_limit as int;
    let (after, step) = transition(model, settings, event);
    let all = model.pending + payload_of(model, event);
    units_make_up_bytes(all, limit);
    let rest = leftover(all, limit);
    lemma_flushed(rest);
    lemma_flushed(model.pending);
    lemma_concat_add(full_units(all, limit), flushed(rest));
    assert(concat(full_units(all, limit) + flushed(rest)) + Seq::<u8>::empty() == all);
    assert(model.pending + Seq::<u8>::empty() == model.pending);
    assert(Seq::<u8>::empty() + model.pending == model.pending);
    if step.units == full_units(all, limit) + flushed(rest) {
        assert forall|i: int| 0 <= i < step.units.len() implies 0 < (#[trigger] step.units[i]).len()
            <= settings.unit_limit by {
            if i < full_units(all, limit).len() {
                assert(step.units[i] == full_units(all, limit)[i]);
            }
        }
    }
}

/// All units of a run of reads, and where it ends, as long as no read fails.
pub open spec fn run(model: BodyModel, settings: BodySettings, events: Seq<EventModel>) -> Option<
    (BodyModel, Seq<Seq<u8>>),
>
    decreases events.len(),
{
    if events.len() == 0 {
        Some((model, seq![]))
    } else {
        match run(model, settings, events.drop_last()) {
            None => None,
            Some((before, units)) => {
                let (after, step) = transition(before, settings, events.last());
                if step.error is None {
                    Some((after, units + step.units))
                } else {
                    None
                }
            },
        }
    }
}

/// The payload that a run of reads received.
pub open spec fn received(model: BodyModel, settings: BodySettings, events: Seq<EventModel>) -> Seq<u8>
    decreases events.len(),
{
    if events.len() == 0 {
        seq![]
    } else {
        match run(model, settings, events.drop_last()) {
            None => seq![],
            Some((before, _)) => received(model, settings, events.drop_last()) + payload_of(
                before,
                events.last(),
            ),
        }
    }
}

/// A body that was read to its end was handed over whole and in order: the
/// units make up the payload that was received. No unit is empty, and all keep
/// to the limit.
pub proof fn complete_body_is_handed_over(
    start: BodyModel,
    settings: BodySettings,
    events: Seq<EventModel>,
)
    requires
        settings.unit_limit >= 1,
        start.pending.len() == 0,
        run(start, settings, events) is Some,
    ensures
        ({
            let (end, units) = run(start, settings, events)->Some_0;
            &&& concat(units) + end.pending == received(start, settings, events)
            &&& end.pending.len() < settings.unit_limit
            &&& end.phase is Done ==> concat(units) == received(
                start,
                settings,
                events,
            )
            &&& forall|i: int|
                0 <= i < units.len() ==> 0 < (#[trigger] units[i]).len() <= settings.unit_limit
        }),
    decreases events.len(),
{
    let (end, units) = run(start, settings, events)->Some_0;
    if events.len() == 0 {
        assert(start.pending == Seq::<u8>::empty());
        assert(concat(units) + end.pending == Seq::<u8>::empty());
    } else {
        let earlier = events.drop_last();
        complete_body_is_handed_over(start, settings, earlier);
        let (before, first) = run(start, settings, earlier)->Some_0;
        let (after, step) = transition(before, settings, events.last());
        step_keeps_payload(before, settings, events.last());
        lemma_concat_add(first, step.units);
        let payload = payload_of(before, events.last());
        assert((concat(first) + concat(step.units)) + after.pending == concat(first) + (concat(
            step.units,
        ) + after.pending));
        assert(concat(first) + (before.pending + payload) == (concat(first) + before.pending)
            + payload);
        if end.phase is Done {
            lemma_done_has_nothing_pending(start, settings, events);
            assert(concat(units) + end.pending == concat(units));
        }
        assert forall|i: int| 0 <= i < units.len() implies 0 < (#[trigger] units[i]).len()
            <= settings.unit_limit by {
            if i < first.len() {
                assert(units[i] == first[i]);
            } else {
                assert(units[i] == step.units[i - first.len()]);
            }
        }
    }
}

/// Payload is pending only while payload may follow.
pub open spec fn pending_in_phase(model: BodyModel) -> bool {
    model.phase is Done || model.phase is Trailers ==> model.pending.len() == 0
}

proof fn lemma_done_has_nothing_pending(
    start: BodyModel,
    settings: BodySettings,
    events: Seq<EventModel>,
)
    requires
        start.pending.len() == 0,
        run(start, settings, events) is Some,
    ensures
        pending_in_phase(run(start, settings, events)->Some_0.0),
    decreases events.len(),
{
    if events.len() > 0 {
        lemma_done_has_nothing_pending(start, settings, events.drop_last());
    }
}

/// The payload that is still to come of what was announced.
pub open spec fn owed(phase: BodyPhase) -> int {
    match phase {
        BodyPhase::Fixed(remaining) => remaining as int,
        BodyPhase::ChunkData(remaining) => remaining as int,
        _ => 0,
    }
}

/// The payload that a read announces: the size of a chunk.
pub open spec fn announced_by(model: BodyModel, event: EventModel) -> int {
    match (model.phase, event) {
        (BodyPhase::ChunkSize { .. }, EventModel::Line(line)) => match output::chunk_size_of(line) {
            Ok(size) => size as int,
            Err(_) => 0,
        },
        _ => 0,
    }
}

/// The payload that was announced: the declared length, or the sizes of the
/// chunks that were read.
pub open spec fn announced(start: BodyModel, settings: BodySettings, events: Seq<EventModel>) -> int
    decreases events.len(),
{
    if events.len() == 0 {
        owed(start.phase)
    } else {
        match run(start, settings, events.drop_last()) {
            None => 0,
            Some((before, _)) => announced(start, settings, events.drop_last()) + announced_by(
                before,
                events.last(),
            ),
        }
    }
}

proof fn lemma_step_pays_what_is_owed(
    model: BodyModel,
    settings: BodySettings,
    event: EventModel,
)
    requires
        !(model.phase is UntilEof),
        transition(model, settings, event).1.error is None,
    ensures
        ({
            let after = transition(model, settings, event).0;
            &&& !(after.phase is UntilEof)
            &&& payload_of(model, event).len() + owed(after.phase) == owed(model.phase)
                + announced_by(model, event)
            &&& model.phase is Fixed || model.phase is Done ==> {
                &&& after.phase is Fixed || after.phase is Done
                &&& announced_by(model, event) == 0
            }
        }),
{
    if let EventModel::Line(line) = event {
        let size = vstd::utf8::decode_utf8(line);
        numeral::number_keeps_to_limit(
            text::trim(text::before_first(size, ';'), CharClass::WhiteSpace),
            Base::Hexadecimal,
            usize::MAX as nat,
        );
    }
}

proof fn lemma_received_is_announced(
    start: BodyModel,
    settings: BodySettings,
    events: Seq<EventModel>,
)
    requires
        !(start.phase is UntilEof),
        run(start, settings, events) is Some,
    ensures
        ({
            let end = run(start, settings, events)->Some_0.0;
            &&& !(end.phase is UntilEof)
            &&& received(start, settings, events).len() + owed(end.phase) == announced(
                start,
                settings,
                events,
            )
            &&& start.phase is Fixed || start.phase is Done ==> {
                &&& end.phase is Fixed || end.phase is Done
                &&& announced(start, settings, events) == owed(start.phase)
            }
        }),
    decreases events.len(),
{
    if events.len() > 0 {
        let earlier = events.drop_last();
        lemma_received_is_announced(start, settings, earlier);
        let (before, _) = run(start, settings, earlier)->Some_0;
        lemma_step_pays_what_is_owed(before, settings, events.last());
        assert(received(start, settings, events) == received(start, settings, earlier)
            + payload_of(before, events.last()));
    }
}

/// A body with a length is handed over exactly: the units of a body that was
/// read to its end have as many bytes as were announced, by the declared length
/// or by the sizes of the chunks.
pub proof fn announced_length_is_handed_over(
    body_length: BodyLength,
    settings: BodySettings,
    events: Seq<EventModel>,
)
    requires
        settings.unit_limit >= 1,
        !(body_length is Absent),
        run(
            BodyModel {
                phase: first_phase(body_length, false),
                pending: seq![],
                trailers: seq![],
            },
            settings,
            events,
        ) is Some,
    ensures
        ({
            let start = BodyModel {
                phase: first_phase(body_length, false),
                pending: seq![],
                trailers: seq![],
            };
            let (end, units) = run(start, settings, events)->Some_0;
            &&& end.phase is Done ==> concat(units).len() == announced(start, settings, events)
            &&& body_length matches BodyLength::ContentLength(length) ==> {
                &&& announced(start, settings, events) == length
                &&& concat(units).len() + end.pending.len() + owed(end.phase) == length
            }
        }),
{
    let start = BodyModel {
        phase: first_phase(body_length, false),
        pending: seq![],
        trailers: seq![],
    };
    lemma_received_is_announced(start, settings, events);
    complete_body_is_handed_over(start, settings, events);
}

} // verus!
