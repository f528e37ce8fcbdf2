//! The read of one stretch of payload. The first bytes are waited for; once
//! some are there, or payload is pending from before, the read waits only
//! briefly for more.

use crate::bytes::append_bytes;
use vstd::prelude::*;

verus! {

/// A read of payload.
#[derive(Debug)]
pub struct PayloadRead {
    data: Vec<u8>,
    limit: usize,
    brief: bool,
}

/// What a [`PayloadRead`] denotes.
#[verifier::ext_equal]
pub struct PayloadModel {
    /// What was read.
    pub data: Seq<u8>,
    /// The greatest number of bytes.
    pub limit: int,
    /// Whether the brief wait is running.
    pub brief: bool,
}

/// What happened.
#[derive(Debug)]
pub enum PayloadEvent {
    /// Bytes were read.
    Data(Vec<u8>),
    /// The input ended.
    End,
    /// The wait for a read ran out; `whole_over` says that the time of
    /// whole-body stages is over.
    TimedOut { whole_over: bool },
    /// The brief wait was looked at again, behind any expiry.
    Rechecked { brief_over: bool },
}

/// What is done next.
#[derive(Debug)]
pub enum PayloadAction {
    /// Read at most this many bytes. The brief wait starts now where
    /// `starts_brief` says so, and goes on where it was running.
    Read { limit: usize, starts_brief: bool },
    /// Expire the whole-body stages, then look at the brief wait again.
    Expire,
    /// Look at the brief wait again.
    Recheck,
    /// Hand the payload over.
    HandOver(Vec<u8>),
    /// The body ended unexpectedly.
    Ended,
}

/// What a [`PayloadAction`] denotes.
#[verifier::ext_equal]
pub enum ActionModel {
    Read { limit: int, starts_brief: bool },
    Expire,
    Recheck,
    HandOver(Seq<u8>),
    Ended,
}

impl View for PayloadRead {
    type V = PayloadModel;

    closed spec fn view(&self) -> PayloadModel {
        PayloadModel { data: self.data@, limit: self.limit as int, brief: self.brief }
    }
}

impl View for PayloadAction {
    type V = ActionModel;

    open spec fn view(&self) -> ActionModel {
        match self {
            PayloadAction::Read { limit, starts_brief } => ActionModel::Read {
                limit: *limit as int,
                starts_brief: *starts_brief,
            },
            PayloadAction::Expire => ActionModel::Expire,
            PayloadAction::Recheck => ActionModel::Recheck,
            PayloadAction::HandOver(data) => ActionModel::HandOver(data@),
            PayloadAction::Ended => ActionModel::Ended,
        }
    }
}

impl PayloadModel {
    /// There is room for more.
    pub open spec fn wf(self) -> bool {
        self.data.len() < self.limit
    }
}

/// Whether an event can come to a read: no more bytes than were asked for.
pub open spec fn fits(model: PayloadModel, event: PayloadEvent) -> bool {
    event matches PayloadEvent::Data(data) ==> model.data.len() + data@.len() <= model.limit
}

/// The next read, once what was read does not fill the limit.
pub open spec fn read_on(model: PayloadModel, starts_brief: bool) -> ActionModel {
    ActionModel::Read { limit: model.limit - model.data.len(), starts_brief }
}

/// What an event leads to, and what is done then.
pub open spec fn payload_transition(model: PayloadModel, event: PayloadEvent) -> (
    PayloadModel,
    ActionModel,
) {
    match event {
        PayloadEvent::Data(data) => {
            let after = PayloadModel { data: model.data + data@, brief: true, ..model };
            if after.data.len() == model.limit {
                (after, ActionModel::HandOver(after.data))
            } else {
                (after, read_on(after, !model.brief))
            }
        },
        PayloadEvent::End => (model, ActionModel::Ended),
        PayloadEvent::TimedOut { whole_over } => (
            model,
            if whole_over {
                ActionModel::Expire
            } else {
                ActionModel::Recheck
            },
        ),
        PayloadEvent::Rechecked { brief_over } => (
            model,
            if model.brief && brief_over {
                ActionModel::HandOver(model.data)
            } else {
                read_on(model, false)
            },
        ),
    }
}

impl PayloadRead {
    /// Starts the read of at most `limit` bytes, and says what is done first.
    pub fn start(limit: usize, has_pending: bool) -> (r: (PayloadRead, PayloadAction))
        requires
            limit >= 1,
        ensures
            r.0@ == (PayloadModel { data: seq![], limit: limit as int, brief: has_pending }),
            r.0@.wf(),
            r.1@ == (ActionModel::Read { limit: limit as int, starts_brief: has_pending }),
    {
        let read = PayloadRead { data: Vec::new(), limit, brief: has_pending };
        assert(read@.data == Seq::<u8>::empty());
        (read, PayloadAction::Read { limit, starts_brief: has_pending })
    }

    /// Takes an event, and says what is done next.
    pub fn on(&mut self, event: PayloadEvent) -> (action: PayloadAction)
        requires
            old(self)@.wf(),
            fits(old(self)@, event),
        ensures
            (final(self)@, action@) == payload_transition(old(self)@, event),
            action is Read ==> final(self)@.wf(),
            action is Expire || action is Recheck ==> final(self)@.wf(),
    {
        match event {
            PayloadEvent::Data(data) => {
                let starts_brief = !self.brief;
                self.brief = true;
                append_bytes(&mut self.data, data.as_slice());
                if self.data.len() == self.limit {
                    return PayloadAction::HandOver(self.copied());
                }
                PayloadAction::Read { limit: self.limit - self.data.len(), starts_brief }
            },
            PayloadEvent::End => PayloadAction::Ended,
            PayloadEvent::TimedOut { whole_over } => if whole_over {
                PayloadAction::Expire
            } else {
                PayloadAction::Recheck
            },
            PayloadEvent::Rechecked { brief_over } => if self.brief && brief_over {
                PayloadAction::HandOver(self.copied())
            } else {
                PayloadAction::Read { limit: self.limit - self.data.len(), starts_brief: false }
            },
        }
    }

    fn copied(&self) -> (r: Vec<u8>)
        ensures
            r@ == self@.data,
    {
        let mut r: Vec<u8> = Vec::new();
        append_bytes(&mut r, self.data.as_slice());
        assert(r@ == self.data@);
        r
    }
}

/// Payload is handed over only when it fills the limit or when the brief wait
/// ran out, and the brief wait runs only where payload is pending from before
/// or was read. No read asks for more than is left of the limit.
pub proof fn payload_is_handed_over_in_time(model: PayloadModel, event: PayloadEvent)
    requires
        model.wf(),
        fits(model, event),
        model.data.len() > 0 ==> model.brief,
    ensures
        ({
            let (after, action) = payload_transition(model, event);
            &&& after.data.len() > 0 ==> after.brief
            &&& after.brief ==> model.brief || event is Data
            &&& action matches ActionModel::HandOver(data) ==> {
                &&& data == after.data && data.len() <= model.limit
                &&& data.len() == model.limit || (model.brief && event
                    == (PayloadEvent::Rechecked { brief_over: true }))
            }
            &&& action matches ActionModel::Read { limit, .. } ==> 0 < limit && limit
                + after.data.len() == model.limit
        }),
{
}

} // verus!
