//! Reading a response body: what is buffered, and reads that may be resumed.

use crate::bytes::{append_bytes, slice};
use vstd::prelude::*;

verus! {

/// The bytes that came along with a response head, and the state of reads that
/// a timeout may interrupt: what such a read has taken is kept for the next.
#[derive(Debug)]
pub struct BufferedResponseReader {
    buffered: Vec<u8>,
    position: usize,
    exact_buffer: Vec<u8>,
    exact_target: Option<usize>,
    line_buffer: Vec<u8>,
}

/// What a [`BufferedResponseReader`] denotes.
#[verifier::ext_equal]
pub struct ReaderModel {
    /// Buffered bytes that were not taken yet.
    pub rest: Seq<u8>,
    /// What an exact read has taken.
    pub exact: Seq<u8>,
    /// The length of the exact read that is under way, if one is.
    pub target: Option<usize>,
    /// What a line read has taken.
    pub line: Seq<u8>,
}

/// What an exact read needs next.
#[derive(Debug)]
pub enum ExactStep {
    /// Another length is being read.
    Mismatch,
    /// The bytes are there.
    Complete(Vec<u8>),
    /// Read at most this many bytes.
    Need(usize),
}

/// What a byte does to a line.
#[derive(Debug)]
pub enum LineStep {
    /// The line goes on.
    More,
    /// The line exceeds the limit.
    TooLong,
    /// The line, without its end.
    Line(Vec<u8>),
}

/// Whether bytes end with a line ending.
pub open spec fn ends_line(line: Seq<u8>) -> bool {
    line.len() >= 2 && line[line.len() - 2] == 13 && line[line.len() - 1] == 10
}

impl BufferedResponseReader {
    /// The reader keeps to its buffer and to the exact read that is under way.
    pub closed spec fn wf(self) -> bool {
        &&& self.position <= self.buffered@.len()
        &&& self.exact_target matches Some(target) ==> self.exact_buffer@.len() <= target
        &&& self.exact_target is None ==> self.exact_buffer@.len() == 0
    }

    /// What the reader holds.
    pub closed spec fn view(self) -> ReaderModel {
        ReaderModel {
            rest: self.buffered@.skip(self.position as int),
            exact: self.exact_buffer@,
            target: self.exact_target,
            line: self.line_buffer@,
        }
    }

    /// A reader of the given bytes.
    pub fn new(buffered: &[u8]) -> (reader: BufferedResponseReader)
        ensures
            reader.wf(),
            reader@ == (ReaderModel {
                rest: buffered@,
                exact: seq![],
                target: None,
                line: seq![],
            }),
    {
        let reader = BufferedResponseReader {
            buffered: slice(buffered, 0, buffered.len()),
            position: 0,
            exact_buffer: Vec::new(),
            exact_target: None,
            line_buffer: Vec::new(),
        };
        assert(reader@.rest == buffered@);
        assert(reader@.exact == Seq::<u8>::empty());
        assert(reader@.line == Seq::<u8>::empty());
        reader
    }

    /// Takes at most `limit` buffered bytes, or nothing where none is left.
    pub fn take_buffered(&mut self, limit: usize) -> (r: Option<Vec<u8>>)
        requires
            old(self).wf(),
        ensures
            final(self).wf(),
            r is None <==> old(self)@.rest.len() == 0,
            match r {
                Some(data) => {
                    &&& data@.len() == if limit < old(self)@.rest.len() {
                        limit as int
                    } else {
                        old(self)@.rest.len() as int
                    }
                    &&& old(self)@.rest == data@ + final(self)@.rest
                    &&& final(self)@ == (ReaderModel { rest: final(self)@.rest, ..old(self)@ })
                },
                None => final(self)@ == old(self)@,
            },
    {
        if self.position >= self.buffered.len() {
            return None;
        }
        let left: usize = self.buffered.len() - self.position;
        let end: usize = if limit < left {
            self.position + limit
        } else {
            self.buffered.len()
        };
        let data = slice(self.buffered.as_slice(), self.position, end);
        assert(self.buffered@.skip(self.position as int) == data@ + self.buffered@.skip(end as int));
        self.position = end;
        Some(data)
    }

    /// Begins or resumes the read of exactly `length` bytes.
    pub fn exact_step(&mut self, length: usize) -> (step: ExactStep)
        requires
            old(self).wf(),
        ensures
            final(self).wf(),
            match step {
                ExactStep::Mismatch => {
                    &&& old(self)@.target matches Some(target) && target != length
                    &&& final(self)@ == old(self)@
                },
                ExactStep::Complete(data) => {
                    &&& old(self)@.target == Some(length) || (old(self)@.target is None && length == 0)
                    &&& data@ == old(self)@.exact && data@.len() == length
                    &&& final(self)@ == (ReaderModel { exact: seq![], target: None, ..old(self)@ })
                },
                ExactStep::Need(count) => {
                    &&& old(self)@.target matches Some(target) ==> target == length
                    &&& count > 0 && count + old(self)@.exact.len() == length
                    &&& final(self)@ == (ReaderModel { target: Some(length), ..old(self)@ })
                },
            },
    {
        if let Some(target) = self.exact_target {
            if target != length {
                return ExactStep::Mismatch;
            }
        }
        let have: usize = self.exact_buffer.len();
        if have < length {
            self.exact_target = Some(length);
            return ExactStep::Need(length - have);
        }
        let data = slice(self.exact_buffer.as_slice(), 0, have);
        assert(data@ == self.exact_buffer@);
        self.exact_buffer = Vec::new();
        self.exact_target = None;
        assert(self@.exact == Seq::<u8>::empty());
        ExactStep::Complete(data)
    }

    /// Takes bytes that were read for the exact read that is under way.
    pub fn accept_exact(&mut self, data: &[u8])
        requires
            old(self).wf(),
            old(self)@.target matches Some(target) && old(self)@.exact.len() + data@.len()
                <= target,
        ensures
            final(self).wf(),
            final(self)@ == (ReaderModel { exact: old(self)@.exact + data@, ..old(self)@ }),
    {
        append_bytes(&mut self.exact_buffer, data);
    }

    /// Takes one byte of a line of at most `limit` bytes, its end counted.
    pub fn push_line_byte(&mut self, byte: u8, limit: usize) -> (step: LineStep)
        requires
            old(self).wf(),
        ensures
            final(self).wf(),
            ({
                let line = old(self)@.line.push(byte);
                match step {
                    LineStep::TooLong => line.len() > limit && final(self)@ == (ReaderModel {
                        line,
                        ..old(self)@
                    }),
                    LineStep::Line(content) => {
                        &&& line.len() <= limit && ends_line(line)
                        &&& content@ == line.take(line.len() - 2)
                        &&& final(self)@ == (ReaderModel { line: seq![], ..old(self)@ })
                    },
                    LineStep::More => line.len() <= limit && !ends_line(line) && final(self)@ == (
                    ReaderModel { line, ..old(self)@ }),
                }
            }),
    {
        self.line_buffer.push(byte);
        let n: usize = self.line_buffer.len();
        if n > limit {
            return LineStep::TooLong;
        }
        if n >= 2 && self.line_buffer[n - 2] == 13 && self.line_buffer[n - 1] == 10 {
            let content = slice(self.line_buffer.as_slice(), 0, n - 2);
            assert(content@ == self.line_buffer@.take(n - 2));
            self.line_buffer = Vec::new();
            assert(self@.line == Seq::<u8>::empty());
            return LineStep::Line(content);
        }
        LineStep::More
    }
}

} // verus!
