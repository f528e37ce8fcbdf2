//! Requests as the application-layer providers hand them over.

use vstd::prelude::*;

verus! {

/// How the length of an HTTP body is framed.
#[derive(Debug, Clone, Copy, PartialEq, Eq, Structural)]
pub enum BodyLength {
    /// No body framing.
    Absent,
    /// A body of this many bytes.
    ContentLength(u64),
    /// A body in chunked transfer coding.
    Chunked,
}

/// One request at the application layer.
#[derive(Debug)]
pub struct L7Request {
    /// Protocol action, such as the HTTP method.
    pub action: String,
    /// Target, such as the URL path.
    pub target: String,
    /// The request head as received, and body bytes that came along with it.
    pub raw_header: Vec<u8>,
    /// How the body is framed.
    pub body_length: BodyLength,
}

} // verus!
