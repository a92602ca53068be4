//! The wire-level data model: HTTP-shaped request and response metadata as
//! exchanged over the metadata channel, and the error taxonomy of one
//! exchange.
//!
//! Uri, header names and header values are carried as byte sequences; the
//! binary schema admits only ASCII bytes in those fields, so a decoded value
//! is always valid text.

use vstd::prelude::*;

verus! {

/// The enumerated HTTP verbs the bridge understands.
#[derive(Clone, Copy, Debug, PartialEq, Eq, Structural)]
pub enum Method {
    Get,
    Post,
    Put,
    Delete,
    Head,
    Options,
    Connect,
    Patch,
    Trace,
}

/// The HTTP version marker carried in request metadata.
#[derive(Clone, Copy, Debug, PartialEq, Eq, Structural)]
pub enum Version {
    Http09,
    Http10,
    Http11,
    H2,
    H3,
}

/// Decoding failures of one exchange's inputs.
///
/// `Malformed`: the metadata bytes do not conform to the binary schema.
/// `BodyIo`: metadata decoded, but draining the body-read channel failed.
#[derive(Clone, Copy, Debug, PartialEq, Eq, Structural)]
pub enum DecodeError {
    Malformed,
    BodyIo,
}

/// Encoding failures: a value is not representable in the binary schema
/// (a field too long, too many headers, or non-ASCII text bytes).  These are
/// detected before any byte is written.
#[derive(Clone, Copy, Debug, PartialEq, Eq, Structural)]
pub enum EncodeError {
    Malformed,
}

/// One header binding: name and value, as ASCII bytes.
pub type Header = (Vec<u8>, Vec<u8>);

/// Structured request metadata, as decoded from the metadata channel.
#[derive(Debug, PartialEq, Eq)]
pub struct WireRequest {
    pub method: Method,
    pub uri: Vec<u8>,
    pub headers: Vec<Header>,
    pub version: Version,
}

/// Structured response metadata, as encoded onto the reply channel.
#[derive(Debug, PartialEq, Eq)]
pub struct WireResponse {
    pub status: u16,
    pub headers: Vec<Header>,
}

/// Mathematical model of a request: every field as a plain sequence.
pub ghost struct WireRequestV {
    pub method: Method,
    pub uri: Seq<u8>,
    pub headers: Seq<(Seq<u8>, Seq<u8>)>,
    pub version: Version,
}

/// Mathematical model of a response.
pub ghost struct WireResponseV {
    pub status: u16,
    pub headers: Seq<(Seq<u8>, Seq<u8>)>,
}

impl View for WireRequest {
    type V = WireRequestV;

    open spec fn view(&self) -> WireRequestV {
        WireRequestV {
            method: self.method,
            uri: self.uri@,
            headers: self.headers@.map_values(|h: Header| (h.0@, h.1@)),
            version: self.version,
        }
    }
}

impl View for WireResponse {
    type V = WireResponseV;

    open spec fn view(&self) -> WireResponseV {
        WireResponseV { status: self.status, headers: self.headers@.map_values(|h: Header| (h.0@, h.1@)) }
    }
}

/// Largest length the schema can carry for a uri, a header name, a header
/// value, or a header count: each is framed by a two-byte length.
pub const MAX_FIELD_LEN: usize = 65535;

/// An ASCII byte: the only text bytes the schema admits.
pub open spec fn is_ascii_byte(b: u8) -> bool {
    b < 128
}

/// Every byte of the sequence is ASCII.
pub open spec fn ascii_seq_ok(b: Seq<u8>) -> bool {
    forall|i: int| 0 <= i < b.len() ==> is_ascii_byte(#[trigger] b[i])
}

/// A text field the schema can carry: bounded length, ASCII bytes only.
pub open spec fn field_ok(b: Seq<u8>) -> bool {
    &&& b.len() <= MAX_FIELD_LEN
    &&& ascii_seq_ok(b)
}

/// One header the schema can carry: name and value both representable.
pub open spec fn header_ok(h: (Seq<u8>, Seq<u8>)) -> bool {
    field_ok(h.0) && field_ok(h.1)
}

/// A header list the schema can carry.
pub open spec fn headers_ok(hs: Seq<(Seq<u8>, Seq<u8>)>) -> bool {
    &&& hs.len() <= MAX_FIELD_LEN
    &&& forall|i: int| 0 <= i < hs.len() ==> header_ok(#[trigger] hs[i])
}

/// A request the schema can represent.
pub open spec fn request_wf(r: WireRequestV) -> bool {
    &&& field_ok(r.uri)
    &&& headers_ok(r.headers)
}

/// A response the schema can represent.
pub open spec fn response_wf(r: WireResponseV) -> bool {
    headers_ok(r.headers)
}

/// The model of an executable header list.
pub open spec fn headers_view(hs: Seq<Header>) -> Seq<(Seq<u8>, Seq<u8>)> {
    hs.map_values(|h: Header| (h.0@, h.1@))
}

} // verus!
