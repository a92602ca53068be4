//! The binary metadata codec: a compact, self-describing schema for request
//! and response metadata on the metadata channel.
//!
//! Layout, all multi-byte integers little-endian:
//!
//! - request: `[method tag][version tag][uri field][header count: u16][headers]`
//! - response: `[status: u16][header count: u16][headers]`
//! - field: `[length: u16][that many ASCII bytes]`
//! - header: `[name field][value field]`
//!
//! Decoding consumes the whole input: trailing bytes are malformed.  The spec
//! functions `dec_request` / `dec_response` are the ground truth; the
//! executable encoder and decoder are proved against them, and the round-trip
//! lemmas show the two sides agree on every representable value.

use vstd::prelude::*;

use crate::wire::{
    ascii_seq_ok, field_ok, headers_ok, headers_view, request_wf, response_wf, DecodeError,
    EncodeError, Header, Method, Version, WireRequest, WireRequestV, WireResponse, WireResponseV,
};

verus! {

// ---------------------------------------------------------------------------
// Spec-level encoding
// ---------------------------------------------------------------------------

/// The schema's tag byte for each verb.
pub open spec fn method_tag(m: Method) -> u8 {
    match m {
        Method::Get => 1,
        Method::Post => 2,
        Method::Put => 3,
        Method::Delete => 4,
        Method::Head => 5,
        Method::Options => 6,
        Method::Connect => 7,
        Method::Patch => 8,
        Method::Trace => 9,
    }
}

/// The verb a tag byte stands for, if any.
pub open spec fn tag_method(t: u8) -> Option<Method> {
    if t == 1 {
        Some(Method::Get)
    } else if t == 2 {
        Some(Method::Post)
    } else if t == 3 {
        Some(Method::Put)
    } else if t == 4 {
        Some(Method::Delete)
    } else if t == 5 {
        Some(Method::Head)
    } else if t == 6 {
        Some(Method::Options)
    } else if t == 7 {
        Some(Method::Connect)
    } else if t == 8 {
        Some(Method::Patch)
    } else if t == 9 {
        Some(Method::Trace)
    } else {
        None
    }
}

/// The schema's tag byte for each version marker.
pub open spec fn version_tag(v: Version) -> u8 {
    match v {
        Version::Http09 => 1,
        Version::Http10 => 2,
        Version::Http11 => 3,
        Version::H2 => 4,
        Version::H3 => 5,
    }
}

/// The version marker a tag byte stands for, if any.
pub open spec fn tag_version(t: u8) -> Option<Version> {
    if t == 1 {
        Some(Version::Http09)
    } else if t == 2 {
        Some(Version::Http10)
    } else if t == 3 {
        Some(Version::Http11)
    } else if t == 4 {
        Some(Version::H2)
    } else if t == 5 {
        Some(Version::H3)
    } else {
        None
    }
}

/// A `u16`, little-endian.
pub open spec fn enc_u16(n: u16) -> Seq<u8> {
    seq![(n % 256) as u8, (n / 256) as u8]
}

/// A length-prefixed text field.
pub open spec fn enc_field(b: Seq<u8>) -> Seq<u8> {
    enc_u16(b.len() as u16) + b
}

/// One header: name field then value field.
pub open spec fn enc_header(h: (Seq<u8>, Seq<u8>)) -> Seq<u8> {
    enc_field(h.0) + enc_field(h.1)
}

/// A header list, in order, with no framing beyond each field's own.
pub open spec fn enc_headers(hs: Seq<(Seq<u8>, Seq<u8>)>) -> Seq<u8>
    decreases hs.len(),
{
    if hs.len() == 0 {
        Seq::empty()
    } else {
        enc_header(hs[0]) + enc_headers(hs.skip(1))
    }
}

/// The full request metadata encoding.
pub open spec fn enc_request(r: WireRequestV) -> Seq<u8> {
    seq![method_tag(r.method), version_tag(r.version)] + enc_field(r.uri)
        + enc_u16(r.headers.len() as u16) + enc_headers(r.headers)
}

/// The full response metadata encoding.
pub open spec fn enc_response(r: WireResponseV) -> Seq<u8> {
    enc_u16(r.status) + enc_u16(r.headers.len() as u16) + enc_headers(r.headers)
}

// ---------------------------------------------------------------------------
// Spec-level decoding: each step yields the value and the unread rest
// ---------------------------------------------------------------------------

/// Read a little-endian `u16` off the front.
pub open spec fn dec_u16(s: Seq<u8>) -> Option<(u16, Seq<u8>)> {
    if s.len() < 2 {
        None
    } else {
        Some(((s[0] + s[1] * 256) as u16, s.skip(2)))
    }
}

/// Read a length-prefixed ASCII field off the front.
pub open spec fn dec_field(s: Seq<u8>) -> Option<(Seq<u8>, Seq<u8>)> {
    match dec_u16(s) {
        None => None,
        Some((n, r)) => {
            if r.len() < n {
                None
            } else if !ascii_seq_ok(r.take(n as int)) {
                None
            } else {
                Some((r.take(n as int), r.skip(n as int)))
            }
        },
    }
}

/// Read exactly `count` headers off the front.
pub open spec fn dec_headers(s: Seq<u8>, count: nat) -> Option<
    (Seq<(Seq<u8>, Seq<u8>)>, Seq<u8>),
>
    decreases count,
{
    if count == 0 {
        Some((Seq::empty(), s))
    } else {
        match dec_field(s) {
            None => None,
            Some((name, r1)) => match dec_field(r1) {
                None => None,
                Some((value, r2)) => match dec_headers(r2, (count - 1) as nat) {
                    None => None,
                    Some((tail, rest)) => Some((seq![(name, value)] + tail, rest)),
                },
            },
        }
    }
}

/// Decode a whole request metadata buffer; `None` is malformed.
pub open spec fn dec_request(s: Seq<u8>) -> Option<WireRequestV> {
    if s.len() < 2 {
        None
    } else {
        match (tag_method(s[0]), tag_version(s[1])) {
            (Some(m), Some(v)) => match dec_field(s.skip(2)) {
                None => None,
                Some((uri, r1)) => match dec_u16(r1) {
                    None => None,
                    Some((count, r2)) => match dec_headers(r2, count as nat) {
                        None => None,
                        Some((hs, rest)) => if rest.len() == 0 {
                            Some(WireRequestV { method: m, uri, headers: hs, version: v })
                        } else {
                            None
                        },
                    },
                },
            },
            _ => None,
        }
    }
}

/// Decode a whole response metadata buffer; `None` is malformed.
pub open spec fn dec_response(s: Seq<u8>) -> Option<WireResponseV> {
    match dec_u16(s) {
        None => None,
        Some((status, r1)) => match dec_u16(r1) {
            None => None,
            Some((count, r2)) => match dec_headers(r2, count as nat) {
                None => None,
                Some((hs, rest)) => if rest.len() == 0 {
                    Some(WireResponseV { status, headers: hs })
                } else {
                    None
                },
            },
        },
    }
}

// ---------------------------------------------------------------------------
// Round trip: decoding an encoding yields the value back
// ---------------------------------------------------------------------------

proof fn lemma_dec_enc_u16(n: u16, rest: Seq<u8>)
    ensures
        dec_u16(enc_u16(n) + rest) == Some((n, rest)),
{
    let s = enc_u16(n) + rest;
    assert(s[0] == (n % 256) as u8);
    assert(s[1] == (n / 256) as u8);
    assert(n % 256 + (n / 256) * 256 == n) by (nonlinear_arith);
    assert(s.skip(2) =~= rest);
}

proof fn lemma_dec_enc_field(b: Seq<u8>, rest: Seq<u8>)
    requires
        field_ok(b),
    ensures
        dec_field(enc_field(b) + rest) == Some((b, rest)),
{
    let s = enc_field(b) + rest;
    assert(s =~= enc_u16(b.len() as u16) + (b + rest));
    lemma_dec_enc_u16(b.len() as u16, b + rest);
    let n = b.len() as u16;
    let r = b + rest;
    assert(r.take(n as int) =~= b);
    assert(r.skip(n as int) =~= rest);
}

proof fn lemma_add_assoc(a: Seq<u8>, b: Seq<u8>, c: Seq<u8>)
    ensures
        (a + b) + c == a + (b + c),
{
    assert((a + b) + c =~= a + (b + c));
}

proof fn lemma_dec_enc_headers(hs: Seq<(Seq<u8>, Seq<u8>)>, rest: Seq<u8>)
    requires
        headers_ok(hs),
    ensures
        dec_headers(enc_headers(hs) + rest, hs.len()) == Some((hs, rest)),
    decreases hs.len(),
{
    if hs.len() == 0 {
        assert(enc_headers(hs) + rest =~= rest);
    } else {
        let h = hs[0];
        let tail = hs.skip(1);
        assert(enc_headers(hs) == enc_header(h) + enc_headers(tail));
        lemma_add_assoc(enc_header(h), enc_headers(tail), rest);
        lemma_add_assoc(enc_field(h.0), enc_field(h.1), enc_headers(tail) + rest);
        assert(enc_headers(hs) + rest == enc_field(h.0) + (enc_field(h.1) + (enc_headers(tail)
            + rest)));
        assert(crate::wire::header_ok(hs[0]));
        assert(field_ok(h.0) && field_ok(h.1));
        lemma_dec_enc_field(h.0, enc_field(h.1) + (enc_headers(tail) + rest));
        lemma_dec_enc_field(h.1, enc_headers(tail) + rest);
        assert(headers_ok(tail));
        lemma_dec_enc_headers(tail, rest);
        assert(seq![(h.0, h.1)] + tail =~= hs);
    }
}

/// Round trip for requests: decoding the encoding of any representable
/// request metadata value yields that value back, field for field.
pub proof fn lemma_request_round_trip(r: WireRequestV)
    requires
        request_wf(r),
    ensures
        dec_request(enc_request(r)) == Some(r),
{
    let s = enc_request(r);
    let after_tags = enc_field(r.uri) + (enc_u16(r.headers.len() as u16) + enc_headers(r.headers));
    assert(s.skip(2) =~= after_tags);
    assert(s[0] == method_tag(r.method));
    assert(s[1] == version_tag(r.version));
    assert(tag_method(method_tag(r.method)) == Some(r.method));
    assert(tag_version(version_tag(r.version)) == Some(r.version));
    lemma_dec_enc_field(r.uri, enc_u16(r.headers.len() as u16) + enc_headers(r.headers));
    assert(enc_u16(r.headers.len() as u16) + enc_headers(r.headers) =~= enc_u16(
        r.headers.len() as u16,
    ) + (enc_headers(r.headers) + Seq::<u8>::empty()));
    lemma_dec_enc_u16(r.headers.len() as u16, enc_headers(r.headers) + Seq::<u8>::empty());
    lemma_dec_enc_headers(r.headers, Seq::<u8>::empty());
}

/// Round trip for responses: encoding then decoding a representable Wire
/// Response's metadata yields a value equal in all fields to the original.
pub proof fn lemma_response_round_trip(r: WireResponseV)
    requires
        response_wf(r),
    ensures
        dec_response(enc_response(r)) == Some(r),
{
    let s = enc_response(r);
    assert(s =~= enc_u16(r.status) + (enc_u16(r.headers.len() as u16) + (enc_headers(r.headers)
        + Seq::<u8>::empty())));
    lemma_dec_enc_u16(
        r.status,
        enc_u16(r.headers.len() as u16) + (enc_headers(r.headers) + Seq::<u8>::empty()),
    );
    lemma_dec_enc_u16(r.headers.len() as u16, enc_headers(r.headers) + Seq::<u8>::empty());
    lemma_dec_enc_headers(r.headers, Seq::<u8>::empty());
}

// ---------------------------------------------------------------------------
// Executable encoder
// ---------------------------------------------------------------------------

proof fn lemma_enc_headers_concat(a: Seq<(Seq<u8>, Seq<u8>)>, b: Seq<(Seq<u8>, Seq<u8>)>)
    ensures
        enc_headers(a + b) == enc_headers(a) + enc_headers(b),
    decreases a.len(),
{
    if a.len() == 0 {
        assert(a + b =~= b);
        assert(enc_headers(a) + enc_headers(b) =~= enc_headers(b));
    } else {
        assert((a + b)[0] == a[0]);
        assert((a + b).skip(1) =~= a.skip(1) + b);
        lemma_enc_headers_concat(a.skip(1), b);
        assert(enc_header(a[0]) + (enc_headers(a.skip(1)) + enc_headers(b)) =~= (enc_header(a[0])
            + enc_headers(a.skip(1))) + enc_headers(b));
    }
}

fn method_to_tag(m: Method) -> (t: u8)
    ensures
        t == method_tag(m),
{
    match m {
        Method::Get => 1,
        Method::Post => 2,
        Method::Put => 3,
        Method::Delete => 4,
        Method::Head => 5,
        Method::Options => 6,
        Method::Connect => 7,
        Method::Patch => 8,
        Method::Trace => 9,
    }
}

fn version_to_tag(v: Version) -> (t: u8)
    ensures
        t == version_tag(v),
{
    match v {
        Version::Http09 => 1,
        Version::Http10 => 2,
        Version::Http11 => 3,
        Version::H2 => 4,
        Version::H3 => 5,
    }
}

fn push_u16(out: &mut Vec<u8>, n: u16)
    ensures
        final(out)@ == old(out)@ + enc_u16(n),
{
    out.push((n % 256) as u8);
    out.push((n / 256) as u8);
    assert(final(out)@ =~= old(out)@ + enc_u16(n));
}

/// Whether a byte vector is a representable text field: short enough, all
/// ASCII.
fn check_field(b: &Vec<u8>) -> (r: bool)
    ensures
        r == field_ok(b@),
{
    if b.len() > crate::wire::MAX_FIELD_LEN {
        return false;
    }
    let mut i: usize = 0;
    while i < b.len()
        invariant
            i <= b@.len(),
            forall|j: int| 0 <= j < i ==> crate::wire::is_ascii_byte(#[trigger] b@[j]),
        decreases b@.len() - i,
    {
        if b[i] >= 128 {
            return false;
        }
        i += 1;
    }
    true
}

/// Whether a header list is representable: a count and per-field bounds the
/// two-byte frames can carry.
fn check_headers(headers: &Vec<Header>) -> (r: bool)
    ensures
        r == (headers_ok(headers_view(headers@)) && headers@.len() <= crate::wire::MAX_FIELD_LEN),
{
    let ghost hsv = headers_view(headers@);
    assert(hsv.len() == headers@.len());
    if headers.len() > crate::wire::MAX_FIELD_LEN {
        return false;
    }
    let mut i: usize = 0;
    while i < headers.len()
        invariant
            i <= headers@.len(),
            headers@.len() <= crate::wire::MAX_FIELD_LEN,
            hsv == headers_view(headers@),
            forall|j: int| 0 <= j < i ==> crate::wire::header_ok(#[trigger] hsv[j]),
        decreases headers@.len() - i,
    {
        assert(hsv[i as int] == (headers@[i as int].0@, headers@[i as int].1@));
        if !check_field(&headers[i].0) || !check_field(&headers[i].1) {
            assert(!crate::wire::header_ok(headers_view(headers@)[i as int]));
            return false;
        }
        i += 1;
    }
    true
}

fn push_field(out: &mut Vec<u8>, b: &Vec<u8>)
    requires
        field_ok(b@),
    ensures
        final(out)@ == old(out)@ + enc_field(b@),
{
    push_u16(out, b.len() as u16);
    assert(out@ =~= old(out)@ + enc_u16(b@.len() as u16) + b@.take(0));
    let mut i: usize = 0;
    while i < b.len()
        invariant
            i <= b@.len(),
            field_ok(b@),
            out@ == old(out)@ + enc_u16(b@.len() as u16) + b@.take(i as int),
        decreases b@.len() - i,
    {
        out.push(b[i]);
        assert(out@ =~= old(out)@ + enc_u16(b@.len() as u16) + b@.take(i + 1));
        i += 1;
    }
    assert(b@.take(b@.len() as int) =~= b@);
    assert(out@ =~= old(out)@ + enc_field(b@));
}

fn push_headers(out: &mut Vec<u8>, headers: &Vec<Header>)
    requires
        headers_ok(headers_view(headers@)),
    ensures
        final(out)@ == old(out)@ + enc_headers(headers_view(headers@)),
{
    let ghost hsv = headers_view(headers@);
    assert(out@ =~= old(out)@ + enc_headers(hsv.take(0)));
    let mut i: usize = 0;
    while i < headers.len()
        invariant
            i <= headers@.len(),
            headers_ok(hsv),
            hsv == headers_view(headers@),
            out@ == old(out)@ + enc_headers(hsv.take(i as int)),
        decreases headers@.len() - i,
    {
        assert(hsv[i as int] == (headers@[i as int].0@, headers@[i as int].1@));
        assert(crate::wire::header_ok(hsv[i as int]));
        push_field(out, &headers[i].0);
        push_field(out, &headers[i].1);
        proof {
            assert(hsv.take(i + 1) =~= hsv.take(i as int) + seq![hsv[i as int]]);
            lemma_enc_headers_concat(hsv.take(i as int), seq![hsv[i as int]]);
            let single = seq![hsv[i as int]];
            assert(single.skip(1) =~= Seq::<(Seq<u8>, Seq<u8>)>::empty());
            assert(enc_headers(Seq::<(Seq<u8>, Seq<u8>)>::empty()) == Seq::<u8>::empty());
            assert(enc_headers(single) =~= enc_header(hsv[i as int]));
            assert(out@ =~= old(out)@ + enc_headers(hsv.take(i + 1)));
        }
        i += 1;
    }
    assert(hsv.take(hsv.len() as int) =~= hsv);
}

/// Serialize request metadata, or report that the value is not representable
/// in the schema.  Nothing is emitted on failure.
pub fn encode_request(req: &WireRequest) -> (r: Result<Vec<u8>, EncodeError>)
    ensures
        match r {
            Ok(v) => request_wf(req@) && v@ == enc_request(req@),
            Err(e) => e == EncodeError::Malformed && !request_wf(req@),
        },
{
    if !check_field(&req.uri) {
        return Err(EncodeError::Malformed);
    }
    if !check_headers(&req.headers) {
        return Err(EncodeError::Malformed);
    }
    let mut out: Vec<u8> = Vec::new();
    out.push(method_to_tag(req.method));
    out.push(version_to_tag(req.version));
    assert(out@ =~= seq![method_tag(req@.method), version_tag(req@.version)]);
    push_field(&mut out, &req.uri);
    push_u16(&mut out, req.headers.len() as u16);
    push_headers(&mut out, &req.headers);
    assert(out@ =~= enc_request(req@));
    Ok(out)
}

/// Serialize response metadata, or report that the value is not representable
/// in the schema.  Nothing is emitted on failure, so an encoding failure can
/// never leave a half-written response on the wire.
pub fn encode_response(resp: &WireResponse) -> (r: Result<Vec<u8>, EncodeError>)
    ensures
        match r {
            Ok(v) => response_wf(resp@) && v@ == enc_response(resp@),
            Err(e) => e == EncodeError::Malformed && !response_wf(resp@),
        },
{
    if !check_headers(&resp.headers) {
        return Err(EncodeError::Malformed);
    }
    let mut out: Vec<u8> = Vec::new();
    push_u16(&mut out, resp.status);
    push_u16(&mut out, resp.headers.len() as u16);
    push_headers(&mut out, &resp.headers);
    assert(out@ =~= enc_response(resp@));
    Ok(out)
}

// ---------------------------------------------------------------------------
// Executable decoder
// ---------------------------------------------------------------------------

fn tag_to_method(t: u8) -> (m: Option<Method>)
    ensures
        m == tag_method(t),
{
    match t {
        1 => Some(Method::Get),
        2 => Some(Method::Post),
        3 => Some(Method::Put),
        4 => Some(Method::Delete),
        5 => Some(Method::Head),
        6 => Some(Method::Options),
        7 => Some(Method::Connect),
        8 => Some(Method::Patch),
        9 => Some(Method::Trace),
        _ => None,
    }
}

fn tag_to_version(t: u8) -> (v: Option<Version>)
    ensures
        v == tag_version(t),
{
    match t {
        1 => Some(Version::Http09),
        2 => Some(Version::Http10),
        3 => Some(Version::Http11),
        4 => Some(Version::H2),
        5 => Some(Version::H3),
        _ => None,
    }
}

fn parse_u16(bytes: &Vec<u8>, pos: usize) -> (r: Option<(u16, usize)>)
    requires
        pos <= bytes@.len(),
    ensures
        match r {
            Some(v) => {
                &&& v.1 == pos + 2
                &&& v.1 <= bytes@.len()
                &&& dec_u16(bytes@.skip(pos as int)) == Some((v.0, bytes@.skip(v.1 as int)))
            },
            None => dec_u16(bytes@.skip(pos as int)) is None,
        },
{
    if bytes.len() - pos < 2 {
        return None;
    }
    let lo = bytes[pos];
    let hi = bytes[pos + 1];
    let n: u16 = lo as u16 + (hi as u16) * 256;
    proof {
        let s = bytes@.skip(pos as int);
        assert(s[0] == bytes@[pos as int]);
        assert(s[1] == bytes@[pos + 1]);
        assert(s.skip(2) =~= bytes@.skip(pos + 2));
    }
    Some((n, pos + 2))
}

fn parse_field(bytes: &Vec<u8>, pos: usize) -> (r: Option<(Vec<u8>, usize)>)
    requires
        pos <= bytes@.len(),
    ensures
        match r {
            Some(v) => {
                &&& v.1 <= bytes@.len()
                &&& field_ok(v.0@)
                &&& dec_field(bytes@.skip(pos as int)) == Some((v.0@, bytes@.skip(v.1 as int)))
            },
            None => dec_field(bytes@.skip(pos as int)) is None,
        },
{
    let (n, p1) = match parse_u16(bytes, pos) {
        Some(v) => v,
        None => {
            return None;
        },
    };
    let ghost s = bytes@.skip(pos as int);
    let ghost r = bytes@.skip(p1 as int);
    let len = n as usize;
    if bytes.len() - p1 < len {
        return None;
    }
    let mut out: Vec<u8> = Vec::new();
    assert(out@ =~= r.take(0));
    let mut i: usize = 0;
    while i < len
        invariant
            i <= len,
            len == n as usize,
            p1 + len <= bytes@.len(),
            bytes@.len() <= usize::MAX,
            pos <= bytes@.len(),
            dec_u16(bytes@.skip(pos as int)) == Some((n, r)),
            r == bytes@.skip(p1 as int),
            out@ == r.take(i as int),
            forall|j: int| 0 <= j < i ==> crate::wire::is_ascii_byte(#[trigger] r[j]),
        decreases len - i,
    {
        let b = bytes[p1 + i];
        assert(r[i as int] == bytes@[p1 + i]);
        if b >= 128 {
            proof {
                let t = r.take(n as int);
                assert(r.len() == bytes@.len() - p1);
                assert(n as int <= r.len());
                assert(t.len() == n);
                assert(t[i as int] == r[i as int]);
                assert(!crate::wire::is_ascii_byte(t[i as int]));
                assert(!ascii_seq_ok(t));
            }
            return None;
        }
        out.push(b);
        assert(out@ =~= r.take(i + 1));
        i += 1;
    }
    proof {
        assert forall|k: int| 0 <= k < n implies crate::wire::is_ascii_byte(
            #[trigger] r.take(n as int)[k],
        ) by {
            assert(r.take(n as int)[k] == r[k]);
        }
        assert(ascii_seq_ok(r.take(n as int)));
        assert(out@ == r.take(n as int));
        assert(r.skip(n as int) =~= bytes@.skip(p1 + len));
    }
    Some((out, p1 + len))
}

/// Splice a decoded prefix onto the outcome of decoding the remaining
/// headers.
spec fn dh_prepend(
    prefix: Seq<(Seq<u8>, Seq<u8>)>,
    tail: Option<(Seq<(Seq<u8>, Seq<u8>)>, Seq<u8>)>,
) -> Option<(Seq<(Seq<u8>, Seq<u8>)>, Seq<u8>)> {
    match tail {
        None => None,
        Some((t, rest)) => Some((prefix + t, rest)),
    }
}

fn parse_headers(bytes: &Vec<u8>, pos: usize, count: u16) -> (r: Option<(Vec<Header>, usize)>)
    requires
        pos <= bytes@.len(),
    ensures
        match r {
            Some(v) => {
                &&& v.1 <= bytes@.len()
                &&& headers_ok(headers_view(v.0@))
                &&& dec_headers(bytes@.skip(pos as int), count as nat) == Some(
                    (headers_view(v.0@), bytes@.skip(v.1 as int)),
                )
            },
            None => dec_headers(bytes@.skip(pos as int), count as nat) is None,
        },
{
    let ghost s0 = bytes@.skip(pos as int);
    let mut hs: Vec<Header> = Vec::new();
    let mut cur = pos;
    let mut i: u16 = 0;
    proof {
        let o = dec_headers(s0, count as nat);
        match o {
            None => {},
            Some((t, rest)) => {
                assert(Seq::<(Seq<u8>, Seq<u8>)>::empty() + t =~= t);
            },
        }
        assert(headers_view(hs@) =~= Seq::<(Seq<u8>, Seq<u8>)>::empty());
    }
    while i < count
        invariant
            i <= count,
            cur <= bytes@.len(),
            s0 == bytes@.skip(pos as int),
            hs@.len() == i,
            forall|j: int|
                0 <= j < hs@.len() ==> crate::wire::header_ok(#[trigger] headers_view(hs@)[j]),
            dec_headers(s0, count as nat) == dh_prepend(
                headers_view(hs@),
                dec_headers(bytes@.skip(cur as int), (count - i) as nat),
            ),
        decreases count - i,
    {
        let ghost hv_old = headers_view(hs@);
        let ghost rem = (count - i) as nat;
        let (name, p1) = match parse_field(bytes, cur) {
            Some(v) => v,
            None => {
                assert(dec_headers(bytes@.skip(cur as int), rem) is None);
                return None;
            },
        };
        let (value, p2) = match parse_field(bytes, p1) {
            Some(v) => v,
            None => {
                assert(dec_headers(bytes@.skip(cur as int), rem) is None);
                return None;
            },
        };
        proof {
            let sc = bytes@.skip(cur as int);
            let tail_o = dec_headers(bytes@.skip(p2 as int), (rem - 1) as nat);
            assert(dec_headers(sc, rem) == dh_prepend(seq![(name@, value@)], tail_o));
            match tail_o {
                None => {},
                Some((t, rest)) => {
                    assert(hv_old + (seq![(name@, value@)] + t) =~= (hv_old + seq![
                        (name@, value@),
                    ]) + t);
                },
            }
        }
        hs.push((name, value));
        proof {
            assert(headers_view(hs@) =~= hv_old + seq![(name@, value@)]);
            assert forall|j: int| 0 <= j < hs@.len() implies crate::wire::header_ok(
                #[trigger] headers_view(hs@)[j],
            ) by {
                if j < hv_old.len() {
                    assert(headers_view(hs@)[j] == hv_old[j]);
                } else {
                    assert(headers_view(hs@)[j] == (name@, value@));
                }
            }
        }
        cur = p2;
        i += 1;
    }
    proof {
        assert(dec_headers(bytes@.skip(cur as int), 0) == Some(
            (Seq::<(Seq<u8>, Seq<u8>)>::empty(), bytes@.skip(cur as int)),
        ));
        assert(headers_view(hs@) + Seq::<(Seq<u8>, Seq<u8>)>::empty() =~= headers_view(hs@));
        assert(headers_view(hs@).len() == hs@.len());
    }
    Some((hs, cur))
}

/// Decode request metadata, exactly as `dec_request` describes: the result is
/// `Ok` on precisely the buffers that are a whole, well-formed request
/// encoding, and `Malformed` on every other buffer.
pub fn decode_request(bytes: &Vec<u8>) -> (r: Result<WireRequest, DecodeError>)
    ensures
        match r {
            Ok(req) => {
                &&& dec_request(bytes@) == Some(req@)
                &&& request_wf(req@)
            },
            Err(e) => {
                &&& e == DecodeError::Malformed
                &&& dec_request(bytes@) is None
            },
        },
{
    if bytes.len() < 2 {
        return Err(DecodeError::Malformed);
    }
    let m = match tag_to_method(bytes[0]) {
        Some(m) => m,
        None => {
            return Err(DecodeError::Malformed);
        },
    };
    let v = match tag_to_version(bytes[1]) {
        Some(v) => v,
        None => {
            return Err(DecodeError::Malformed);
        },
    };
    let (uri, p1) = match parse_field(bytes, 2) {
        Some(x) => x,
        None => {
            return Err(DecodeError::Malformed);
        },
    };
    let (count, p2) = match parse_u16(bytes, p1) {
        Some(x) => x,
        None => {
            return Err(DecodeError::Malformed);
        },
    };
    let (headers, p3) = match parse_headers(bytes, p2, count) {
        Some(x) => x,
        None => {
            return Err(DecodeError::Malformed);
        },
    };
    if p3 != bytes.len() {
        assert(bytes@.skip(p3 as int).len() > 0);
        return Err(DecodeError::Malformed);
    }
    assert(bytes@.skip(p3 as int).len() == 0);
    let req = WireRequest { method: m, uri, headers, version: v };
    assert(dec_request(bytes@) == Some(req@));
    Ok(req)
}

/// Decode response metadata, exactly as `dec_response` describes.  This is
/// the host-facing half of the response round trip.
pub fn decode_response(bytes: &Vec<u8>) -> (r: Result<WireResponse, DecodeError>)
    ensures
        match r {
            Ok(resp) => {
                &&& dec_response(bytes@) == Some(resp@)
                &&& response_wf(resp@)
            },
            Err(e) => {
                &&& e == DecodeError::Malformed
                &&& dec_response(bytes@) is None
            },
        },
{
    let ghost s0 = bytes@.skip(0);
    proof {
        assert(s0 =~= bytes@);
    }
    let (status, p1) = match parse_u16(bytes, 0) {
        Some(x) => x,
        None => {
            return Err(DecodeError::Malformed);
        },
    };
    let (count, p2) = match parse_u16(bytes, p1) {
        Some(x) => x,
        None => {
            return Err(DecodeError::Malformed);
        },
    };
    let (headers, p3) = match parse_headers(bytes, p2, count) {
        Some(x) => x,
        None => {
            return Err(DecodeError::Malformed);
        },
    };
    if p3 != bytes.len() {
        assert(bytes@.skip(p3 as int).len() > 0);
        return Err(DecodeError::Malformed);
    }
    assert(bytes@.skip(p3 as int).len() == 0);
    let resp = WireResponse { status, headers };
    assert(dec_response(bytes@) == Some(resp@));
    Ok(resp)
}

} // verus!
