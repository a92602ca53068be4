use guest_bridge::bridge::{decode_exchange_input, run_exchange, BodyReadOutcome, WriteOp};
use guest_bridge::codec::{decode_request, decode_response, encode_request};
use guest_bridge::dispatch::{
    goodbye, handle_request, hello, resolve, route_table, uppercase, HandlerId,
};
use guest_bridge::transform::{uppercase_chunk, BodyProducer, UppercaseStream};
use guest_bridge::wire::{DecodeError, Method, Version, WireRequest};

fn request(method: Method, uri: &[u8]) -> WireRequest {
    WireRequest { method, uri: uri.to_vec(), headers: vec![], version: Version::Http11 }
}

fn drain(mut producer: BodyProducer) -> Vec<u8> {
    let mut out = Vec::new();
    loop {
        match producer.next_chunk() {
            Some(chunk) => out.extend(chunk),
            None => return out,
        }
    }
}

/// Replay an exchange's write script the way the host observes it: the reply
/// channel's bytes and the body-write channel's bytes.
fn replay(ops: Vec<WriteOp>) -> (Vec<u8>, Vec<u8>) {
    let mut reply = Vec::new();
    let mut body = Vec::new();
    for op in ops {
        match op {
            WriteOp::Meta(b) => reply.extend(b),
            WriteOp::Body(b) => body.extend(b),
        }
    }
    (reply, body)
}

#[test]
fn uppercase_scenario() {
    // input body "abc123XY" -> output body "ABC123XY", status 200
    let req = request(Method::Post, b"/uppercase");
    let (resp, producer) = handle_request(&req, vec![b"abc123XY".to_vec()]);
    assert_eq!(resp.status, 200);
    assert_eq!(drain(producer), b"ABC123XY".to_vec());
}

#[test]
fn uppercase_empty_body() {
    // body-read channel closed immediately: empty body in, empty body out, status 200
    let meta = encode_request(&request(Method::Post, b"/uppercase")).unwrap();
    let ops = run_exchange(&meta, BodyReadOutcome::Chunks(vec![]));
    let (reply, body) = replay(ops);
    let resp = decode_response(&reply).unwrap();
    assert_eq!(resp.status, 200);
    assert_eq!(body, Vec::<u8>::new());
}

#[test]
fn uppercase_chunk_boundaries_irrelevant() {
    let req = request(Method::Post, b"/uppercase");
    let (_, chunked) = handle_request(&req, vec![b"ab".to_vec(), b"cX".to_vec()]);
    let (_, whole) = handle_request(&req, vec![b"abcX".to_vec()]);
    assert_eq!(drain(chunked), drain(whole));
    assert_eq!(drain(handle_request(&req, vec![b"abcX".to_vec()]).1), b"ABCX".to_vec());
}

#[test]
fn uppercase_passes_non_ascii_through() {
    assert_eq!(uppercase_chunk(&vec![0xE4, b'a', b'z', b'{', b'`', b'0']), vec![
        0xE4, b'A', b'Z', b'{', b'`', b'0'
    ]);
}

#[test]
fn uppercase_stream_is_chunk_for_chunk() {
    let mut stream = UppercaseStream::new(vec![b"one".to_vec(), b"".to_vec(), b"Two".to_vec()]);
    assert_eq!(stream.next_chunk(), Some(b"ONE".to_vec()));
    assert_eq!(stream.next_chunk(), Some(b"".to_vec()));
    assert_eq!(stream.next_chunk(), Some(b"TWO".to_vec()));
    assert_eq!(stream.next_chunk(), None);
    assert_eq!(stream.next_chunk(), None);
}

#[test]
fn hello_scenario() {
    // GET /hello -> status 200, body "Hello, World!"
    let meta = encode_request(&request(Method::Get, b"/hello")).unwrap();
    let ops = run_exchange(&meta, BodyReadOutcome::Chunks(vec![]));
    let (reply, body) = replay(ops);
    let resp = decode_response(&reply).unwrap();
    assert_eq!(resp.status, 200);
    assert!(resp.headers.is_empty());
    assert_eq!(body, b"Hello, World!".to_vec());
}

#[test]
fn goodbye_scenario() {
    let meta = encode_request(&request(Method::Get, b"/goodbye")).unwrap();
    let ops = run_exchange(&meta, BodyReadOutcome::Chunks(vec![]));
    let (reply, body) = replay(ops);
    assert_eq!(decode_response(&reply).unwrap().status, 200);
    assert_eq!(body, b"Goodbye, World!".to_vec());
}

#[test]
fn resolve_matches_exactly() {
    let table = route_table();
    assert_eq!(resolve(&table, Method::Get, &b"/hello".to_vec()), Some(HandlerId::Hello));
    assert_eq!(resolve(&table, Method::Get, &b"/goodbye".to_vec()), Some(HandlerId::Goodbye));
    assert_eq!(resolve(&table, Method::Post, &b"/uppercase".to_vec()), Some(HandlerId::Uppercase));
    // method must match exactly, not just the path
    assert_eq!(resolve(&table, Method::Post, &b"/hello".to_vec()), None);
    assert_eq!(resolve(&table, Method::Get, &b"/uppercase".to_vec()), None);
    assert_eq!(resolve(&table, Method::Get, &b"/nonexistent".to_vec()), None);
}

#[test]
fn unbound_path_is_not_found_for_every_method() {
    for method in [Method::Get, Method::Post, Method::Delete] {
        let (resp, producer) = handle_request(&request(method, b"/nonexistent"), vec![]);
        assert_eq!(resp.status, 404);
        assert!(resp.headers.is_empty());
        assert_eq!(drain(producer), Vec::<u8>::new());
    }
}

#[test]
fn not_found_exchange_writes_reply_then_nothing() {
    let meta = encode_request(&request(Method::Get, b"/nonexistent")).unwrap();
    let ops = run_exchange(&meta, BodyReadOutcome::Chunks(vec![]));
    let (reply, body) = replay(ops);
    assert_eq!(decode_response(&reply).unwrap().status, 404);
    assert_eq!(body, Vec::<u8>::new());
}

#[test]
fn malformed_metadata_aborts_with_no_writes() {
    // truncated/corrupt metadata: no reply bytes, body-write channel closed empty
    let corrupt = vec![0xFF, 0x00, 0x17];
    assert_eq!(decode_request(&corrupt), Err(DecodeError::Malformed));
    let ops = run_exchange(&corrupt, BodyReadOutcome::Chunks(vec![b"ignored".to_vec()]));
    assert!(ops.is_empty());
}

#[test]
fn body_read_failure_yields_internal_error_reply() {
    let meta = encode_request(&request(Method::Post, b"/uppercase")).unwrap();
    assert_eq!(
        decode_exchange_input(&meta, BodyReadOutcome::ReadError),
        Err(DecodeError::BodyIo)
    );
    let ops = run_exchange(&meta, BodyReadOutcome::ReadError);
    let (reply, body) = replay(ops);
    let resp = decode_response(&reply).unwrap();
    assert_eq!(resp.status, 500);
    assert!(resp.headers.is_empty());
    assert_eq!(body, Vec::<u8>::new());
}

#[test]
fn metadata_precedes_every_body_write() {
    // across handlers and the failure path that reaches the encoder
    let cases = vec![
        (encode_request(&request(Method::Get, b"/hello")).unwrap(), BodyReadOutcome::Chunks(vec![])),
        (
            encode_request(&request(Method::Post, b"/uppercase")).unwrap(),
            BodyReadOutcome::Chunks(vec![b"abc".to_vec(), b"def".to_vec()]),
        ),
        (encode_request(&request(Method::Get, b"/nonexistent")).unwrap(), BodyReadOutcome::Chunks(vec![])),
        (encode_request(&request(Method::Get, b"/hello")).unwrap(), BodyReadOutcome::ReadError),
    ];
    for (meta, body) in cases {
        let ops = run_exchange(&meta, body);
        let mut seen_body = false;
        for op in &ops {
            match op {
                WriteOp::Meta(_) => assert!(!seen_body),
                WriteOp::Body(_) => seen_body = true,
            }
        }
    }
}

#[test]
fn handlers_return_their_fixed_outcomes() {
    let (resp, producer) = hello();
    assert_eq!(resp.status, 200);
    assert!(resp.headers.is_empty());
    assert_eq!(drain(producer), b"Hello, World!".to_vec());

    let (resp, producer) = goodbye();
    assert_eq!(resp.status, 200);
    assert_eq!(drain(producer), b"Goodbye, World!".to_vec());

    let (resp, producer) = uppercase(vec![b"mixed Case 9!".to_vec()]);
    assert_eq!(resp.status, 200);
    assert_eq!(drain(producer), b"MIXED CASE 9!".to_vec());
}

#[test]
fn producer_literal_yields_once() {
    let mut p = BodyProducer::Literal(Some(b"x".to_vec()));
    assert_eq!(p.next_chunk(), Some(b"x".to_vec()));
    assert_eq!(p.next_chunk(), None);
    let mut e = BodyProducer::empty();
    assert_eq!(e.next_chunk(), None);
}
