use guest_bridge::codec::{decode_request, decode_response, encode_request, encode_response};
use guest_bridge::wire::{DecodeError, EncodeError, Method, Version, WireRequest, WireResponse};

fn sample_request() -> WireRequest {
    WireRequest {
        method: Method::Post,
        uri: b"/uppercase".to_vec(),
        headers: vec![
            (b"content-type".to_vec(), b"text/plain".to_vec()),
            (b"x-trace".to_vec(), b"abc-123".to_vec()),
        ],
        version: Version::Http11,
    }
}

#[test]
fn request_round_trip() {
    let req = sample_request();
    let bytes = encode_request(&req).unwrap();
    let back = decode_request(&bytes).unwrap();
    assert_eq!(back, sample_request());
}

#[test]
fn request_round_trip_no_headers() {
    let req = WireRequest {
        method: Method::Get,
        uri: b"/hello".to_vec(),
        headers: vec![],
        version: Version::Http10,
    };
    let bytes = encode_request(&req).unwrap();
    let back = decode_request(&bytes).unwrap();
    assert_eq!(back.method, Method::Get);
    assert_eq!(back.uri, b"/hello".to_vec());
    assert!(back.headers.is_empty());
    assert_eq!(back.version, Version::Http10);
}

#[test]
fn response_round_trip() {
    let resp = WireResponse {
        status: 200,
        headers: vec![
            (b"content-type".to_vec(), b"text/plain".to_vec()),
            (b"server".to_vec(), b"bridge".to_vec()),
        ],
    };
    let bytes = encode_response(&resp).unwrap();
    let back = decode_response(&bytes).unwrap();
    assert_eq!(back.status, 200);
    assert_eq!(back.headers.len(), 2);
    assert_eq!(back.headers[0], (b"content-type".to_vec(), b"text/plain".to_vec()));
    assert_eq!(back.headers[1], (b"server".to_vec(), b"bridge".to_vec()));
}

#[test]
fn response_round_trip_status_boundary() {
    let resp = WireResponse { status: 65535, headers: vec![] };
    let bytes = encode_response(&resp).unwrap();
    let back = decode_response(&bytes).unwrap();
    assert_eq!(back.status, 65535);
    assert!(back.headers.is_empty());
}

#[test]
fn response_round_trip_empty_header_value() {
    let resp = WireResponse { status: 204, headers: vec![(b"x-empty".to_vec(), b"".to_vec())] };
    let bytes = encode_response(&resp).unwrap();
    let back = decode_response(&bytes).unwrap();
    assert_eq!(back.headers, vec![(b"x-empty".to_vec(), b"".to_vec())]);
}

#[test]
fn decode_rejects_empty_input() {
    assert_eq!(decode_request(&vec![]), Err(DecodeError::Malformed));
}

#[test]
fn decode_rejects_bad_method_tag() {
    // tag 0 and tag 10 name no verb
    let mut bytes = encode_request(&sample_request()).unwrap();
    bytes[0] = 0;
    assert_eq!(decode_request(&bytes), Err(DecodeError::Malformed));
    bytes[0] = 10;
    assert_eq!(decode_request(&bytes), Err(DecodeError::Malformed));
}

#[test]
fn decode_rejects_bad_version_tag() {
    let mut bytes = encode_request(&sample_request()).unwrap();
    bytes[1] = 0;
    assert_eq!(decode_request(&bytes), Err(DecodeError::Malformed));
}

#[test]
fn decode_rejects_truncated_input() {
    let bytes = encode_request(&sample_request()).unwrap();
    for cut in 0..bytes.len() {
        let prefix = bytes[..cut].to_vec();
        assert_eq!(decode_request(&prefix), Err(DecodeError::Malformed));
    }
}

#[test]
fn decode_rejects_trailing_bytes() {
    let mut bytes = encode_request(&sample_request()).unwrap();
    bytes.push(0);
    assert_eq!(decode_request(&bytes), Err(DecodeError::Malformed));
}

#[test]
fn decode_rejects_non_ascii_text() {
    let req = WireRequest {
        method: Method::Get,
        uri: b"/hi".to_vec(),
        headers: vec![],
        version: Version::Http11,
    };
    let mut bytes = encode_request(&req).unwrap();
    // corrupt the first uri byte to a non-ASCII value
    bytes[4] = 0xC3;
    assert_eq!(decode_request(&bytes), Err(DecodeError::Malformed));
}

#[test]
fn decode_response_rejects_truncated_input() {
    let resp = WireResponse { status: 200, headers: vec![(b"a".to_vec(), b"b".to_vec())] };
    let bytes = encode_response(&resp).unwrap();
    for cut in 0..bytes.len() {
        let prefix = bytes[..cut].to_vec();
        assert_eq!(decode_response(&prefix), Err(DecodeError::Malformed));
    }
}

#[test]
fn encode_rejects_oversized_header_value() {
    let resp = WireResponse { status: 200, headers: vec![(b"big".to_vec(), vec![b'x'; 70000])] };
    assert_eq!(encode_response(&resp), Err(EncodeError::Malformed));
}

#[test]
fn encode_rejects_non_ascii_header_name() {
    let resp = WireResponse { status: 200, headers: vec![(vec![0xFF, b'a'], b"v".to_vec())] };
    assert_eq!(encode_response(&resp), Err(EncodeError::Malformed));
}

#[test]
fn encode_rejects_oversized_uri() {
    let req = WireRequest {
        method: Method::Get,
        uri: vec![b'/'; 70000],
        headers: vec![],
        version: Version::Http11,
    };
    assert_eq!(encode_request(&req), Err(EncodeError::Malformed));
}

#[test]
fn encoding_is_as_documented() {
    // GET (tag 1), HTTP/1.1 (tag 3), uri "/a", one header ("k", "v")
    let req = WireRequest {
        method: Method::Get,
        uri: b"/a".to_vec(),
        headers: vec![(b"k".to_vec(), b"v".to_vec())],
        version: Version::Http11,
    };
    let bytes = encode_request(&req).unwrap();
    assert_eq!(
        bytes,
        vec![
            1, 3, // method, version
            2, 0, b'/', b'a', // uri field
            1, 0, // header count
            1, 0, b'k', // header name field
            1, 0, b'v', // header value field
        ]
    );
}
