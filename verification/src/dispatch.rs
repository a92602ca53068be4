//! The dispatcher and the handler set.
//!
//! The route table is a closed, static set of `(method, path) -> handler`
//! bindings, matched by exact method and exact path equality.  Dispatch
//! resolves a request to exactly one handler and runs it to completion, or
//! produces the not-found outcome: status 404, empty headers, empty body —
//! a normal terminal outcome, not an error.
//!
//! A handler that failed internally would be answered with the generic
//! internal-error response, status 500, never retried.  Every handler here
//! is verified to return on all inputs, so no fault path exists to take;
//! the 500 reply remains reachable only for a body-read failure, where the
//! bridge sends it before any handler runs.

use vstd::prelude::*;
use vstd::string::StringSliceAdditionalSpecFns;

use crate::transform::{chunks_view, upper_chunks, BodyProducer, UppercaseStream};
use crate::wire::{response_wf, Method, WireRequest, WireResponse, WireResponseV};

verus! {

/// The closed set of handlers: adding one is a compile-time table edit.
#[derive(Clone, Copy, Debug, PartialEq, Eq, Structural)]
pub enum HandlerId {
    Hello,
    Goodbye,
    Uppercase,
}

/// One route binding.
#[derive(Debug, PartialEq, Eq)]
pub struct Route {
    pub method: Method,
    pub path: Vec<u8>,
    pub handler: HandlerId,
}

/// The model of a route binding.
pub ghost struct RouteV {
    pub method: Method,
    pub path: Seq<u8>,
    pub handler: HandlerId,
}

impl View for Route {
    type V = RouteV;

    open spec fn view(&self) -> RouteV {
        RouteV { method: self.method, path: self.path@, handler: self.handler }
    }
}

/// The model of an executable route table.
pub open spec fn routes_view(t: Seq<Route>) -> Seq<RouteV> {
    t.map_values(|r: Route| r@)
}

/// First-match resolution by exact method and exact path equality.
pub open spec fn spec_resolve(table: Seq<RouteV>, m: Method, uri: Seq<u8>) -> Option<HandlerId>
    decreases table.len(),
{
    if table.len() == 0 {
        None
    } else if table[0].method == m && table[0].path == uri {
        Some(table[0].handler)
    } else {
        spec_resolve(table.skip(1), m, uri)
    }
}

/// A response with no headers: all this handler set ever returns.
pub open spec fn bare_response(status: u16) -> WireResponseV {
    WireResponseV { status, headers: Seq::empty() }
}

/// What each handler returns: its response metadata and the chunk sequence
/// of its body.
pub open spec fn spec_run_handler(h: HandlerId, body: Seq<Seq<u8>>) -> (WireResponseV, Seq<
    Seq<u8>,
>) {
    match h {
        HandlerId::Hello => (bare_response(200), seq![hello_body()]),
        HandlerId::Goodbye => (bare_response(200), seq![goodbye_body()]),
        HandlerId::Uppercase => (bare_response(200), upper_chunks(body)),
    }
}

/// What dispatching a request over a table yields: the matched handler's
/// outcome, or not-found with an empty body.
pub open spec fn spec_handle(
    table: Seq<RouteV>,
    m: Method,
    uri: Seq<u8>,
    body: Seq<Seq<u8>>,
) -> (WireResponseV, Seq<Seq<u8>>) {
    match spec_resolve(table, m, uri) {
        Some(h) => spec_run_handler(h, body),
        None => (bare_response(404), Seq::empty()),
    }
}

/// The fixed body text of the `hello` handler.
pub open spec fn hello_body() -> Seq<u8> {
    ("Hello, World!").spec_bytes()
}

/// The fixed body text of the `goodbye` handler.
pub open spec fn goodbye_body() -> Seq<u8> {
    ("Goodbye, World!").spec_bytes()
}

/// This bridge's static route table.
pub open spec fn spec_route_table() -> Seq<RouteV> {
    seq![
        RouteV { method: Method::Get, path: ("/hello").spec_bytes(), handler: HandlerId::Hello },
        RouteV {
            method: Method::Get,
            path: ("/goodbye").spec_bytes(),
            handler: HandlerId::Goodbye,
        },
        RouteV {
            method: Method::Post,
            path: ("/uppercase").spec_bytes(),
            handler: HandlerId::Uppercase,
        },
    ]
}

/// The bytes of a string constant, as a fresh vector.
fn str_bytes(s: &str) -> (r: Vec<u8>)
    ensures
        r@ == s.spec_bytes(),
{
    vstd::slice::slice_to_vec(s.as_bytes())
}

/// Build the static route table.
pub fn route_table() -> (t: Vec<Route>)
    ensures
        routes_view(t@) == spec_route_table(),
{
    let mut t: Vec<Route> = Vec::new();
    t.push(Route { method: Method::Get, path: str_bytes("/hello"), handler: HandlerId::Hello });
    t.push(
        Route { method: Method::Get, path: str_bytes("/goodbye"), handler: HandlerId::Goodbye },
    );
    t.push(
        Route {
            method: Method::Post,
            path: str_bytes("/uppercase"),
            handler: HandlerId::Uppercase,
        },
    );
    proof {
        assert(routes_view(t@) =~= spec_route_table());
    }
    t
}

/// Byte-sequence equality.
fn bytes_eq(a: &Vec<u8>, b: &Vec<u8>) -> (r: bool)
    ensures
        r == (a@ == b@),
{
    if a.len() != b.len() {
        return false;
    }
    let mut i: usize = 0;
    while i < a.len()
        invariant
            i <= a@.len(),
            a@.len() == b@.len(),
            forall|j: int| 0 <= j < i ==> a@[j] == b@[j],
        decreases a@.len() - i,
    {
        if a[i] != b[i] {
            return false;
        }
        i += 1;
    }
    proof {
        assert(a@ =~= b@);
    }
    true
}

/// Resolve a `(method, uri)` pair against a route table: the first binding
/// whose method and path both match exactly, if any.
pub fn resolve(table: &Vec<Route>, method: Method, uri: &Vec<u8>) -> (r: Option<HandlerId>)
    ensures
        r == spec_resolve(routes_view(table@), method, uri@),
{
    let ghost tv = routes_view(table@);
    let mut i: usize = 0;
    proof {
        assert(tv.skip(0) =~= tv);
    }
    while i < table.len()
        invariant
            i <= table@.len(),
            tv == routes_view(table@),
            spec_resolve(tv, method, uri@) == spec_resolve(tv.skip(i as int), method, uri@),
        decreases table@.len() - i,
    {
        assert(tv[i as int] == table@[i as int]@);
        assert(tv.skip(i as int)[0] == tv[i as int]);
        let row = &table[i];
        if row.method == method && bytes_eq(&row.path, uri) {
            return Some(row.handler);
        }
        proof {
            assert(tv.skip(i as int).skip(1) =~= tv.skip(i + 1));
        }
        i += 1;
    }
    assert(tv.skip(table@.len() as int).len() == 0);
    None
}

/// The `hello` handler: ignores every request field; status 200, one fixed
/// body chunk.
pub fn hello() -> (r: (WireResponse, BodyProducer))
    ensures
        r.0@ == bare_response(200),
        response_wf(r.0@),
        r.1.wf(),
        r.1.remaining() == seq![hello_body()],
{
    let resp = WireResponse { status: 200, headers: Vec::new() };
    assert(resp@.headers =~= Seq::<(Seq<u8>, Seq<u8>)>::empty());
    (resp, BodyProducer::Literal(Some(str_bytes("Hello, World!"))))
}

/// The `goodbye` handler: same shape as `hello`, different fixed text.
pub fn goodbye() -> (r: (WireResponse, BodyProducer))
    ensures
        r.0@ == bare_response(200),
        response_wf(r.0@),
        r.1.wf(),
        r.1.remaining() == seq![goodbye_body()],
{
    let resp = WireResponse { status: 200, headers: Vec::new() };
    assert(resp@.headers =~= Seq::<(Seq<u8>, Seq<u8>)>::empty());
    (resp, BodyProducer::Literal(Some(str_bytes("Goodbye, World!"))))
}

/// The `uppercase` handler: consumes the request body as its ordered chunk
/// sequence and answers status 200 with the lazy chunk-for-chunk
/// ASCII-uppercase stream over it.
pub fn uppercase(body_chunks: Vec<Vec<u8>>) -> (r: (WireResponse, BodyProducer))
    ensures
        r.0@ == bare_response(200),
        response_wf(r.0@),
        r.1.wf(),
        r.1.remaining() == upper_chunks(chunks_view(body_chunks@)),
{
    let resp = WireResponse { status: 200, headers: Vec::new() };
    assert(resp@.headers =~= Seq::<(Seq<u8>, Seq<u8>)>::empty());
    (resp, BodyProducer::Upper(UppercaseStream::new(body_chunks)))
}

/// Run one handler to completion: its response metadata plus its body
/// producer, which will yield exactly the chunks the model names.
pub fn run_handler(h: HandlerId, body_chunks: Vec<Vec<u8>>) -> (r: (WireResponse, BodyProducer))
    ensures
        r.0@ == spec_run_handler(h, chunks_view(body_chunks@)).0,
        response_wf(r.0@),
        r.1.wf(),
        r.1.remaining() == spec_run_handler(h, chunks_view(body_chunks@)).1,
{
    match h {
        HandlerId::Hello => hello(),
        HandlerId::Goodbye => goodbye(),
        HandlerId::Uppercase => uppercase(body_chunks),
    }
}

/// The dispatcher: resolve the request against the static route table and
/// run exactly one handler, or produce the not-found outcome.  The request
/// body is handed over as the ordered chunk sequence the body-read channel
/// yielded.
pub fn handle_request(req: &WireRequest, body_chunks: Vec<Vec<u8>>) -> (r: (
    WireResponse,
    BodyProducer,
))
    ensures
        r.0@ == spec_handle(spec_route_table(), req@.method, req@.uri, chunks_view(body_chunks@)).0,
        response_wf(r.0@),
        r.1.wf(),
        r.1.remaining() == spec_handle(
            spec_route_table(),
            req@.method,
            req@.uri,
            chunks_view(body_chunks@),
        ).1,
{
    let table = route_table();
    match resolve(&table, req.method, &req.uri) {
        Some(h) => run_handler(h, body_chunks),
        None => {
            let resp = WireResponse { status: 404, headers: Vec::new() };
            assert(resp@.headers =~= Seq::<(Seq<u8>, Seq<u8>)>::empty());
            (resp, BodyProducer::empty())
        },
    }
}

/// For every request body, chunked however the channel happened to deliver
/// it — the empty body included — the `uppercase` handler returns status 200
/// and a response body whose concatenation is exactly the byte-wise
/// ASCII-uppercase image of the request body's concatenation, with the total
/// length preserved; chunk boundaries never affect what reaches the wire.
pub proof fn lemma_uppercase_handler(body: Seq<Seq<u8>>)
    ensures
        spec_run_handler(HandlerId::Uppercase, body).0 == bare_response(200),
        crate::transform::concat_chunks(spec_run_handler(HandlerId::Uppercase, body).1)
            == crate::transform::upper_seq(crate::transform::concat_chunks(body)),
        crate::transform::concat_chunks(spec_run_handler(HandlerId::Uppercase, body).1).len()
            == crate::transform::concat_chunks(body).len(),
{
    crate::transform::lemma_upper_chunks_concat(body);
}

/// For any two-binding route table `(GET, p1) -> h1`, `(GET, p2) -> h2` with
/// distinct paths, dispatching a GET of `p1` yields exactly `h1`'s outcome,
/// and dispatching a path bound by neither binding — whatever the method —
/// yields the not-found outcome: status 404, no headers, empty body.
pub proof fn lemma_two_route_dispatch(
    p1: Seq<u8>,
    p2: Seq<u8>,
    h1: HandlerId,
    h2: HandlerId,
    m: Method,
    q: Seq<u8>,
    body: Seq<Seq<u8>>,
)
    requires
        p1 != p2,
    ensures
        ({
            let table = seq![
                RouteV { method: Method::Get, path: p1, handler: h1 },
                RouteV { method: Method::Get, path: p2, handler: h2 },
            ];
            &&& spec_handle(table, Method::Get, p1, body) == spec_run_handler(h1, body)
            &&& (q != p1 && q != p2) ==> spec_handle(table, m, q, body) == (
                bare_response(404),
                Seq::<Seq<u8>>::empty(),
            )
        }),
{
    let table = seq![
        RouteV { method: Method::Get, path: p1, handler: h1 },
        RouteV { method: Method::Get, path: p2, handler: h2 },
    ];
    let tail = table.skip(1);
    assert(tail[0] == table[1]);
    assert(tail.skip(1).len() == 0);
    assert(spec_resolve(table, Method::Get, p1) == Some(h1));
    if q != p1 && q != p2 {
        assert(spec_resolve(table, m, q) == spec_resolve(tail, m, q));
        assert(spec_resolve(tail, m, q) == spec_resolve(tail.skip(1), m, q));
        assert(spec_resolve(table, m, q) is None);
    }
}

} // verus!
