//! The bridge entry point's verified core: one exchange, sequenced
//! Decoder -> Dispatcher -> Encoder.
//!
//! The exchange's effect on the host-facing channels is modelled as the
//! ordered script of writes it performs; the surrounding process replays the
//! script verbatim — metadata writes to the reply channel, body writes to the
//! body-write channel — and closes every channel when the script ends, on
//! every path.  Stating the writes as one ordered sequence is what lets the
//! ordering guarantee (metadata before any body byte) be proved once, for
//! every handler and every failure path that reaches the encoder.

use vstd::prelude::*;

use crate::codec::{dec_request, enc_response, encode_response};
use crate::dispatch::{bare_response, handle_request, spec_handle, spec_route_table};
use crate::transform::BodyProducer;
use crate::wire::{request_wf, response_wf, DecodeError, EncodeError, WireRequest, WireResponse};

verus! {

/// One write of the exchange, in script order.
pub enum WriteOp {
    /// Response metadata bytes for the reply channel.
    Meta(Vec<u8>),
    /// One body chunk for the body-write channel.
    Body(Vec<u8>),
}

/// The model of one write.
pub ghost enum WriteOpV {
    Meta(Seq<u8>),
    Body(Seq<u8>),
}

impl View for WriteOp {
    type V = WriteOpV;

    open spec fn view(&self) -> WriteOpV {
        match self {
            WriteOp::Meta(b) => WriteOpV::Meta(b@),
            WriteOp::Body(b) => WriteOpV::Body(b@),
        }
    }
}

/// The model of an executable write script.
pub open spec fn ops_view(ops: Seq<WriteOp>) -> Seq<WriteOpV> {
    ops.map_values(|o: WriteOp| o@)
}

/// A chunk sequence as body writes, in order.
pub open spec fn body_ops(cs: Seq<Seq<u8>>) -> Seq<WriteOpV> {
    cs.map_values(|c: Seq<u8>| WriteOpV::Body(c))
}

/// What the body-read channel yielded for one exchange: its ordered chunks,
/// drained to end-of-channel, or a read failure.
pub enum BodyReadOutcome {
    Chunks(Vec<Vec<u8>>),
    ReadError,
}

/// The model of a body-read outcome.
pub ghost enum BodyReadV {
    Chunks(Seq<Seq<u8>>),
    ReadError,
}

impl View for BodyReadOutcome {
    type V = BodyReadV;

    open spec fn view(&self) -> BodyReadV {
        match self {
            BodyReadOutcome::Chunks(cs) => BodyReadV::Chunks(crate::transform::chunks_view(cs@)),
            BodyReadOutcome::ReadError => BodyReadV::ReadError,
        }
    }
}

// ---------------------------------------------------------------------------
// Request Decoder: both input channels to one structured request
// ---------------------------------------------------------------------------

/// Reconstruct the structured request from the two input channels' contents:
/// the metadata channel's bytes and the body-read channel's outcome.
///
/// Either a fully-populated request with its body chunks comes back, or the
/// exchange fails atomically: `Malformed` when the metadata bytes do not
/// conform to the schema, `BodyIo` when the metadata decoded but the body
/// read had failed — reported before any handler runs.
pub fn decode_exchange_input(meta: &Vec<u8>, body: BodyReadOutcome) -> (r: Result<
    (WireRequest, Vec<Vec<u8>>),
    DecodeError,
>)
    ensures
        dec_request(meta@) is None ==> (r matches Err(e) && e == DecodeError::Malformed),
        dec_request(meta@) is Some && body@ is ReadError ==> (r matches Err(e) && e
            == DecodeError::BodyIo),
        dec_request(meta@) is Some && body@ is Chunks ==> (r matches Ok(p) && {
            &&& dec_request(meta@) == Some(p.0@)
            &&& request_wf(p.0@)
            &&& crate::transform::chunks_view(p.1@) == body@->Chunks_0
        }),
{
    let req = match crate::codec::decode_request(meta) {
        Ok(req) => req,
        Err(_) => {
            return Err(DecodeError::Malformed);
        },
    };
    match body {
        BodyReadOutcome::Chunks(chunks) => Ok((req, chunks)),
        BodyReadOutcome::ReadError => Err(DecodeError::BodyIo),
    }
}

// ---------------------------------------------------------------------------
// Response Encoder: one response and its body producer to the write script
// ---------------------------------------------------------------------------

/// Serialize the response and drain its body producer: one metadata write
/// holding the whole encoded response, then each body chunk, in order.  A
/// producer that yields zero chunks leaves a script with no body write at
/// all — the body-write channel is then closed with zero bytes written.
///
/// An unrepresentable response fails before anything is scripted, so an
/// encoding failure never leaves a half-written response on the wire.
pub fn encode_exchange_output(resp: &WireResponse, producer: BodyProducer) -> (r: Result<
    Vec<WriteOp>,
    EncodeError,
>)
    requires
        producer.wf(),
    ensures
        match r {
            Ok(ops) => {
                &&& response_wf(resp@)
                &&& ops_view(ops@) == seq![WriteOpV::Meta(enc_response(resp@))] + body_ops(
                    producer.remaining(),
                )
            },
            Err(e) => {
                &&& e == EncodeError::Malformed
                &&& !response_wf(resp@)
            },
        },
{
    let meta_bytes = match encode_response(resp) {
        Ok(b) => b,
        Err(e) => {
            return Err(e);
        },
    };
    let ghost goal = seq![WriteOpV::Meta(enc_response(resp@))] + body_ops(producer.remaining());
    let mut ops: Vec<WriteOp> = Vec::new();
    ops.push(WriteOp::Meta(meta_bytes));
    let mut prod = producer;
    let mut done = false;
    proof {
        assert(ops_view(ops@) =~= seq![WriteOpV::Meta(enc_response(resp@))]);
        assert(ops_view(ops@) + body_ops(prod.remaining()) =~= goal);
    }
    while !done
        invariant
            prod.wf(),
            done ==> prod.remaining().len() == 0,
            ops_view(ops@) + body_ops(prod.remaining()) == goal,
        decreases prod.remaining().len() + (if done {
            0int
        } else {
            1int
        }),
    {
        let ghost rem_old = prod.remaining();
        let ghost ops_old = ops@;
        match prod.next_chunk() {
            Some(c) => {
                ops.push(WriteOp::Body(c));
                proof {
                    assert(body_ops(rem_old) =~= seq![WriteOpV::Body(rem_old[0])] + body_ops(
                        rem_old.skip(1),
                    ));
                    assert(ops_view(ops@) =~= ops_view(ops_old) + seq![WriteOpV::Body(rem_old[0])]);
                    assert(ops_view(ops@) + body_ops(prod.remaining()) =~= ops_view(ops_old)
                        + body_ops(rem_old));
                }
            },
            None => {
                done = true;
            },
        }
    }
    proof {
        assert(body_ops(prod.remaining()) =~= Seq::<WriteOpV>::empty());
        assert(ops_view(ops@) =~= ops_view(ops@) + body_ops(prod.remaining()));
    }
    Ok(ops)
}

// ---------------------------------------------------------------------------
// The exchange itself
// ---------------------------------------------------------------------------

/// The write script one exchange produces from its two inputs.
///
/// Malformed metadata aborts before any write: no reply bytes, no body
/// bytes.  A body-read failure after good metadata still gets a best-effort
/// reply: the generic internal-error response, status 500, with no body.
/// Otherwise the dispatcher's outcome is scripted: its response metadata,
/// then its body chunks in order.
pub open spec fn spec_exchange(meta: Seq<u8>, body: BodyReadV) -> Seq<WriteOpV> {
    match dec_request(meta) {
        None => Seq::empty(),
        Some(req) => match body {
            BodyReadV::ReadError => seq![WriteOpV::Meta(enc_response(bare_response(500)))],
            BodyReadV::Chunks(chunks) => {
                let outcome = spec_handle(spec_route_table(), req.method, req.uri, chunks);
                seq![WriteOpV::Meta(enc_response(outcome.0))] + body_ops(outcome.1)
            },
        },
    }
}

/// Run one whole exchange over the two input channels' contents: Decoder,
/// then Dispatcher, then Encoder, in strict sequence, producing the ordered
/// write script for the host-facing channels.
pub fn run_exchange(meta: &Vec<u8>, body: BodyReadOutcome) -> (ops: Vec<WriteOp>)
    ensures
        ops_view(ops@) == spec_exchange(meta@, body@),
{
    let ghost bodyv = body@;
    let (req, chunks) = match decode_exchange_input(meta, body) {
        Ok(p) => p,
        Err(DecodeError::Malformed) => {
            let ops: Vec<WriteOp> = Vec::new();
            assert(ops_view(ops@) =~= spec_exchange(meta@, bodyv));
            return ops;
        },
        Err(DecodeError::BodyIo) => {
            let resp = WireResponse { status: 500, headers: Vec::new() };
            assert(resp@.headers =~= Seq::<(Seq<u8>, Seq<u8>)>::empty());
            assert(resp@ == bare_response(500));
            match encode_exchange_output(&resp, BodyProducer::empty()) {
                Ok(ops) => {
                    assert(ops_view(ops@) =~= spec_exchange(meta@, bodyv));
                    return ops;
                },
                // a bare 500 response is always representable
                Err(_) => {
                    return vstd::pervasive::unreached();
                },
            }
        },
    };
    let (resp, producer) = handle_request(&req, chunks);
    match encode_exchange_output(&resp, producer) {
        Ok(ops) => {
            assert(ops_view(ops@) =~= spec_exchange(meta@, bodyv));
            ops
        },
        // every handler's response is representable, so encoding cannot fail
        Err(_) => vstd::pervasive::unreached(),
    }
}

// ---------------------------------------------------------------------------
// The exchange's laws
// ---------------------------------------------------------------------------

/// Metadata is always fully written before any body byte: in the write
/// script of every exchange — every handler, and every failure path that
/// reaches the encoder — the only metadata write stands at the head, and
/// everything after it is a body write.
pub proof fn lemma_metadata_before_body(meta: Seq<u8>, body: BodyReadV)
    ensures
        ({
            let ops = spec_exchange(meta, body);
            &&& forall|j: int| 0 <= j < ops.len() && (#[trigger] ops[j]) is Meta ==> j == 0
            &&& forall|i: int| 1 <= i < ops.len() ==> (#[trigger] ops[i]) is Body
        }),
{
    let ops = spec_exchange(meta, body);
    match dec_request(meta) {
        None => {},
        Some(req) => match body {
            BodyReadV::ReadError => {},
            BodyReadV::Chunks(chunks) => {
                let outcome = spec_handle(spec_route_table(), req.method, req.uri, chunks);
                assert forall|i: int| 1 <= i < ops.len() implies (#[trigger] ops[i]) is Body by {
                    assert(ops[i] == body_ops(outcome.1)[i - 1]);
                }
            },
        },
    }
}

/// A malformed metadata channel aborts the exchange before any write: the
/// reply channel receives no bytes and the body-write channel is closed with
/// nothing written.
pub proof fn lemma_malformed_writes_nothing(meta: Seq<u8>, body: BodyReadV)
    requires
        dec_request(meta) is None,
    ensures
        spec_exchange(meta, body).len() == 0,
{
}

} // verus!
