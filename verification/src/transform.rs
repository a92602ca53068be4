//! The streaming body transform: a lazy, pull-based, chunk-at-a-time byte
//! mapper, and the body-producer abstraction the encoder drains.
//!
//! The transform maps each input chunk to its byte-wise ASCII-uppercase
//! image, one output chunk per input chunk, computing a chunk only when it is
//! pulled; peak memory is thus bounded by one chunk, never the whole body.
//!
//! The stream is consumed exactly once per exchange and ends when its input
//! ends.  Its input is the request body as already drained from the
//! body-read channel — a read failure there aborts the exchange before any
//! handler runs, so no read can fail mid-stream under a pull.

use vstd::prelude::*;

verus! {

/// Byte-wise ASCII uppercase: a lowercase ASCII letter maps to its uppercase
/// partner; every other byte, non-ASCII bytes included, passes unchanged.
pub open spec fn upper_byte(b: u8) -> u8 {
    if 97 <= b && b <= 122 {
        (b - 32) as u8
    } else {
        b
    }
}

/// The uppercase image of a whole byte sequence.
pub open spec fn upper_seq(s: Seq<u8>) -> Seq<u8> {
    s.map_values(|b: u8| upper_byte(b))
}

/// The concatenation of a chunk sequence, in order: all that the wire ever
/// sees of a chunked body.
pub open spec fn concat_chunks(cs: Seq<Seq<u8>>) -> Seq<u8>
    decreases cs.len(),
{
    if cs.len() == 0 {
        Seq::empty()
    } else {
        cs[0] + concat_chunks(cs.skip(1))
    }
}

/// The model of an executable chunk list.
pub open spec fn chunks_view(cs: Seq<Vec<u8>>) -> Seq<Seq<u8>> {
    cs.map_values(|c: Vec<u8>| c@)
}

/// The uppercase image of each chunk in a chunk sequence.
pub open spec fn upper_chunks(cs: Seq<Seq<u8>>) -> Seq<Seq<u8>> {
    cs.map_values(|c: Seq<u8>| upper_seq(c))
}

/// Map one chunk to its ASCII-uppercase image.
pub fn uppercase_chunk(chunk: &Vec<u8>) -> (r: Vec<u8>)
    ensures
        r@ == upper_seq(chunk@),
{
    let mut out: Vec<u8> = Vec::new();
    assert(out@ =~= upper_seq(chunk@).take(0));
    let mut i: usize = 0;
    while i < chunk.len()
        invariant
            i <= chunk@.len(),
            out@ == upper_seq(chunk@).take(i as int),
        decreases chunk@.len() - i,
    {
        let b = chunk[i];
        if 97 <= b && b <= 122 {
            out.push(b - 32);
        } else {
            out.push(b);
        }
        assert(upper_seq(chunk@)[i as int] == upper_byte(chunk@[i as int]));
        assert(out@ =~= upper_seq(chunk@).take(i + 1));
        i += 1;
    }
    assert(upper_seq(chunk@).take(chunk@.len() as int) =~= upper_seq(chunk@));
    out
}

/// The lazy uppercase stream over an already-drained request body: it holds
/// the input chunks and a cursor, and computes one output chunk per pull.
pub struct UppercaseStream {
    input: Vec<Vec<u8>>,
    next: usize,
}

impl UppercaseStream {
    /// The cursor never runs past the input.
    pub closed spec fn wf(&self) -> bool {
        self.next <= self.input@.len()
    }

    /// The output chunks not yet pulled.
    pub closed spec fn remaining(&self) -> Seq<Seq<u8>> {
        upper_chunks(chunks_view(self.input@).skip(self.next as int))
    }

    /// Wrap a drained body; nothing is transformed yet.
    pub fn new(input: Vec<Vec<u8>>) -> (s: Self)
        ensures
            s.wf(),
            s.remaining() == upper_chunks(chunks_view(input@)),
    {
        let s = UppercaseStream { input, next: 0 };
        proof {
            assert(chunks_view(s.input@).skip(0) =~= chunks_view(s.input@));
        }
        s
    }

    /// Pull the next output chunk, computing it now; `None` means the input
    /// ended and the sequence is over.
    pub fn next_chunk(&mut self) -> (r: Option<Vec<u8>>)
        requires
            old(self).wf(),
        ensures
            final(self).wf(),
            match r {
                Some(c) => {
                    &&& old(self).remaining().len() > 0
                    &&& c@ == old(self).remaining()[0]
                    &&& final(self).remaining() == old(self).remaining().skip(1)
                },
                None => {
                    &&& old(self).remaining().len() == 0
                    &&& final(self).remaining() == old(self).remaining()
                },
            },
    {
        if self.next < self.input.len() {
            let c = uppercase_chunk(&self.input[self.next]);
            let ghost pre = *self;
            self.next = self.next + 1;
            proof {
                let cv = chunks_view(pre.input@);
                assert(cv[pre.next as int] == pre.input@[pre.next as int]@);
                assert(pre.remaining()[0] == upper_seq(cv.skip(pre.next as int)[0]));
                assert(cv.skip(pre.next as int)[0] == cv[pre.next as int]);
                assert(cv.skip(pre.next as int).skip(1) =~= cv.skip(pre.next + 1));
                assert(final(self).remaining() =~= pre.remaining().skip(1));
            }
            Some(c)
        } else {
            None
        }
    }
}

/// What a handler hands the encoder: the response body as a pull-based chunk
/// source.  `Literal` yields its one chunk and ends (or nothing at all);
/// `Upper` streams the uppercase transform of the request body.
pub enum BodyProducer {
    Literal(Option<Vec<u8>>),
    Upper(UppercaseStream),
}

impl BodyProducer {
    pub open spec fn wf(&self) -> bool {
        match self {
            BodyProducer::Literal(_) => true,
            BodyProducer::Upper(s) => s.wf(),
        }
    }

    /// The chunks not yet pulled.
    pub open spec fn remaining(&self) -> Seq<Seq<u8>> {
        match self {
            BodyProducer::Literal(None) => Seq::empty(),
            BodyProducer::Literal(Some(v)) => seq![v@],
            BodyProducer::Upper(s) => s.remaining(),
        }
    }

    /// A producer that yields no chunks at all.
    pub fn empty() -> (p: Self)
        ensures
            p.wf(),
            p.remaining() == Seq::<Seq<u8>>::empty(),
    {
        BodyProducer::Literal(None)
    }

    /// Pull the next chunk; `None` ends the body.
    pub fn next_chunk(&mut self) -> (r: Option<Vec<u8>>)
        requires
            old(self).wf(),
        ensures
            final(self).wf(),
            match r {
                Some(c) => {
                    &&& old(self).remaining().len() > 0
                    &&& c@ == old(self).remaining()[0]
                    &&& final(self).remaining() == old(self).remaining().skip(1)
                },
                None => {
                    &&& old(self).remaining().len() == 0
                    &&& final(self).remaining() == old(self).remaining()
                },
            },
    {
        match self {
            BodyProducer::Literal(o) => {
                let r = o.take();
                proof {
                    if r is Some {
                        assert(old(self).remaining() =~= seq![r->Some_0@]);
                        assert(final(self).remaining() =~= old(self).remaining().skip(1));
                    }
                }
                r
            },
            BodyProducer::Upper(s) => s.next_chunk(),
        }
    }
}

// ---------------------------------------------------------------------------
// The transform's laws
// ---------------------------------------------------------------------------

/// The uppercase image of a concatenation is the concatenation of the
/// images: chunk boundaries are irrelevant to the final byte sequence.
pub proof fn lemma_upper_seq_concat(a: Seq<u8>, b: Seq<u8>)
    ensures
        upper_seq(a + b) == upper_seq(a) + upper_seq(b),
{
    assert(upper_seq(a + b) =~= upper_seq(a) + upper_seq(b));
}

/// For every chunked body, the concatenation of the chunk-wise uppercase
/// images equals the uppercase image of the concatenated body — so the
/// transform's chunking never changes what reaches the wire — and the total
/// length is preserved.
pub proof fn lemma_upper_chunks_concat(cs: Seq<Seq<u8>>)
    ensures
        concat_chunks(upper_chunks(cs)) == upper_seq(concat_chunks(cs)),
        concat_chunks(upper_chunks(cs)).len() == concat_chunks(cs).len(),
    decreases cs.len(),
{
    if cs.len() == 0 {
        assert(upper_chunks(cs) =~= Seq::<Seq<u8>>::empty());
        assert(upper_seq(concat_chunks(cs)) =~= Seq::<u8>::empty());
    } else {
        lemma_upper_chunks_concat(cs.skip(1));
        assert(upper_chunks(cs).skip(1) =~= upper_chunks(cs.skip(1)));
        assert(upper_chunks(cs)[0] == upper_seq(cs[0]));
        lemma_upper_seq_concat(cs[0], concat_chunks(cs.skip(1)));
        assert(concat_chunks(upper_chunks(cs)) =~= upper_seq(cs[0]) + concat_chunks(
            upper_chunks(cs.skip(1)),
        ));
    }
}

} // verus!
