//! The reliable send primitive's logic: chunking of large payloads and the
//! bounded retry policy for a receiver that is not listening yet.
//!
//! The sending itself is socket work and lives with the caller that owns
//! the socket; what is verified here is how a payload is cut into chunks
//! and when a refused send is retried or given up.

use vstd::prelude::*;

verus! {

/// The chunks of `payload` under chunk size `chunk`: full chunks in order,
/// then whatever remains.  An empty payload has no chunks.
pub open spec fn spec_chunks(payload: Seq<u8>, chunk: nat) -> Seq<Seq<u8>>
    decreases payload.len(),
{
    if chunk == 0 || payload.len() == 0 {
        Seq::empty()
    } else if payload.len() <= chunk {
        seq![payload]
    } else {
        seq![payload.take(chunk as int)] + spec_chunks(payload.skip(chunk as int), chunk)
    }
}

/// Chunking completeness: concatenating the chunks gives back the payload.
pub proof fn lemma_chunks_flatten(payload: Seq<u8>, chunk: nat)
    requires
        chunk >= 1,
    ensures
        spec_chunks(payload, chunk).flatten() == payload,
    decreases payload.len(),
{
    let cs = spec_chunks(payload, chunk);
    if payload.len() == 0 {
        assert(cs.flatten() =~= payload);
    } else if payload.len() <= chunk {
        cs.lemma_flatten_one_element();
        assert(cs.flatten() == payload);
    } else {
        lemma_chunks_flatten(payload.skip(chunk as int), chunk);
        assert(cs.first() == payload.take(chunk as int));
        assert(cs.drop_first() =~= spec_chunks(payload.skip(chunk as int), chunk));
        assert(cs.flatten() =~= payload.take(chunk as int) + payload.skip(chunk as int));
        assert(payload.take(chunk as int) + payload.skip(chunk as int) =~= payload);
    }
}

/// Chunk count: a payload of `n` bytes makes exactly `ceil(n / chunk)`
/// chunks.
pub proof fn lemma_chunks_count(payload: Seq<u8>, chunk: nat)
    requires
        chunk >= 1,
    ensures
        spec_chunks(payload, chunk).len() == (payload.len() + chunk - 1) / (chunk as int),
    decreases payload.len(),
{
    let n = payload.len() as int;
    let c = chunk as int;
    if payload.len() == 0 {
        assert((0 + c - 1) / c == 0) by (nonlinear_arith)
            requires
                c >= 1,
        ;
    } else if payload.len() <= chunk {
        assert((n + c - 1) / c == 1) by (nonlinear_arith)
            requires
                1 <= n <= c,
        ;
    } else {
        lemma_chunks_count(payload.skip(c), chunk);
        assert(payload.skip(c).len() == n - c);
        assert(((n - c) + c - 1) / c + 1 == (n + c - 1) / c) by (nonlinear_arith)
            requires
                c >= 1,
                n > c,
        ;
    }
}

/// Chunk sizes: every chunk is non-empty and at most `chunk` bytes, and
/// every chunk but the last is full.
pub proof fn lemma_chunks_sizes(payload: Seq<u8>, chunk: nat, i: int)
    requires
        chunk >= 1,
        0 <= i < spec_chunks(payload, chunk).len(),
    ensures
        1 <= spec_chunks(payload, chunk)[i].len() <= chunk,
        i < spec_chunks(payload, chunk).len() - 1 ==> spec_chunks(payload, chunk)[i].len()
            == chunk,
    decreases payload.len(),
{
    if payload.len() > chunk {
        if i > 0 {
            lemma_chunks_sizes(payload.skip(chunk as int), chunk, i - 1);
        }
    }
}

/// Cut `payload` into successive chunks of at most `chunk` bytes.
pub fn chunk_payload(payload: &[u8], chunk: usize) -> (out: Vec<Vec<u8>>)
    requires
        chunk >= 1,
    ensures
        out.deep_view() == spec_chunks(payload@, chunk as nat),
{
    let plen: usize = payload.len();
    let mut out: Vec<Vec<u8>> = Vec::new();
    let mut offset: usize = 0;
    proof {
        assert(out.deep_view() =~= Seq::<Seq<u8>>::empty());
        assert(payload@.skip(0) =~= payload@);
    }
    while offset < plen
        invariant
            chunk >= 1,
            plen == payload@.len(),
            0 <= offset <= plen,
            offset < plen || offset == plen,
            spec_chunks(payload@, chunk as nat) == out.deep_view() + spec_chunks(
                payload@.skip(offset as int),
                chunk as nat,
            ),
        decreases plen - offset,
    {
        let end: usize = if plen - offset < chunk {
            plen
        } else {
            offset + chunk
        };
        let piece = vstd::slice::slice_to_vec(
            vstd::slice::slice_subrange(payload, offset, end),
        );
        let ghost rest = payload@.skip(offset as int);
        let ghost out_pre = out.deep_view();
        out.push(piece);
        proof {
            assert(out.deep_view() =~~= out_pre.push(payload@.subrange(
                offset as int,
                end as int,
            )));
            if plen - offset <= chunk {
                assert(rest.len() <= chunk as nat && rest.len() > 0);
                assert(payload@.subrange(offset as int, end as int) =~= rest);
                assert(spec_chunks(rest, chunk as nat) =~= seq![rest]);
                assert(payload@.skip(end as int) =~= Seq::<u8>::empty());
                assert(spec_chunks(payload@.skip(end as int), chunk as nat) =~= Seq::<
                    Seq<u8>,
                >::empty());
                assert(out_pre + spec_chunks(rest, chunk as nat) =~= out.deep_view()
                    + spec_chunks(payload@.skip(end as int), chunk as nat));
            } else {
                assert(payload@.subrange(offset as int, end as int) =~= rest.take(chunk as int));
                assert(payload@.skip(end as int) =~= rest.skip(chunk as int));
                assert(spec_chunks(rest, chunk as nat) == seq![rest.take(chunk as int)]
                    + spec_chunks(rest.skip(chunk as int), chunk as nat));
                assert(out_pre + spec_chunks(rest, chunk as nat) =~= out.deep_view()
                    + spec_chunks(payload@.skip(end as int), chunk as nat));
            }
        }
        offset = end;
    }
    proof {
        assert(payload@.skip(offset as int) =~= Seq::<u8>::empty());
        assert(spec_chunks(payload@.skip(offset as int), chunk as nat) =~= Seq::<
            Seq<u8>,
        >::empty());
        assert(spec_chunks(payload@, chunk as nat) =~= out.deep_view());
    }
    out
}

/// What to do after a send was refused because the receiver is not
/// listening yet.
#[derive(Clone, Copy, Debug, PartialEq, Eq, Structural)]
pub enum RetryDecision {
    /// Sleep for the retry interval and try the same bytes again.
    RetryAfterSleep,
    /// The attempt budget is spent; surface the error.
    GiveUp,
}

/// The attempt counter of one reliable send.  All chunks of one payload
/// share it.
pub struct RetryState {
    /// Refused attempts so far.
    pub attempts: usize,
}

impl RetryState {
    /// A fresh counter: no attempt has been refused yet.
    pub fn new() -> (r: Self)
        ensures
            r.attempts == 0,
    {
        RetryState { attempts: 0 }
    }

    /// Decide after a refused send: retry — counting the attempt — until
    /// the budget is spent, then give up.
    pub fn on_connection_refused(&mut self, max_attempts: usize) -> (d: RetryDecision)
        ensures
            old(self).attempts >= max_attempts ==> d == RetryDecision::GiveUp && *final(self)
                == *old(self),
            old(self).attempts < max_attempts ==> d == RetryDecision::RetryAfterSleep
                && final(self).attempts == old(self).attempts + 1,
    {
        if self.attempts >= max_attempts {
            RetryDecision::GiveUp
        } else {
            self.attempts = self.attempts + 1;
            RetryDecision::RetryAfterSleep
        }
    }
}

/// Whether a payload goes out in one datagram or in chunks.
#[derive(Clone, Copy, Debug, PartialEq, Eq, Structural)]
pub enum SendPlan {
    /// The payload fits in one datagram.
    Direct,
    /// The payload is cut by [`chunk_payload`].
    Chunked,
}

/// Pick the plan for a payload of `len` bytes under chunk size `chunk`.
pub fn send_plan(len: usize, chunk: usize) -> (p: SendPlan)
    ensures
        p == SendPlan::Direct <==> len <= chunk,
{
    if len <= chunk {
        SendPlan::Direct
    } else {
        SendPlan::Chunked
    }
}

} // verus!
