//! The readiness-gated outbound queue and the replay cache.
//!
//! Messages for the runtime are buffered until it signals readiness, then
//! flushed in arrival order; afterwards they are sent as they come.  Three
//! single-value slots remember the latest handshake request and document
//! state, to be replayed when a reinitialization of the runtime is
//! detected through a second readiness signal.

use vstd::prelude::*;

use crate::textutil::{ascii_bytes, bytes_eq, str_to_bytes};

verus! {

use vstd::string::StringSliceAdditionalSpecFns;

/// The messages of an optional slot: one message, or none.
pub open spec fn opt_seq(o: Option<Seq<u8>>) -> Seq<Seq<u8>> {
    match o {
        Some(m) => seq![m],
        None => Seq::empty(),
    }
}

/// The ghost value of an optional buffered message.
pub open spec fn opt_view(o: Option<Vec<u8>>) -> Option<Seq<u8>> {
    match o {
        Some(m) => Some(m@),
        None => None,
    }
}

/// The three replay slots.  Each write overwrites; nothing accumulates.
pub struct CachedSlots {
    /// The raw handshake request, kept from its interception.
    pub initialize: Option<Vec<u8>>,
    /// The most recent document-open notification.
    pub last_did_open: Option<Vec<u8>>,
    /// The most recent document-change notification.
    pub last_did_change: Option<Vec<u8>>,
}

/// What a reinitialization replays: the handshake request, then the last
/// document-open, then the last document-change, each skipped when its
/// slot is empty.
pub open spec fn spec_replay(c: &CachedSlots) -> Seq<Seq<u8>> {
    opt_seq(opt_view(c.initialize)) + opt_seq(opt_view(c.last_did_open)) + opt_seq(
        opt_view(c.last_did_change),
    )
}

impl CachedSlots {
    /// All three slots start empty.
    pub fn new() -> (r: Self)
        ensures
            r.initialize is None,
            r.last_did_open is None,
            r.last_did_change is None,
    {
        CachedSlots { initialize: None, last_did_open: None, last_did_change: None }
    }

    /// The messages to replay after a reinitialization, in replay order.
    pub fn replay_messages(&self) -> (out: Vec<Vec<u8>>)
        ensures
            out.deep_view() == spec_replay(self),
    {
        let mut out: Vec<Vec<u8>> = Vec::new();
        if let Some(m) = &self.initialize {
            out.push(m.clone());
        }
        if let Some(m) = &self.last_did_open {
            out.push(m.clone());
        }
        if let Some(m) = &self.last_did_change {
            out.push(m.clone());
        }
        proof {
            assert(out.deep_view() =~~= spec_replay(self));
        }
        out
    }
}

/// How a client message is routed into the cache.
#[derive(Clone, Copy, Debug, PartialEq, Eq, Structural)]
pub enum MethodKind {
    /// The handshake request: intercepted and cached.
    Initialize,
    /// A document-open notification: cached for replay.
    DidOpen,
    /// A document-change notification: cached for replay.
    DidChange,
    /// Anything else: forwarded only.
    Other,
}

/// The cache routing for a method name, by its bytes.
pub open spec fn spec_classify(m: Seq<u8>) -> MethodKind {
    if m == ascii_bytes("initialize"@) {
        MethodKind::Initialize
    } else if m == ascii_bytes("textDocument/didOpen"@) {
        MethodKind::DidOpen
    } else if m == ascii_bytes("textDocument/didChange"@) {
        MethodKind::DidChange
    } else {
        MethodKind::Other
    }
}

/// Classify a method name for cache routing.
pub fn classify_method(m: &str) -> (k: MethodKind)
    ensures
        k == spec_classify(m.spec_bytes()),
{
    proof {
        reveal_strlit("initialize");
        assert("initialize".is_ascii());
        reveal_strlit("textDocument/didOpen");
        assert("textDocument/didOpen".is_ascii());
        reveal_strlit("textDocument/didChange");
        assert("textDocument/didChange".is_ascii());
    }
    let mb = m.as_bytes();
    let t_init = str_to_bytes("initialize");
    let t_open = str_to_bytes("textDocument/didOpen");
    let t_change = str_to_bytes("textDocument/didChange");
    if bytes_eq(mb, t_init.as_slice()) {
        MethodKind::Initialize
    } else if bytes_eq(mb, t_open.as_slice()) {
        MethodKind::DidOpen
    } else if bytes_eq(mb, t_change.as_slice()) {
        MethodKind::DidChange
    } else {
        MethodKind::Other
    }
}

/// Store a client message in the replay slot its method calls for.  The
/// handshake slot is written by the interceptor instead, and other methods
/// touch nothing.
pub fn cache_client_message(cache: &mut CachedSlots, kind: MethodKind, message: &Vec<u8>)
    ensures
        final(cache).initialize == old(cache).initialize,
        kind == MethodKind::DidOpen ==> opt_view(final(cache).last_did_open) == Some(message@)
            && final(cache).last_did_change == old(cache).last_did_change,
        kind == MethodKind::DidChange ==> opt_view(final(cache).last_did_change) == Some(message@)
            && final(cache).last_did_open == old(cache).last_did_open,
        kind != MethodKind::DidOpen && kind != MethodKind::DidChange ==> *final(cache) == *old(
            cache,
        ),
{
    match kind {
        MethodKind::DidOpen => {
            cache.last_did_open = Some(message.clone());
        },
        MethodKind::DidChange => {
            cache.last_did_change = Some(message.clone());
        },
        _ => {},
    }
}

/// The consumer side of the outbound channel: the readiness gate, the
/// last readiness count acted upon, and the messages buffered while the
/// runtime was not ready.
pub struct OutboundQueue {
    /// Whether the runtime has signalled readiness.
    pub ready: bool,
    /// The readiness count after the last reinitialization check.
    pub last_seen_ready_count: u64,
    /// Messages waiting for readiness, oldest first.
    pub pending: Vec<Vec<u8>>,
}

impl OutboundQueue {
    /// A queue that has seen no readiness signal and buffers everything.
    pub fn new() -> (r: Self)
        ensures
            !r.ready,
            r.last_seen_ready_count == 0,
            r.pending@ == Seq::<Vec<u8>>::empty(),
    {
        OutboundQueue { ready: false, last_seen_ready_count: 0, pending: Vec::new() }
    }

    /// Act on the current readiness count.  A count above the last one
    /// seen, when that was already positive, is a reinitialization: the
    /// cache is replayed, handshake first, then document-open, then
    /// document-change.  The first signal only records the count.
    pub fn observe_ready_count(&mut self, cache: &CachedSlots, current: u64) -> (send: Vec<
        Vec<u8>,
    >)
        ensures
            final(self).ready == old(self).ready,
            final(self).pending == old(self).pending,
            current > old(self).last_seen_ready_count ==> final(self).last_seen_ready_count
                == current,
            current <= old(self).last_seen_ready_count ==> *final(self) == *old(self),
            send.deep_view() == if current > old(self).last_seen_ready_count && old(
                self,
            ).last_seen_ready_count > 0 {
                spec_replay(cache)
            } else {
                Seq::<Seq<u8>>::empty()
            },
    {
        if current > self.last_seen_ready_count {
            let replay = self.last_seen_ready_count > 0;
            self.last_seen_ready_count = current;
            if replay {
                return cache.replay_messages();
            }
        }
        let out: Vec<Vec<u8>> = Vec::new();
        proof {
            assert(out.deep_view() =~= Seq::<Seq<u8>>::empty());
        }
        out
    }

    /// Act on the readiness flag.  On the first transition to ready, the
    /// cached document state joins the end of the buffer and everything
    /// buffered is flushed in arrival order; afterwards the queue is
    /// pass-through.
    pub fn observe_ready(&mut self, cache: &CachedSlots, ready_now: bool) -> (send: Vec<Vec<u8>>)
        ensures
            final(self).last_seen_ready_count == old(self).last_seen_ready_count,
            ready_now && !old(self).ready ==> final(self).ready && final(self).pending@.len() == 0
                && send.deep_view() == old(self).pending.deep_view() + opt_seq(
                opt_view(cache.last_did_open),
            ) + opt_seq(opt_view(cache.last_did_change)),
            !(ready_now && !old(self).ready) ==> *final(self) == *old(self) && send.deep_view()
                == Seq::<Seq<u8>>::empty(),
    {
        if ready_now && !self.ready {
            self.ready = true;
            let mut send: Vec<Vec<u8>> = Vec::new();
            std::mem::swap(&mut send, &mut self.pending);
            if let Some(m) = &cache.last_did_open {
                send.push(m.clone());
            }
            if let Some(m) = &cache.last_did_change {
                send.push(m.clone());
            }
            proof {
                assert(send.deep_view() =~~= old(self).pending.deep_view() + opt_seq(
                    opt_view(cache.last_did_open),
                ) + opt_seq(opt_view(cache.last_did_change)));
            }
            send
        } else {
            let out: Vec<Vec<u8>> = Vec::new();
            proof {
                assert(out.deep_view() =~= Seq::<Seq<u8>>::empty());
            }
            out
        }
    }

    /// Take in one message from the producer: sent at once when the
    /// runtime is ready, buffered otherwise.  A message is never both,
    /// and never neither.
    pub fn submit(&mut self, message: Vec<u8>) -> (send: Vec<Vec<u8>>)
        ensures
            final(self).ready == old(self).ready,
            final(self).last_seen_ready_count == old(self).last_seen_ready_count,
            old(self).ready ==> final(self).pending == old(self).pending && send.deep_view()
                == seq![message@],
            !old(self).ready ==> final(self).pending.deep_view() == old(
                self,
            ).pending.deep_view().push(message@) && send.deep_view() == Seq::<Seq<u8>>::empty(),
    {
        let mut send: Vec<Vec<u8>> = Vec::new();
        if self.ready {
            send.push(message);
            proof {
                assert(send.deep_view() =~~= seq![message@]);
            }
        } else {
            let ghost pre = self.pending.deep_view();
            self.pending.push(message);
            proof {
                assert(self.pending.deep_view() =~~= pre.push(message@));
                assert(send.deep_view() =~= Seq::<Seq<u8>>::empty());
            }
        }
        send
    }

    /// Hand over the whole buffer for sending when `ready_now` holds, in
    /// arrival order; otherwise change nothing.  Used for the final flush
    /// when the producer goes away or shutdown is signalled.
    pub fn take_pending_if(&mut self, ready_now: bool) -> (send: Vec<Vec<u8>>)
        ensures
            final(self).ready == old(self).ready,
            final(self).last_seen_ready_count == old(self).last_seen_ready_count,
            ready_now ==> final(self).pending@.len() == 0 && send == old(self).pending,
            !ready_now ==> *final(self) == *old(self) && send.deep_view() == Seq::<
                Seq<u8>,
            >::empty(),
    {
        let mut send: Vec<Vec<u8>> = Vec::new();
        if ready_now {
            std::mem::swap(&mut send, &mut self.pending);
        }
        proof {
            if !ready_now {
                assert(send.deep_view() =~= Seq::<Seq<u8>>::empty());
            }
        }
        send
    }

    /// Give up the buffer: what a shutdown without readiness drops, with
    /// the count for the warning.
    pub fn drop_pending(&mut self) -> (dropped: usize)
        ensures
            final(self).ready == old(self).ready,
            final(self).last_seen_ready_count == old(self).last_seen_ready_count,
            final(self).pending@.len() == 0,
            dropped == old(self).pending@.len(),
    {
        let mut gone: Vec<Vec<u8>> = Vec::new();
        std::mem::swap(&mut gone, &mut self.pending);
        gone.len()
    }
}

/// The buffer after messages arrive one by one while the runtime is not
/// ready: each submission appends, as [`OutboundQueue::submit`] ensures.
pub open spec fn push_all(pending: Seq<Seq<u8>>, ms: Seq<Seq<u8>>) -> Seq<Seq<u8>>
    decreases ms.len(),
{
    if ms.len() == 0 {
        pending
    } else {
        push_all(pending.push(ms.first()), ms.drop_first())
    }
}

/// Buffering order: messages submitted while the runtime is not ready end
/// up behind the existing buffer in exactly their submission order, so the
/// flush on the readiness flip — which sends the buffer front to back —
/// delivers them in order, all before anything submitted after the flip,
/// which [`OutboundQueue::submit`] then sends by itself.
pub proof fn lemma_buffering_order(pending: Seq<Seq<u8>>, ms: Seq<Seq<u8>>)
    ensures
        push_all(pending, ms) == pending + ms,
    decreases ms.len(),
{
    if ms.len() == 0 {
        assert(push_all(pending, ms) =~= pending + ms);
    } else {
        lemma_buffering_order(pending.push(ms.first()), ms.drop_first());
        assert(pending.push(ms.first()) + ms.drop_first() =~= pending + ms);
    }
}

} // verus!
