//! The two message pipelines of the bridge.
//!
//! Outbound, a client message may be intercepted: a handshake request is
//! answered at once with the synthesized response, its id recorded so the
//! runtime's own answer can be dropped later, and document state is cached
//! for replay.  Inbound, a runtime body is patched, checked against the
//! recorded ids, and framed for the client.

use vstd::prelude::*;

use crate::frame::{clen_token, frame_message, spec_frame};
use crate::ids::{should_suppress_response, DedupSet, IdView, RequestId};
use crate::jsonext::{
    decoded_id, decoded_method, parse_json_id, parse_json_method_id, patch_jsonrpc_version,
    patched_body,
};
use crate::messages::{create_initialize_response, spec_initialize_response};
use crate::queue::{
    cache_client_message, classify_method, opt_view, spec_classify, CachedSlots, MethodKind,
};
use crate::textutil::{
    ascii_bytes, find_subseq_from, first_match, lemma_first_match_found,
    lemma_first_match_none_inv, match_at, starts_with, str_to_bytes,
};

verus! {

use vstd::string::StringSliceAdditionalSpecFns;
use vstd::utf8::encode_utf8;

/// `n` occurs somewhere in `h`.
pub open spec fn spec_contains(h: Seq<u8>, n: Seq<u8>) -> bool {
    exists|i: int| match_at(h, n, i)
}

/// Whether `h` holds `n` anywhere.
pub fn contains_bytes(h: &[u8], n: &[u8]) -> (r: bool)
    requires
        n@.len() >= 1,
    ensures
        r == spec_contains(h@, n@),
{
    match find_subseq_from(h, n, 0) {
        Some(i) => {
            proof {
                lemma_first_match_found(h@, n@, 0, i as int);
            }
            true
        },
        None => {
            proof {
                lemma_first_match_none_inv(h@, n@, 0);
                assert forall|j: int| !match_at(h@, n@, j) by {
                    if j < 0 {
                    } else {
                        assert(!match_at(h@, n@, j));
                    }
                }
            }
            false
        },
    }
}

/// The marker line the runtime prints once its protocol handlers are
/// registered.
pub open spec fn ready_marker() -> Seq<u8> {
    ascii_bytes("*** LSP READY ***"@)
}

/// Whether an output line of the runtime signals readiness: it carries the
/// fixed marker string.
pub fn line_signals_ready(line: &str) -> (r: bool)
    ensures
        r == spec_contains(line.spec_bytes(), ready_marker()),
{
    proof {
        reveal_strlit("*** LSP READY ***");
        assert("*** LSP READY ***".is_ascii());
    }
    let marker = str_to_bytes("*** LSP READY ***");
    proof {
        assert(marker@ =~= ready_marker());
    }
    contains_bytes(line.as_bytes(), marker.as_slice())
}

/// Whether an output line is protocol noise kept out of the runtime's
/// post log: quark-tagged lines, raw JSON, and frame headers.
pub fn is_lsp_noise(line: &str) -> (r: bool)
    ensures
        r == (spec_contains(line.spec_bytes(), ascii_bytes("[LANGUAGESERVER.QUARK]"@)) || match_at(
            line.spec_bytes(),
            ascii_bytes("{\""@),
            0,
        ) || match_at(line.spec_bytes(), clen_token(), 0)),
{
    proof {
        reveal_strlit("[LANGUAGESERVER.QUARK]");
        assert("[LANGUAGESERVER.QUARK]".is_ascii());
        reveal_strlit("{\"");
        assert("{\"".is_ascii());
        reveal_strlit("Content-Length:");
        assert("Content-Length:".is_ascii());
    }
    let quark = str_to_bytes("[LANGUAGESERVER.QUARK]");
    let json = str_to_bytes("{\"");
    let header = str_to_bytes("Content-Length:");
    proof {
        assert(header@ =~= clen_token());
    }
    let lb = line.as_bytes();
    contains_bytes(lb, quark.as_slice()) || starts_with(lb, json.as_slice()) || starts_with(
        lb,
        header.as_slice(),
    )
}

/// Intercept a handshake request: build the framed synthesized response
/// under the request's own id, record the id so the runtime's duplicate
/// answer is suppressed later, and keep the raw request for replay.
pub fn handle_initialize_request(
    id: &RequestId,
    raw_message: &Vec<u8>,
    answered: &mut DedupSet,
    cache: &mut CachedSlots,
) -> (response: Vec<u8>)
    ensures
        response@ == spec_frame(spec_initialize_response(id@)),
        final(answered).spec_ids() == old(answered).spec_ids().push(id@),
        opt_view(final(cache).initialize) == Some(raw_message@),
        final(cache).last_did_open == old(cache).last_did_open,
        final(cache).last_did_change == old(cache).last_did_change,
{
    let body = create_initialize_response(id);
    let response = frame_message(body.as_slice());
    answered.insert(id.clone());
    cache.initialize = Some(raw_message.clone());
    response
}

/// The body of a framed message: everything after the first header-block
/// terminator.  A message without one has no body to decode.
pub open spec fn spec_message_body(m: Seq<u8>) -> Option<Seq<u8>> {
    match first_match(m, ascii_bytes("\r\n\r\n"@), 0) {
        Some(p) => Some(m.skip(p + 4)),
        None => None,
    }
}

/// How the cache routes a client message: by the decoded method of its
/// body, where the message has a body the decoder accepts.
pub open spec fn spec_client_kind(m: Seq<u8>) -> MethodKind {
    match spec_message_body(m) {
        None => MethodKind::Other,
        Some(b) => match decoded_method(b) {
            None => MethodKind::Other,
            Some(name) => spec_classify(encode_utf8(name)),
        },
    }
}

/// The decoded id of a client message whose body carries a decodable
/// method.
pub open spec fn spec_client_id(m: Seq<u8>) -> Option<IdView> {
    match spec_message_body(m) {
        None => None,
        Some(b) => match decoded_method(b) {
            None => None,
            Some(_) => decoded_id(b),
        },
    }
}

/// Process one client message before it is forwarded: route document state
/// into the replay cache and answer a handshake request immediately.
///
/// A response comes back exactly when the message decodes to a handshake
/// request with an id; it is the framed synthesized response under that
/// very id, which is then recorded, and the raw request fills the
/// handshake replay slot.  A document-open or document-change message
/// overwrites exactly its own replay slot; everything else leaves every
/// slot and the dedup set untouched.
pub fn process_client_message(
    message: &Vec<u8>,
    answered: &mut DedupSet,
    cache: &mut CachedSlots,
) -> (response: Option<Vec<u8>>)
    ensures
        response is Some <==> spec_client_kind(message@) == MethodKind::Initialize
            && spec_client_id(message@) is Some,
        response matches Some(r) ==> r@ == spec_frame(
            spec_initialize_response(spec_client_id(message@)->0),
        ) && final(answered).spec_ids() == old(answered).spec_ids().push(
            spec_client_id(message@)->0,
        ) && opt_view(final(cache).initialize) == Some(message@),
        response is None ==> final(answered).spec_ids() == old(answered).spec_ids()
            && final(cache).initialize == old(cache).initialize,
        spec_client_kind(message@) == MethodKind::DidOpen ==> opt_view(
            final(cache).last_did_open,
        ) == Some(message@),
        spec_client_kind(message@) != MethodKind::DidOpen ==> final(cache).last_did_open == old(
            cache,
        ).last_did_open,
        spec_client_kind(message@) == MethodKind::DidChange ==> opt_view(
            final(cache).last_did_change,
        ) == Some(message@),
        spec_client_kind(message@) != MethodKind::DidChange ==> final(cache).last_did_change
            == old(cache).last_did_change,
{
    proof {
        reveal_strlit("\r\n\r\n");
        assert("\r\n\r\n".is_ascii());
    }
    let sep = str_to_bytes("\r\n\r\n");
    let mlen: usize = message.len();
    let body_start = match find_subseq_from(message.as_slice(), sep.as_slice(), 0) {
        None => {
            proof {
                assert(spec_message_body(message@) is None);
                assert(spec_client_kind(message@) == MethodKind::Other);
            }
            return None;
        },
        Some(p) => {
            proof {
                assert(sep@.len() == 4);
                assert(p + 4 <= mlen);
            }
            p + 4
        },
    };
    let body = vstd::slice::slice_subrange(message.as_slice(), body_start, message.len());
    proof {
        assert(body@ =~= message@.skip(body_start as int));
        assert(spec_message_body(message@) == Some(body@));
    }
    match parse_json_method_id(body) {
        None => {
            proof {
                assert(spec_client_kind(message@) == MethodKind::Other);
                assert(spec_client_id(message@) is None);
            }
            None
        },
        Some((method, id)) => {
            let method_str = method.as_str();
            let kind = classify_method(method_str);
            proof {
                assert(method_str.spec_bytes() == encode_utf8(method@));
                assert(spec_client_kind(message@) == kind);
                assert(spec_client_id(message@) == match id {
                    Some(rid) => Some(rid@),
                    None => None::<IdView>,
                });
            }
            match kind {
                MethodKind::DidOpen | MethodKind::DidChange => {
                    cache_client_message(cache, kind, message);
                    None
                },
                MethodKind::Initialize => {
                    match id {
                        Some(rid) => {
                            let r = handle_initialize_request(&rid, message, answered, cache);
                            Some(r)
                        },
                        None => None,
                    }
                },
                MethodKind::Other => None,
            }
        },
    }
}

/// Frame a runtime body for the client unless its id is recorded as
/// already answered: a recorded id is suppressed, everything else goes out
/// exactly once, framed byte for byte.
pub fn decide_forward(body: Vec<u8>, id: &Option<RequestId>, answered: &DedupSet) -> (out: Option<
    Vec<u8>,
>)
    ensures
        match id {
            Some(rid) => if answered.spec_contains(rid@) {
                out is None
            } else {
                out matches Some(o) && o@ == spec_frame(body@)
            },
            None => out matches Some(o) && o@ == spec_frame(body@),
        },
{
    if should_suppress_response(id, answered) {
        None
    } else {
        Some(frame_message(body.as_slice()))
    }
}

/// The bytes actually forwarded for a runtime body: the re-encoding with
/// the protocol version added where it was missing, the body itself
/// otherwise.
pub open spec fn spec_effective_body(body: Seq<u8>) -> Seq<u8> {
    match patched_body(body) {
        Some(p) => p,
        None => body,
    }
}

/// Process one reassembled runtime body on its way to the client: patch a
/// missing protocol-version member, then either suppress it — exactly when
/// the possibly patched body decodes to an id the bridge has already
/// answered — or hand back exactly that body under a fresh frame.
pub fn process_runtime_body(body: Vec<u8>, answered: &DedupSet) -> (out: Option<Vec<u8>>)
    ensures
        ({
            let eff = spec_effective_body(body@);
            match decoded_id(eff) {
                Some(idv) => if answered.spec_contains(idv) {
                    out is None
                } else {
                    out matches Some(o) && o@ == spec_frame(eff)
                },
                None => out matches Some(o) && o@ == spec_frame(eff),
            }
        }),
{
    let ghost orig = body@;
    let body = match patch_jsonrpc_version(body.as_slice()) {
        Some(patched) => patched,
        None => body,
    };
    proof {
        assert(body@ == spec_effective_body(orig));
    }
    let id = parse_json_id(body.as_slice());
    decide_forward(body, &id, answered)
}

} // verus!
