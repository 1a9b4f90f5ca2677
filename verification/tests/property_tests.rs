//! Scenario tests of the bridge's behaviour: framing round trips,
//! reassembly under fragmentation, deduplication, buffering and replay
//! order, chunking, the readiness wait, and the shutdown escalation.

use sc_launcher::bridge::{process_client_message, process_runtime_body};
use sc_launcher::frame::{FrameError, ReadOutcome};
use sc_launcher::lifecycle::{
    final_status, running_step, try_begin_run, FinalOutcome, ReadyWait, ReadyWaitStep,
    RunDecision, ShutdownAction, ShutdownEvent, ShutdownMachine,
};
use sc_launcher::transport::RetryDecision;
use sc_launcher::{
    chunk_payload, frame_message, read_lsp_message, CachedSlots, DedupSet, OutboundQueue,
    Reassembler, RequestId, RetryState,
};

fn framed(body: &[u8]) -> Vec<u8> {
    frame_message(body)
}

#[test]
fn frame_round_trip_recovers_body() {
    let body = b"{\"method\":\"x\",\"blob\":\"\\r\\n\\r\\n\"}";
    let framed = framed(body);
    match read_lsp_message(&framed, false) {
        ReadOutcome::Message(data, consumed) => {
            assert_eq!(consumed, framed.len());
            assert_eq!(data, framed);
            assert_eq!(&data[data.len() - body.len()..], body);
        }
        _ => panic!("expected one message"),
    }
}

#[test]
fn frame_reader_single_message_then_end() {
    // One framed message followed by the end of the stream.
    let input = b"Content-Length: 14\r\n\r\n{\"method\":\"x\"}";
    match read_lsp_message(input, true) {
        ReadOutcome::Message(data, consumed) => {
            assert_eq!(consumed, input.len());
            assert_eq!(&data[..], &input[..]);
        }
        _ => panic!("expected one message"),
    }
    match read_lsp_message(&input[input.len()..], true) {
        ReadOutcome::EndOfStream => {}
        _ => panic!("expected end of stream"),
    }
}

#[test]
fn frame_reader_needs_more_data_while_open() {
    let input = b"Content-Length: 14\r\n\r\n{\"met";
    assert!(matches!(read_lsp_message(input, false), ReadOutcome::NeedMore));
}

#[test]
fn frame_reader_fails_closed() {
    // EOF in the middle of the headers.
    let partial = b"Content-Length: 14\r\n";
    assert!(matches!(
        read_lsp_message(partial, true),
        ReadOutcome::Failed(FrameError::UnexpectedEof)
    ));
    // EOF in the middle of the body.
    let short = b"Content-Length: 5\r\n\r\nab";
    assert!(matches!(
        read_lsp_message(short, true),
        ReadOutcome::Failed(FrameError::UnexpectedEof)
    ));
    // Header block without a length header.
    let unlabeled = b"X-Other: 1\r\n\r\nab";
    assert!(matches!(
        read_lsp_message(unlabeled, true),
        ReadOutcome::Failed(FrameError::MissingLength)
    ));
    // Malformed length value.
    let malformed = b"Content-Length: abc\r\n\r\n";
    assert!(matches!(
        read_lsp_message(malformed, true),
        ReadOutcome::Failed(FrameError::InvalidLength)
    ));
}

#[test]
fn reassembly_under_every_fragmentation() {
    let body = b"{\"jsonrpc\":\"2.0\",\"id\":7,\"result\":null}";
    let framed = framed(body);
    for cut in 0..=framed.len() {
        let mut r = Reassembler::new();
        let mut out = r.push(&framed[..cut]);
        out.extend(r.push(&framed[cut..]));
        assert_eq!(out.len(), 1, "cut at {}", cut);
        assert_eq!(out[0], body.to_vec(), "cut at {}", cut);
    }
}

#[test]
fn reassembly_two_messages_in_one_read() {
    let b1 = b"{\"id\":1}";
    let b2 = b"{\"id\":2,\"more\":true}";
    let mut joined = framed(b1);
    joined.extend(framed(b2));
    let mut r = Reassembler::new();
    let out = r.push(&joined);
    assert_eq!(out.len(), 2);
    assert_eq!(out[0], b1.to_vec());
    assert_eq!(out[1], b2.to_vec());
}

#[test]
fn reassembly_accepts_chunked_frames() {
    // A frame cut by the sender-side chunker reassembles to one message.
    let body = vec![b'x'; 15000];
    let framed = framed(&body);
    let chunks = chunk_payload(&framed, 6000);
    let mut r = Reassembler::new();
    let mut out = Vec::new();
    for c in &chunks {
        out.extend(r.push(c));
    }
    assert_eq!(out.len(), 1);
    assert_eq!(out[0], body);
}

#[test]
fn reassembly_scans_past_leading_noise() {
    // The reassembler scans for the header token rather than reading
    // lines, so stray bytes before the header block are discarded.
    let mut input = b"post window chatter\r\n".to_vec();
    input.extend(framed(b"{\"ok\":1}"));
    let mut r = Reassembler::new();
    let out = r.push(&input);
    assert_eq!(out.len(), 1);
    assert_eq!(out[0], b"{\"ok\":1}".to_vec());
}

#[test]
fn reassembly_accepts_tab_and_spaces_before_the_length() {
    let input = b"Content-Length: \t 3\r\n\r\nabc";
    let mut r = Reassembler::new();
    let out = r.push(input);
    assert_eq!(out.len(), 1);
    assert_eq!(out[0], b"abc".to_vec());
}

#[test]
fn dedup_suppresses_recorded_id_whenever_it_arrives() {
    let mut answered = DedupSet::new();
    answered.insert(RequestId::Number(1));
    // Later recordings do not unrecord anything.
    answered.insert(RequestId::Number(2));
    answered.insert(RequestId::String("x".into()));
    assert!(answered.contains(&RequestId::Number(1)));
    let body = b"{\"jsonrpc\":\"2.0\",\"id\":1,\"result\":{}}".to_vec();
    assert!(process_runtime_body(body, &answered).is_none());
    let other = b"{\"jsonrpc\":\"2.0\",\"id\":3,\"result\":{}}".to_vec();
    assert!(process_runtime_body(other, &answered).is_some());
}

#[test]
fn handshake_intercepted_and_duplicate_suppressed() {
    // A handshake request with id 1 arriving while the runtime is not
    // ready is answered at once; the runtime's own answer under the same
    // id is dropped later.
    let mut answered = DedupSet::new();
    let mut cache = CachedSlots::new();
    let request = framed(b"{\"jsonrpc\":\"2.0\",\"id\":1,\"method\":\"initialize\",\"params\":{}}");
    let response = process_client_message(&request, &mut answered, &mut cache)
        .expect("handshake must be answered immediately");
    match read_lsp_message(&response, true) {
        ReadOutcome::Message(data, consumed) => {
            assert_eq!(consumed, response.len());
            let pos = data.windows(4).position(|w| w == b"\r\n\r\n").unwrap();
            let value: serde_json::Value = serde_json::from_slice(&data[pos + 4..]).unwrap();
            assert_eq!(value.get("id").unwrap(), 1);
            assert!(value.get("result").unwrap().get("capabilities").is_some());
        }
        _ => panic!("response must be one framed message"),
    }
    // The cache kept the raw request for replay.
    assert_eq!(cache.initialize.as_ref().unwrap(), &request);
    // The runtime's own response with id 1 is suppressed.
    let dup = b"{\"jsonrpc\":\"2.0\",\"id\":1,\"result\":{\"capabilities\":{}}}".to_vec();
    assert!(process_runtime_body(dup, &answered).is_none());
}

#[test]
fn document_state_cached_from_client_messages() {
    // Document-open and document-change messages fill exactly their own
    // replay slot and are not answered; the handshake slot stays empty.
    let mut answered = DedupSet::new();
    let mut cache = CachedSlots::new();
    let open = framed(b"{\"jsonrpc\":\"2.0\",\"method\":\"textDocument/didOpen\",\"params\":{}}");
    assert!(process_client_message(&open, &mut answered, &mut cache).is_none());
    assert_eq!(cache.last_did_open.as_ref().unwrap(), &open);
    assert!(cache.last_did_change.is_none());
    let change = framed(b"{\"jsonrpc\":\"2.0\",\"method\":\"textDocument/didChange\",\"params\":{}}");
    assert!(process_client_message(&change, &mut answered, &mut cache).is_none());
    assert_eq!(cache.last_did_change.as_ref().unwrap(), &change);
    assert_eq!(cache.last_did_open.as_ref().unwrap(), &open);
    assert!(cache.initialize.is_none());
    // A plain request is neither answered nor cached.
    let other = framed(b"{\"jsonrpc\":\"2.0\",\"id\":9,\"method\":\"textDocument/hover\",\"params\":{}}");
    assert!(process_client_message(&other, &mut answered, &mut cache).is_none());
    assert_eq!(cache.last_did_open.as_ref().unwrap(), &open);
    assert_eq!(cache.last_did_change.as_ref().unwrap(), &change);
}

#[test]
fn runtime_body_gets_version_patched() {
    let answered = DedupSet::new();
    let body = b"{\"id\":9,\"result\":{}}".to_vec();
    let out = process_runtime_body(body, &answered).expect("not suppressed");
    match read_lsp_message(&out, true) {
        ReadOutcome::Message(data, _) => {
            let pos = data.windows(4).position(|w| w == b"\r\n\r\n").unwrap();
            let value: serde_json::Value = serde_json::from_slice(&data[pos + 4..]).unwrap();
            assert_eq!(value.get("jsonrpc").unwrap(), "2.0");
        }
        _ => panic!("expected one framed message"),
    }
}

#[test]
fn buffered_messages_flush_in_order_before_later_traffic() {
    // Three messages enqueued while not ready, then readiness flips: all
    // three go out, in order, before a fourth enqueued afterwards.
    let mut q = OutboundQueue::new();
    let cache = CachedSlots::new();
    let mut sent: Vec<Vec<u8>> = Vec::new();
    for m in [b"m1".to_vec(), b"m2".to_vec(), b"m3".to_vec()] {
        sent.extend(q.submit(m));
    }
    assert!(sent.is_empty(), "nothing goes out before readiness");
    sent.extend(q.observe_ready(&cache, true));
    sent.extend(q.submit(b"m4".to_vec()));
    let expect: Vec<Vec<u8>> = vec![b"m1".to_vec(), b"m2".to_vec(), b"m3".to_vec(), b"m4".to_vec()];
    assert_eq!(sent, expect);
}

#[test]
fn ready_flip_appends_cached_document_state() {
    let mut q = OutboundQueue::new();
    let mut cache = CachedSlots::new();
    cache.last_did_open = Some(b"open".to_vec());
    cache.last_did_change = Some(b"change".to_vec());
    let mut sent = q.submit(b"m1".to_vec());
    assert!(sent.is_empty());
    sent.extend(q.observe_ready(&cache, true));
    let expect: Vec<Vec<u8>> = vec![b"m1".to_vec(), b"open".to_vec(), b"change".to_vec()];
    assert_eq!(sent, expect);
}

#[test]
fn recompile_replays_cache_in_order() {
    // A second readiness signal replays initialize, then the last
    // document-open, then the last document-change; empty slots are
    // skipped, not sent as empty.
    let mut q = OutboundQueue::new();
    let mut cache = CachedSlots::new();
    cache.initialize = Some(b"init".to_vec());
    cache.last_did_change = Some(b"change".to_vec());
    let first = q.observe_ready_count(&cache, 1);
    assert!(first.is_empty(), "the first signal only records the count");
    let replay = q.observe_ready_count(&cache, 2);
    let expect: Vec<Vec<u8>> = vec![b"init".to_vec(), b"change".to_vec()];
    assert_eq!(replay, expect);
    let again = q.observe_ready_count(&cache, 2);
    assert!(again.is_empty(), "an unchanged count replays nothing");
}

#[test]
fn queue_final_flush_and_drop() {
    let mut q = OutboundQueue::new();
    let _ = q.submit(b"a".to_vec());
    let _ = q.submit(b"b".to_vec());
    assert!(q.take_pending_if(false).is_empty());
    let flushed = q.take_pending_if(true);
    assert_eq!(flushed.len(), 2);
    let _ = q.submit(b"c".to_vec());
    assert_eq!(q.drop_pending(), 1);
}

#[test]
fn chunking_20000_bytes_at_6000() {
    // 20,000 bytes with chunk size 6,000: exactly 4 chunks whose
    // concatenation is the original payload.
    let payload: Vec<u8> = (0..20000u32).map(|i| (i % 251) as u8).collect();
    let chunks = chunk_payload(&payload, 6000);
    assert_eq!(chunks.len(), 4);
    assert_eq!(chunks[0].len(), 6000);
    assert_eq!(chunks[1].len(), 6000);
    assert_eq!(chunks[2].len(), 6000);
    assert_eq!(chunks[3].len(), 2000);
    let joined: Vec<u8> = chunks.concat();
    assert_eq!(joined, payload);
}

#[test]
fn retry_budget_is_bounded() {
    let mut retry = RetryState::new();
    let max = 3;
    assert!(matches!(
        retry.on_connection_refused(max),
        RetryDecision::RetryAfterSleep
    ));
    assert!(matches!(
        retry.on_connection_refused(max),
        RetryDecision::RetryAfterSleep
    ));
    assert!(matches!(
        retry.on_connection_refused(max),
        RetryDecision::RetryAfterSleep
    ));
    assert!(matches!(retry.on_connection_refused(max), RetryDecision::GiveUp));
}

#[test]
fn readiness_forced_after_timeout_with_one_warning() {
    // The marker never arrives: after the maximum wait readiness is
    // forced, with exactly one forced transition.
    let max_wait = 500u64;
    let poll = 50u64;
    let mut wait = ReadyWait::new();
    let mut forced = 0u32;
    let mut polls = 0u32;
    loop {
        match wait.step(false, max_wait, poll) {
            ReadyWaitStep::KeepWaiting => {
                polls += 1;
                assert!(polls <= 11, "the wait must be bounded");
            }
            ReadyWaitStep::ForcedReady => {
                forced += 1;
                break;
            }
            ReadyWaitStep::Ready => panic!("no marker was ever seen"),
        }
    }
    assert_eq!(forced, 1);
}

#[test]
fn readiness_marker_opens_gate_at_once() {
    let mut wait = ReadyWait::new();
    assert!(matches!(wait.step(true, 500, 50), ReadyWaitStep::Ready));
}

#[test]
fn shutdown_graceful_exit_sends_no_signals() {
    // The child exits within the graceful stage: no terminate signal is
    // ever sent, and the child is reaped.
    let mut m = ShutdownMachine::new();
    assert!(matches!(m.step(ShutdownEvent::ChildExited), ShutdownAction::Nothing));
    assert_eq!(m.term_signals, 0);
    assert_eq!(m.kill_signals, 0);
    assert!(m.reaped);
}

#[test]
fn shutdown_escalates_once_then_kills() {
    // The graceful stage times out: exactly one terminate signal, and a
    // kill only if the grace period also times out; reaped either way.
    let mut m = ShutdownMachine::new();
    assert!(matches!(
        m.step(ShutdownEvent::StageTimeout),
        ShutdownAction::SendTerminateSignal
    ));
    assert_eq!(m.term_signals, 1);
    assert!(matches!(
        m.step(ShutdownEvent::StageTimeout),
        ShutdownAction::ForceKillAndReap
    ));
    assert_eq!(m.term_signals, 1);
    assert_eq!(m.kill_signals, 1);
    assert!(m.reaped);

    let mut m2 = ShutdownMachine::new();
    let _ = m2.step(ShutdownEvent::StageTimeout);
    assert!(matches!(m2.step(ShutdownEvent::ChildExited), ShutdownAction::Nothing));
    assert_eq!(m2.kill_signals, 0);
    assert!(m2.reaped);
}

#[test]
fn run_guard_refuses_second_claim() {
    let mut running = false;
    let first = try_begin_run(&mut running, 1);
    assert!(first.is_some());
    let second = try_begin_run(&mut running, 2);
    assert!(second.is_none(), "second concurrent run must be refused");
}

#[test]
fn main_loop_decisions() {
    assert!(matches!(
        running_step(Some(true), false),
        RunDecision::Exited { success: true }
    ));
    assert!(matches!(running_step(None, true), RunDecision::BeginShutdown));
    assert!(matches!(running_step(None, false), RunDecision::KeepPolling));
    assert!(matches!(final_status(true, false), FinalOutcome::Success));
    assert!(matches!(
        final_status(false, true),
        FinalOutcome::SuccessAfterStdinClose
    ));
    assert!(matches!(final_status(false, false), FinalOutcome::Failure));
}
