//! The runtime process's lifecycle: run tokens, the single-instance guard,
//! child-state ownership, the bounded wait for the readiness marker, the
//! main-loop decisions, and the shutdown escalation machine.
//!
//! The loops that sleep, poll the process and touch sockets live with the
//! caller; every decision they take is a function here, verified for every
//! input.

use vstd::prelude::*;

use crate::textutil::dec_chars;
use crate::textutil::u64_to_string;

verus! {

use vstd::string::StringExecFns;

/// The UDP port pair of one bridge run: the port the runtime receives on
/// and the port the bridge receives on.
pub struct Ports {
    pub client_port: u16,
    pub server_port: u16,
}

/// The tracked runtime child process: its pid, the run it belongs to, and
/// whether this bridge still owns (may signal) it.
pub struct ChildState {
    pub pid: u32,
    pub run_token: u64,
    pub owned: bool,
}

/// Witness that this process holds the single-run flag.
pub struct RunningGuard {
    pub run_token: u64,
}

/// Launcher operation mode.
#[derive(Copy, Clone, Debug, Eq, PartialEq, Structural)]
pub enum Mode {
    /// Probe the runtime's availability and report.
    Probe,
    /// Run the protocol bridge.
    Lsp,
}

/// The launcher's command-line arguments, as plain values.
pub struct Args {
    /// Path to the runtime executable, overriding detection.
    pub sclang_path: Option<String>,
    /// Optional runtime configuration file path.
    pub conf_yaml_path: Option<String>,
    /// Operation mode.
    pub mode: Mode,
    /// Log level handed to the runtime's protocol layer.
    pub log_level: Option<String>,
    /// Port of the companion HTTP endpoint.
    pub http_port: u16,
}

/// Hand out the next launcher-originated request id and advance the
/// counter.
pub fn next_lsp_request_id(counter: &mut u64) -> (id: u64)
    requires
        *old(counter) < u64::MAX,
    ensures
        id == *old(counter),
        *final(counter) == *old(counter) + 1,
{
    let id = *counter;
    *counter = *counter + 1;
    id
}

/// Hand out the next run token and advance the counter.
pub fn next_run_token(counter: &mut u64) -> (token: u64)
    requires
        *old(counter) < u64::MAX,
    ensures
        token == *old(counter),
        *final(counter) == *old(counter) + 1,
{
    let token = *counter;
    *counter = *counter + 1;
    token
}

/// Claim the single-run flag.  A second concurrent claim is refused, which
/// is what keeps two bridges from spawning two runtimes.
pub fn try_begin_run(is_running: &mut bool, run_token: u64) -> (guard: Option<RunningGuard>)
    ensures
        *final(is_running),
        *old(is_running) ==> guard is None,
        !*old(is_running) ==> guard == Some(RunningGuard { run_token }),
{
    if *is_running {
        None
    } else {
        *is_running = true;
        Some(RunningGuard { run_token })
    }
}

/// Release the single-run flag when its guard goes out of use.
pub fn release_run_guard(is_running: &mut bool, guard: RunningGuard)
    ensures
        !*final(is_running),
{
    let _ = guard;
    *is_running = false;
}

/// Give up ownership of the tracked child: the slot is emptied and the
/// released pid and run token are reported, so no second code path ever
/// signals the same process.
pub fn release_child_state(state: &mut Option<ChildState>) -> (released: Option<(u64, u32)>)
    ensures
        *final(state) is None,
        released == match *old(state) {
            Some(c) => Some((c.run_token, c.pid)),
            None => None::<(u64, u32)>,
        },
{
    match state.take() {
        Some(mut child) => {
            child.owned = false;
            Some((child.run_token, child.pid))
        },
        None => None,
    }
}

/// The environment handed to the spawned runtime: the enable flag, the two
/// ports, and the log level when one was given.
pub open spec fn spec_spawn_env(ports: Ports, log_level: Option<Seq<char>>) -> Seq<
    (Seq<char>, Seq<char>),
> {
    seq![
        ("SCLANG_LSP_ENABLE"@, "1"@),
        ("SCLANG_LSP_CLIENTPORT"@, dec_chars(ports.client_port as nat)),
        ("SCLANG_LSP_SERVERPORT"@, dec_chars(ports.server_port as nat)),
    ] + match log_level {
        Some(l) => seq![("SCLANG_LSP_LOGLEVEL"@, l)],
        None => Seq::empty(),
    }
}

/// Build the runtime's environment variables.
pub fn spawn_env(ports: &Ports, log_level: &Option<String>) -> (env: Vec<(String, String)>)
    ensures
        env.deep_view() == spec_spawn_env(*ports, match log_level {
            Some(l) => Some(l@),
            None => None,
        }),
{
    let mut env: Vec<(String, String)> = Vec::new();
    env.push((String::from_str("SCLANG_LSP_ENABLE"), String::from_str("1")));
    env.push(
        (String::from_str("SCLANG_LSP_CLIENTPORT"), u64_to_string(ports.client_port as u64)),
    );
    env.push(
        (String::from_str("SCLANG_LSP_SERVERPORT"), u64_to_string(ports.server_port as u64)),
    );
    if let Some(level) = log_level {
        env.push((String::from_str("SCLANG_LSP_LOGLEVEL"), level.clone()));
    }
    proof {
        assert(env.deep_view() =~~= spec_spawn_env(*ports, match log_level {
            Some(l) => Some(l@),
            None => None,
        }));
    }
    env
}

/// One step of the bounded wait for the readiness marker.
#[derive(Clone, Copy, Debug, PartialEq, Eq, Structural)]
pub enum ReadyWaitStep {
    /// The marker was seen: the runtime is ready.
    Ready,
    /// The deadline passed without the marker: treat the runtime as
    /// ready anyway and record the warning.
    ForcedReady,
    /// Sleep one poll interval and look again.
    KeepWaiting,
}

/// The bounded wait for the readiness marker.
pub struct ReadyWait {
    /// Milliseconds waited so far.
    pub waited_ms: u64,
    /// Whether the wait has concluded; a concluded wait takes no further
    /// step, so the forced transition can happen at most once.
    pub done: bool,
}

impl ReadyWait {
    /// A wait that has not started sleeping yet.
    pub fn new() -> (r: Self)
        ensures
            r.waited_ms == 0,
            !r.done,
    {
        ReadyWait { waited_ms: 0, done: false }
    }

    /// One poll: conclude on the marker, conclude forcibly once the
    /// deadline has passed, and otherwise account for one more interval
    /// of sleeping.
    pub fn step(&mut self, marker_seen: bool, max_wait_ms: u64, poll_ms: u64) -> (r:
        ReadyWaitStep)
        requires
            !old(self).done,
            old(self).waited_ms <= max_wait_ms,
            max_wait_ms + poll_ms <= u64::MAX,
        ensures
            marker_seen ==> r == ReadyWaitStep::Ready && final(self).done,
            !marker_seen && old(self).waited_ms >= max_wait_ms ==> r == ReadyWaitStep::ForcedReady
                && final(self).done,
            !marker_seen && old(self).waited_ms < max_wait_ms ==> r == ReadyWaitStep::KeepWaiting
                && !final(self).done && final(self).waited_ms == (
            if max_wait_ms - old(self).waited_ms < poll_ms {
                max_wait_ms
            } else {
                (old(self).waited_ms + poll_ms) as u64
            }),
            final(self).waited_ms <= max_wait_ms,
    {
        if marker_seen {
            self.done = true;
            ReadyWaitStep::Ready
        } else if self.waited_ms >= max_wait_ms {
            self.done = true;
            ReadyWaitStep::ForcedReady
        } else {
            if max_wait_ms - self.waited_ms < poll_ms {
                self.waited_ms = max_wait_ms;
            } else {
                self.waited_ms = self.waited_ms + poll_ms;
            }
            ReadyWaitStep::KeepWaiting
        }
    }
}

/// Forced readiness comes within a bounded number of polls: each
/// `KeepWaiting` adds a full poll interval (or reaches the deadline), so
/// after `max_wait / poll + 1` polls without the marker the wait has
/// reached the deadline, and the next poll returns `ForcedReady` — once,
/// since a concluded wait steps no further.
pub proof fn lemma_forced_ready_bounded(max_wait: nat, poll: nat, k: nat)
    requires
        poll >= 1,
        k >= max_wait / poll + 1,
    ensures
        k * poll > max_wait,
{
    assert((max_wait / poll + 1) * poll > max_wait) by (nonlinear_arith)
        requires
            poll >= 1,
    ;
    assert(k * poll >= (max_wait / poll + 1) * poll) by (nonlinear_arith)
        requires
            k >= max_wait / poll + 1,
            poll >= 1,
    ;
}

/// What the main loop does with one poll of the running bridge.
#[derive(Clone, Copy, Debug, PartialEq, Eq, Structural)]
pub enum RunDecision {
    /// The child exited on its own; carry its success out.
    Exited { success: bool },
    /// The client closed its stream: begin the shutdown escalation.
    BeginShutdown,
    /// Nothing happened; sleep one interval and poll again.
    KeepPolling,
}

/// Decide one main-loop iteration: a spontaneous child exit wins over a
/// closed input stream, and with neither the loop keeps polling.
pub fn running_step(child_exited: Option<bool>, stdin_closed: bool) -> (d: RunDecision)
    ensures
        d == match child_exited {
            Some(success) => RunDecision::Exited { success },
            None => if stdin_closed {
                RunDecision::BeginShutdown
            } else {
                RunDecision::KeepPolling
            },
        },
{
    match child_exited {
        Some(success) => RunDecision::Exited { success },
        None => if stdin_closed {
            RunDecision::BeginShutdown
        } else {
            RunDecision::KeepPolling
        },
    }
}

/// The bridge's final report: success, the recognized non-error of a child
/// that died after its input was deliberately closed, or failure.
#[derive(Clone, Copy, Debug, PartialEq, Eq, Structural)]
pub enum FinalOutcome {
    Success,
    SuccessAfterStdinClose,
    Failure,
}

/// Map the child's exit and the close history to the bridge's own exit:
/// only an unexplained child failure is a failure.
pub fn final_status(child_success: bool, stdin_closed: bool) -> (o: FinalOutcome)
    ensures
        child_success ==> o == FinalOutcome::Success,
        !child_success && stdin_closed ==> o == FinalOutcome::SuccessAfterStdinClose,
        !child_success && !stdin_closed ==> o == FinalOutcome::Failure,
{
    if child_success {
        FinalOutcome::Success
    } else if stdin_closed {
        FinalOutcome::SuccessAfterStdinClose
    } else {
        FinalOutcome::Failure
    }
}

/// Decide one attempt of the protocol-level shutdown request.
#[derive(Clone, Copy, Debug, PartialEq, Eq, Structural)]
pub enum ShutdownRequestStep {
    /// The request went out; stop retrying.
    Sent,
    /// Sleep the retry delay and try again.
    SleepAndRetry,
    /// All attempts failed; fall through to the signals.
    GiveUp,
}

/// Retry ladder of the shutdown request: stop on success, retry while
/// attempts remain, then give up.
pub fn shutdown_request_step(attempt: u32, succeeded: bool, max_attempts: u32) -> (r:
    ShutdownRequestStep)
    ensures
        succeeded ==> r == ShutdownRequestStep::Sent,
        !succeeded && attempt < max_attempts ==> r == ShutdownRequestStep::SleepAndRetry,
        !succeeded && attempt >= max_attempts ==> r == ShutdownRequestStep::GiveUp,
{
    if succeeded {
        ShutdownRequestStep::Sent
    } else if attempt < max_attempts {
        ShutdownRequestStep::SleepAndRetry
    } else {
        ShutdownRequestStep::GiveUp
    }
}

/// Where the shutdown escalation stands.
#[derive(Clone, Copy, Debug, PartialEq, Eq, Structural)]
pub enum ShutdownStage {
    /// Waiting for a voluntary exit after the protocol shutdown request.
    WaitGraceful,
    /// Waiting after the terminate signal.
    WaitAfterTerm,
    /// The child is gone and reaped.
    Done,
}

/// What one escalation wait observed.
#[derive(Clone, Copy, Debug, PartialEq, Eq, Structural)]
pub enum ShutdownEvent {
    /// The child has exited and was reaped.
    ChildExited,
    /// The stage's own deadline passed with the child still alive.
    StageTimeout,
}

/// What the caller must do after an escalation step.
#[derive(Clone, Copy, Debug, PartialEq, Eq, Structural)]
pub enum ShutdownAction {
    /// Nothing; the machine is done.
    Nothing,
    /// Send the terminate signal and wait its grace period.
    SendTerminateSignal,
    /// Kill outright and wait unconditionally; this reap cannot fail.
    ForceKillAndReap,
}

/// The escalation machine: its stage, how many terminate and kill signals
/// it has ordered, and whether the child has been reaped.
pub struct ShutdownMachine {
    pub stage: ShutdownStage,
    pub term_signals: u64,
    pub kill_signals: u64,
    pub reaped: bool,
}

/// One escalation step, as a function.
pub open spec fn spec_shutdown_step(m: ShutdownMachine, ev: ShutdownEvent) -> (
    ShutdownMachine,
    ShutdownAction,
) {
    match (m.stage, ev) {
        (ShutdownStage::WaitGraceful, ShutdownEvent::ChildExited) => (
            ShutdownMachine { stage: ShutdownStage::Done, reaped: true, ..m },
            ShutdownAction::Nothing,
        ),
        (ShutdownStage::WaitGraceful, ShutdownEvent::StageTimeout) => (
            ShutdownMachine {
                stage: ShutdownStage::WaitAfterTerm,
                term_signals: (m.term_signals + 1) as u64,
                ..m
            },
            ShutdownAction::SendTerminateSignal,
        ),
        (ShutdownStage::WaitAfterTerm, ShutdownEvent::ChildExited) => (
            ShutdownMachine { stage: ShutdownStage::Done, reaped: true, ..m },
            ShutdownAction::Nothing,
        ),
        (ShutdownStage::WaitAfterTerm, ShutdownEvent::StageTimeout) => (
            ShutdownMachine {
                stage: ShutdownStage::Done,
                kill_signals: (m.kill_signals + 1) as u64,
                reaped: true,
                ..m
            },
            ShutdownAction::ForceKillAndReap,
        ),
        (ShutdownStage::Done, _) => (m, ShutdownAction::Nothing),
    }
}

impl ShutdownMachine {
    /// A machine that has just sent the protocol shutdown request.
    pub fn new() -> (r: Self)
        ensures
            r.stage == ShutdownStage::WaitGraceful,
            r.term_signals == 0,
            r.kill_signals == 0,
            !r.reaped,
    {
        ShutdownMachine {
            stage: ShutdownStage::WaitGraceful,
            term_signals: 0,
            kill_signals: 0,
            reaped: false,
        }
    }

    /// Advance the escalation on one observed event.
    pub fn step(&mut self, ev: ShutdownEvent) -> (a: ShutdownAction)
        requires
            old(self).term_signals < u64::MAX,
            old(self).kill_signals < u64::MAX,
        ensures
            (*final(self), a) == spec_shutdown_step(*old(self), ev),
    {
        match (self.stage, ev) {
            (ShutdownStage::WaitGraceful, ShutdownEvent::ChildExited) => {
                self.stage = ShutdownStage::Done;
                self.reaped = true;
                ShutdownAction::Nothing
            },
            (ShutdownStage::WaitGraceful, ShutdownEvent::StageTimeout) => {
                self.stage = ShutdownStage::WaitAfterTerm;
                self.term_signals = self.term_signals + 1;
                ShutdownAction::SendTerminateSignal
            },
            (ShutdownStage::WaitAfterTerm, ShutdownEvent::ChildExited) => {
                self.stage = ShutdownStage::Done;
                self.reaped = true;
                ShutdownAction::Nothing
            },
            (ShutdownStage::WaitAfterTerm, ShutdownEvent::StageTimeout) => {
                self.stage = ShutdownStage::Done;
                self.kill_signals = self.kill_signals + 1;
                self.reaped = true;
                ShutdownAction::ForceKillAndReap
            },
            (ShutdownStage::Done, _) => ShutdownAction::Nothing,
        }
    }
}

/// Run the escalation machine over a whole sequence of observed events.
pub open spec fn spec_shutdown_run(m: ShutdownMachine, evs: Seq<ShutdownEvent>) -> (
    ShutdownMachine,
    Seq<ShutdownAction>,
)
    decreases evs.len(),
{
    if evs.len() == 0 {
        (m, Seq::empty())
    } else {
        let (m2, a) = spec_shutdown_step(m, evs.first());
        let (m3, rest) = spec_shutdown_run(m2, evs.drop_first());
        (m3, seq![a] + rest)
    }
}

/// Shutdown escalation, over every possible run from a fresh machine:
/// if the child exits within the graceful stage, no terminate signal is
/// ever ordered; otherwise exactly one terminate signal is ordered before
/// any forced kill, at most one forced kill is ever ordered, and once any
/// event sequence reaches the final stage the child has been reaped.
pub proof fn lemma_shutdown_escalation(evs: Seq<ShutdownEvent>)
    requires
        evs.len() >= 1,
    ensures
        ({
            let (m, acts) = spec_shutdown_run(ShutdownMachine {
                stage: ShutdownStage::WaitGraceful,
                term_signals: 0,
                kill_signals: 0,
                reaped: false,
            }, evs);
            &&& (evs.first() == ShutdownEvent::ChildExited ==> m.term_signals == 0
                && m.kill_signals == 0 && m.reaped)
            &&& (evs.first() == ShutdownEvent::StageTimeout ==> m.term_signals == 1)
            &&& m.term_signals <= 1
            &&& m.kill_signals <= 1
            &&& (m.stage == ShutdownStage::Done ==> m.reaped)
            &&& (m.kill_signals == 1 ==> m.term_signals == 1)
        }),
{
    let start = ShutdownMachine {
        stage: ShutdownStage::WaitGraceful,
        term_signals: 0,
        kill_signals: 0,
        reaped: false,
    };
    let (m2, _) = spec_shutdown_step(start, evs.first());
    lemma_shutdown_run_preserves(m2, evs.drop_first());
}

/// The escalation invariant is preserved by any further events: the stage
/// only moves forward, the signal counters never change after their stage
/// is past, and the final stage means the child is reaped.
proof fn lemma_shutdown_run_preserves(m: ShutdownMachine, evs: Seq<ShutdownEvent>)
    requires
        shutdown_inv(m),
    ensures
        shutdown_inv(spec_shutdown_run(m, evs).0),
        spec_shutdown_run(m, evs).0.term_signals >= m.term_signals,
        m.stage == ShutdownStage::Done ==> spec_shutdown_run(m, evs).0 == m,
        m.stage != ShutdownStage::WaitGraceful ==> spec_shutdown_run(m, evs).0.term_signals
            == m.term_signals,
    decreases evs.len(),
{
    if evs.len() > 0 {
        let (m2, _) = spec_shutdown_step(m, evs.first());
        lemma_shutdown_run_preserves(m2, evs.drop_first());
    }
}

/// The escalation invariant: what each stage implies about the counters
/// and the reap flag.
pub open spec fn shutdown_inv(m: ShutdownMachine) -> bool {
    &&& m.term_signals <= 1
    &&& m.kill_signals <= 1
    &&& (m.stage == ShutdownStage::WaitGraceful ==> m.term_signals == 0 && m.kill_signals == 0
        && !m.reaped)
    &&& (m.stage == ShutdownStage::WaitAfterTerm ==> m.term_signals == 1 && m.kill_signals == 0
        && !m.reaped)
    &&& (m.stage == ShutdownStage::Done ==> m.reaped)
    &&& (m.kill_signals == 1 ==> m.term_signals == 1)
}

} // verus!
