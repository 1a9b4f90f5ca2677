//! Protocol bridge between an editor-side language client on stdio and a
//! scripting-language runtime that speaks the same line-delimited RPC
//! protocol over UDP.
//!
//! The crate holds the bridge's logic: message framing and reassembly for
//! both transports, the readiness-gated outbound queue with request
//! deduplication and replay, the chunking and retry policy of the reliable
//! UDP send, and the process lifecycle decisions from spawn to shutdown
//! escalation.  The sockets, streams, processes and timers these decisions
//! drive belong to the embedding program.
//!
//! - [`frame`]: length-prefixed framing for the stdio transport
//! - [`reassembly`]: frame reconstruction from UDP datagrams
//! - [`ids`]: request ids and the dedup set
//! - [`queue`]: the readiness-gated outbound queue and the replay cache
//! - [`bridge`]: the interception and forwarding pipelines
//! - [`transport`]: chunking and the retry policy
//! - [`lifecycle`]: run guard, readiness wait, shutdown escalation
//! - [`messages`]: the messages the bridge writes itself
//! - [`processes`]: pid file, orphan sweep and executable choice
//! - [`httpapi`]: the companion HTTP endpoint's decisions
//! - [`extension`]: the editor-extension side's decisions
//! - [`settings`]: the workspace-settings model and its merge
//! - [`constants`]: the protocol's tunable constants
//! - [`jsonext`]: the trusted boundary to the JSON decoder

use vstd::prelude::*;

pub mod bridge;
pub mod constants;
pub mod extension;
pub mod frame;
pub mod httpapi;
pub mod ids;
pub mod jsonext;
pub mod lifecycle;
pub mod messages;
pub mod processes;
pub mod queue;
pub mod reassembly;
pub mod settings;
pub mod textutil;
pub mod transport;

pub use bridge::handle_initialize_request;
pub use bridge::is_lsp_noise;
pub use constants::max_retry_attempts;
pub use constants::millis_to_duration;
pub use constants::DEFAULT_HTTP_PORT;
pub use constants::GRACEFUL_SHUTDOWN_TIMEOUT_MS;
pub use constants::INITIAL_LSP_REQUEST_ID;
pub use constants::LSP_READY_MAX_WAIT_MS;
pub use constants::MAIN_LOOP_POLL_MS;
pub use constants::MAX_RETRY_MS;
pub use constants::MAX_UDP_CHUNK_SIZE;
pub use constants::RETRY_SLEEP_MS;
pub use constants::SHUTDOWN_FLUSH_WAIT_MS;
pub use constants::SHUTDOWN_POLL_MS;
pub use constants::SHUTDOWN_RETRY_ATTEMPTS;
pub use constants::SHUTDOWN_RETRY_DELAY_MS;
pub use constants::SIGTERM_GRACE_PERIOD_MS;
pub use constants::STARTUP_POLL_MS;
pub use constants::UDP_BUFFER_SIZE;
pub use constants::UDP_CHUNK_DELAY_US;
pub use constants::UDP_READ_TIMEOUT_MS;
pub use extension::launcher_not_found_help;
pub use frame::frame_message;
pub use frame::read_lsp_message;
pub use frame::FrameError;
pub use frame::ReadOutcome;
pub use ids::DedupSet;
pub use ids::RequestId;
pub use lifecycle::next_lsp_request_id;
pub use lifecycle::next_run_token;
pub use lifecycle::release_child_state;
pub use lifecycle::Args;
pub use lifecycle::ChildState;
pub use lifecycle::Mode;
pub use lifecycle::Ports;
pub use lifecycle::RunningGuard;
pub use messages::create_execute_command_request;
pub use messages::create_initialize_response;
pub use messages::create_lsp_notification;
pub use messages::create_lsp_request;
pub use messages::pid_file_contents;
pub use processes::ensure_quark_present;
pub use processes::pid_file_path;
pub use queue::CachedSlots;
pub use settings::default_workspace_settings;
pub use settings::merge_settings;
pub use settings::JsonTree;
pub use queue::OutboundQueue;
pub use reassembly::Reassembler;
pub use transport::chunk_payload;
pub use transport::RetryState;

verus! {

} // verus!
