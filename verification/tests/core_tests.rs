//! Tests of the ids, constants, message builders and the frame reader.

use sc_launcher::frame::ReadOutcome;
use sc_launcher::lifecycle::{next_lsp_request_id, next_run_token};
use sc_launcher::RequestId;

#[test]
fn test_request_id_from_json_number() {
    let json = serde_json::Value::from(42);
    let id = RequestId::from_json(&json);
    assert!(matches!(id, Some(RequestId::Number(42))));
}

#[test]
fn test_request_id_from_json_string() {
    let json = serde_json::Value::from("abc-123");
    let id = RequestId::from_json(&json);
    assert!(matches!(id, Some(RequestId::String(ref s)) if s == "abc-123"));
}

#[test]
fn test_request_id_from_json_null() {
    let json = serde_json::Value::Null;
    let id = RequestId::from_json(&json);
    assert!(id.is_none());
}

#[test]
fn test_request_id_display() {
    let num = RequestId::Number(42);
    assert_eq!(num.display_string(), "42");

    let string = RequestId::String("test".into());
    assert_eq!(string.display_string(), "\"test\"");
}

#[test]
fn test_request_id_display_negative() {
    let num = RequestId::Number(-7);
    assert_eq!(num.display_string(), "-7");
}

#[test]
fn test_next_lsp_request_id_increments() {
    let mut counter = sc_launcher::INITIAL_LSP_REQUEST_ID;
    let id1 = next_lsp_request_id(&mut counter);
    let id2 = next_lsp_request_id(&mut counter);
    assert!(id2 > id1);
}

#[test]
fn test_run_token_increments() {
    let mut counter = 1u64;
    let token1 = next_run_token(&mut counter);
    let token2 = next_run_token(&mut counter);
    assert!(token2 > token1);
}

#[test]
fn test_max_retry_attempts() {
    assert_eq!(sc_launcher::max_retry_attempts(), 1800);
}

#[test]
fn test_millis_to_duration() {
    assert_eq!(
        sc_launcher::millis_to_duration(100),
        std::time::Duration::from_millis(100)
    );
    assert_eq!(
        sc_launcher::millis_to_duration(0),
        std::time::Duration::from_millis(0)
    );
}

#[test]
fn test_shutdown_timeouts_are_reasonable() {
    assert!(sc_launcher::GRACEFUL_SHUTDOWN_TIMEOUT_MS >= 1000);
    assert!(sc_launcher::SIGTERM_GRACE_PERIOD_MS >= 1000);
}

#[test]
fn test_udp_chunk_size_is_reasonable() {
    assert!(sc_launcher::MAX_UDP_CHUNK_SIZE > 1000);
    assert!(sc_launcher::MAX_UDP_CHUNK_SIZE < 65000);
}

#[test]
fn test_pid_file_path_is_in_temp_dir() {
    let path = sc_launcher::pid_file_path("/tmp");
    assert!(path.ends_with("sc_launcher.pid"));
}

#[test]
fn test_create_initialize_response_has_capabilities() {
    let response = sc_launcher::create_initialize_response(&RequestId::Number(1));
    let value: serde_json::Value = serde_json::from_slice(&response).unwrap();
    assert!(value.get("result").is_some());
    assert!(value.get("result").unwrap().get("capabilities").is_some());
}

#[test]
fn test_create_initialize_response_echoes_id() {
    let response = sc_launcher::create_initialize_response(&RequestId::String("a\"b\\c".into()));
    let value: serde_json::Value = serde_json::from_slice(&response).unwrap();
    assert_eq!(value.get("id").unwrap().as_str().unwrap(), "a\"b\\c");
    assert_eq!(value.get("jsonrpc").unwrap().as_str().unwrap(), "2.0");
}

#[test]
fn test_create_lsp_request_format() {
    let request = sc_launcher::create_lsp_request(1, "test/method", "{\"key\":\"value\"}");
    let value: serde_json::Value = serde_json::from_slice(&request).unwrap();
    assert_eq!(value.get("jsonrpc").unwrap(), "2.0");
    assert_eq!(value.get("id").unwrap(), 1);
    assert_eq!(value.get("method").unwrap(), "test/method");
    assert_eq!(value.get("params").unwrap().get("key").unwrap(), "value");
}

#[test]
fn test_create_lsp_notification_no_id() {
    let notification = sc_launcher::create_lsp_notification("test/notify", "{}");
    let value: serde_json::Value = serde_json::from_slice(&notification).unwrap();
    assert_eq!(value.get("jsonrpc").unwrap(), "2.0");
    assert!(value.get("id").is_none());
    assert_eq!(value.get("method").unwrap(), "test/notify");
}

#[test]
fn test_create_execute_command_request_format() {
    let args = vec!["\"1+1\"".to_string()];
    let request = sc_launcher::create_execute_command_request(5, "supercollider.eval", &args);
    let value: serde_json::Value = serde_json::from_slice(&request).unwrap();
    assert_eq!(value.get("method").unwrap(), "workspace/executeCommand");
    assert_eq!(value.get("id").unwrap(), 5);
    let params = value.get("params").unwrap();
    assert_eq!(params.get("command").unwrap(), "supercollider.eval");
    assert_eq!(params.get("arguments").unwrap().get(0).unwrap(), "1+1");
}

#[test]
fn test_read_lsp_message_valid() {
    let message = b"Content-Length: 13\r\n\r\n{\"test\":true}";
    let result = sc_launcher::read_lsp_message(message, true);
    match result {
        ReadOutcome::Message(data, consumed) => {
            assert_eq!(consumed, message.len());
            assert!(String::from_utf8_lossy(&data).contains("test"));
        }
        _ => panic!("expected one complete message"),
    }
}

#[test]
fn test_read_lsp_message_eof() {
    let message = b"";
    let result = sc_launcher::read_lsp_message(message, true);
    assert!(matches!(result, ReadOutcome::EndOfStream));
}

#[test]
fn test_pid_file_contents_roundtrip() {
    let contents = sc_launcher::pid_file_contents(12345, 67890);
    let text = String::from_utf8(contents).unwrap();
    assert_eq!(text, "{\"launcher_pid\":12345,\"sclang_pid\":67890}");
    let value: serde_json::Value = serde_json::from_str(&text).unwrap();
    assert_eq!(value.get("launcher_pid").unwrap().as_u64(), Some(12345));
    assert_eq!(value.get("sclang_pid").unwrap().as_u64(), Some(67890));
}
