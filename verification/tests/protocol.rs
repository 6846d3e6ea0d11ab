//! The wire codec: requests, responses, directions, log entries, and
//! the text-safe payload transform.

use agent_sessions::ipc::{encode_request, parse_request, encode_response, parse_response};
use agent_sessions::ipc::{Request, Response};
use agent_sessions::logging::{
    serialize, deserialize, Direction, LogEntry, encode_log_line, parse_log_entry, SessionLogger,
};

#[test]
fn test_request_serialization() {
    let req = Request::StartSession { working_dir: "/tmp".to_string() };
    let json = encode_request(&req);
    let parsed = parse_request(&json).expect("request should parse back");
    match parsed {
        Request::StartSession { working_dir } => {
            assert_eq!(working_dir, "/tmp".to_string());
        }
        _ => panic!("Wrong request type"),
    }
}

#[test]
fn test_response_serialization() {
    let resp = Response::SessionStarted {
        session_id: "test-123".to_string(),
        log_path: "/tmp/test.log".to_string(),
    };
    let json = encode_response(&resp);
    let parsed = parse_response(&json).expect("response should parse back");
    match parsed {
        Response::SessionStarted { session_id, .. } => {
            assert_eq!(session_id, "test-123");
        }
        _ => panic!("Wrong response type"),
    }
}

#[test]
fn test_log_entry_serialization() {
    let id = uuid::Uuid::new_v4().as_u128();
    let entry = LogEntry::new(id, Direction::Output, b"Hello, world!".to_vec());
    let json = encode_log_line(&entry);
    let parsed = parse_log_entry(&json).expect("log line should parse back");
    assert_eq!(entry.session_id, parsed.session_id);
    assert_eq!(entry.size, parsed.size);
    assert_eq!(entry.data, parsed.data);
}

#[test]
fn test_direction_serialization() {
    assert_eq!(Direction::Input.as_str(), "input");
    assert_eq!(Direction::Output.as_str(), "output");
}

#[test]
fn test_payload_transform_exact() {
    // the standard engine's text for a known payload, with padding
    let encoded = serialize(b"Hello, world!");
    assert_eq!(encoded, "SGVsbG8sIHdvcmxkIQ==");
    let decoded = deserialize(&encoded).expect("well-formed payload text");
    assert_eq!(decoded, b"Hello, world!".to_vec());
}

#[test]
fn test_payload_transform_rejects_garbage() {
    assert!(deserialize("not base64 at all!!!").is_none());
}

#[test]
fn test_every_request_roundtrips() {
    let reqs = vec![
        Request::StartSession { working_dir: "/srv/work".to_string() },
        Request::ListSessions,
        Request::StopSession { session_id: "abc".to_string() },
        Request::SendInput { session_id: "abc".to_string(), text: "ls -la".to_string() },
        Request::AttachSession { session_id: "abc".to_string() },
        Request::Ping,
        Request::Shutdown,
    ];
    for req in reqs {
        let json = encode_request(&req);
        let parsed = parse_request(&json).expect("request should parse back");
        let rejson = encode_request(&parsed);
        assert_eq!(json, rejson);
    }
}

#[test]
fn test_malformed_request_rejected() {
    assert!(parse_request("this is not a request").is_none());
    assert!(parse_request("{\"type\":\"start_session\"}").is_none());
    assert!(parse_request("").is_none());
}

#[test]
fn test_error_response_roundtrip() {
    let resp = Response::Error { message: "something \"quoted\" went wrong".to_string() };
    let json = encode_response(&resp);
    match parse_response(&json).expect("error response should parse back") {
        Response::Error { message } => {
            assert_eq!(message, "something \"quoted\" went wrong");
        }
        _ => panic!("Wrong response type"),
    }
}

#[test]
fn test_malformed_response_rejected() {
    assert!(parse_response("pong").is_none());
    assert!(parse_response("{\"type\":\"pong\"} trailing").is_none());
}

#[test]
fn test_logger_lines_parse_back() {
    let id = uuid::Uuid::new_v4().as_u128();
    let logger = SessionLogger::new(id, "/home/someone");
    assert!(logger.log_path().contains(".agent-sessions"));
    let line = logger.log(Direction::Input, b"echo \x1b[31mred\x1b[0m".to_vec());
    let parsed = parse_log_entry(&line).expect("logger output should parse back");
    assert_eq!(parsed.data, b"echo \x1b[31mred\x1b[0m".to_vec());
    assert_eq!(parsed.size, 17);
    assert_eq!(parsed.session_id, agent_sessions::ids::uuid_string(id));
}

#[test]
fn test_log_entry_exact_roundtrip() {
    let id: u128 = 0x0123456789abcdef0123456789abcdef;
    let entry = LogEntry::new_at(
        id,
        Direction::Output,
        b"payload".to_vec(),
        "2024-01-01T00:00:00Z".to_string(),
    );
    let line = encode_log_line(&entry);
    let parsed = parse_log_entry(&line).expect("line should parse back");
    assert_eq!(parsed.timestamp, "2024-01-01T00:00:00Z");
    assert_eq!(parsed.session_id, "01234567-89ab-cdef-0123-456789abcdef");
    assert_eq!(parsed.data, b"payload".to_vec());
    assert_eq!(parsed.size, 7);
}
