//! The client's view of the daemon: paths and listings.

use agent_sessions::client::Client;
use agent_sessions::ipc::{encode_response, parse_response, Response};
use agent_sessions::session::SessionInfo;

#[test]
fn test_client_creation() {
    let client = Client::new("/home/someone");
    assert!(client.socket_path().ends_with("daemon.sock"));
}

#[test]
fn client_test_socket_path() {
    let client = Client::new("/home/someone");
    assert!(client.socket_path().contains(".agent-sessions"));
}

#[test]
fn test_session_info_serialization() {
    let info = SessionInfo {
        id: "test-id".to_string(),
        working_dir: "/tmp".to_string(),
        created_at: "2024-01-01T00:00:00Z".to_string(),
        status: "running".to_string(),
        log_path: "/tmp/test-id.jsonl".to_string(),
    };
    let json = encode_response(&Response::SessionList { sessions: vec![info] });
    assert!(json.contains("test-id"));
    assert!(json.contains("running"));
}

#[test]
fn test_session_list_roundtrip() {
    let info = SessionInfo {
        id: "id-1".to_string(),
        working_dir: "/srv/one".to_string(),
        created_at: "2024-01-01T00:00:00Z".to_string(),
        status: "stale".to_string(),
        log_path: "/logs/id-1.jsonl".to_string(),
    };
    let info2 = SessionInfo {
        id: "id-2".to_string(),
        working_dir: "/srv/two".to_string(),
        created_at: "2024-02-02T00:00:00Z".to_string(),
        status: "running".to_string(),
        log_path: "/logs/id-2.jsonl".to_string(),
    };
    let json = encode_response(&Response::SessionList { sessions: vec![info, info2] });
    match parse_response(&json).expect("list should parse back") {
        Response::SessionList { sessions } => {
            assert_eq!(sessions.len(), 2);
            assert_eq!(sessions[0].id, "id-1");
            assert_eq!(sessions[0].working_dir, "/srv/one");
            assert_eq!(sessions[1].id, "id-2");
            assert_eq!(sessions[1].status, "running");
        }
        _ => panic!("Wrong response type"),
    }
}

#[test]
fn test_empty_session_list_roundtrip() {
    let json = encode_response(&Response::SessionList { sessions: Vec::new() });
    match parse_response(&json).expect("empty list should parse back") {
        Response::SessionList { sessions } => {
            assert!(sessions.is_empty());
        }
        _ => panic!("Wrong response type"),
    }
}
