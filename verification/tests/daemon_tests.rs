//! The request dispatcher: one request in, one response and one
//! required action out.

use agent_sessions::daemon::{handle_request, Effect, daemon_socket_path};
use agent_sessions::ipc::{Request, Response};
use agent_sessions::manager::SessionManager;
use agent_sessions::ids::{uuid_string, parse_uuid};

fn new_manager() -> SessionManager {
    SessionManager::new("/tmp".to_string())
}

#[test]
fn test_ping_yields_pong_and_changes_nothing() {
    let mut manager = new_manager();
    let temp_dir = tempfile::TempDir::new().unwrap();
    manager
        .start_session(temp_dir.path().to_str().unwrap().to_string(), true)
        .expect("start");
    let before: Vec<String> = manager.list_sessions().iter().map(|i| i.id.clone()).collect();

    let outcome = handle_request(&mut manager, Request::Ping, false);
    assert!(matches!(outcome.response, Response::Pong));
    assert!(!outcome.shutdown);
    assert!(matches!(outcome.effect, Effect::NoAction));

    let after: Vec<String> = manager.list_sessions().iter().map(|i| i.id.clone()).collect();
    assert_eq!(before, after);
}

#[test]
fn test_shutdown_request() {
    let mut manager = new_manager();
    let outcome = handle_request(&mut manager, Request::Shutdown, false);
    assert!(matches!(outcome.response, Response::Okay));
    assert!(outcome.shutdown);
}

#[test]
fn test_start_and_stop_through_dispatch() {
    let mut manager = new_manager();
    let temp_dir = tempfile::TempDir::new().unwrap();
    let dir = temp_dir.path().to_str().unwrap().to_string();

    let outcome = handle_request(&mut manager, Request::StartSession { working_dir: dir }, true);
    let session_id = match outcome.response {
        Response::SessionStarted { session_id, log_path } => {
            assert!(log_path.contains(&session_id));
            session_id
        }
        _ => panic!("expected a started session"),
    };
    match outcome.effect {
        Effect::AdoptHandle { session_id: id } => {
            assert_eq!(uuid_string(id), session_id);
        }
        _ => panic!("expected an adopted handle"),
    }

    let outcome = handle_request(
        &mut manager,
        Request::StopSession { session_id: session_id.clone() },
        false,
    );
    match outcome.response {
        Response::SessionStopped { session_id: echoed } => {
            assert_eq!(echoed, session_id);
        }
        _ => panic!("expected a stopped session"),
    }
    assert!(matches!(outcome.effect, Effect::ReleaseHandle { .. }));
    assert!(manager.list_sessions().is_empty());
}

#[test]
fn test_stop_with_malformed_id() {
    let mut manager = new_manager();
    let outcome = handle_request(
        &mut manager,
        Request::StopSession { session_id: "not-a-valid-id".to_string() },
        false,
    );
    match outcome.response {
        Response::Error { message } => {
            assert_eq!(message, "Invalid session ID format");
        }
        _ => panic!("expected an error"),
    }
}

#[test]
fn test_send_input_through_dispatch() {
    let mut manager = new_manager();
    let temp_dir = tempfile::TempDir::new().unwrap();
    let id = manager
        .start_session(temp_dir.path().to_str().unwrap().to_string(), true)
        .expect("start");

    let outcome = handle_request(
        &mut manager,
        Request::SendInput { session_id: uuid_string(id), text: "run tests".to_string() },
        false,
    );
    assert!(matches!(outcome.response, Response::Okay));
    match outcome.effect {
        Effect::WriteInput { session_id, payload } => {
            assert_eq!(session_id, id);
            assert_eq!(payload, "run tests\n");
        }
        _ => panic!("expected input to be written"),
    }
}

#[test]
fn test_attach_is_a_documented_placeholder() {
    let mut manager = new_manager();
    let outcome = handle_request(
        &mut manager,
        Request::AttachSession { session_id: "anything".to_string() },
        false,
    );
    match outcome.response {
        Response::Error { message } => {
            assert_eq!(message, "Attach not implemented yet");
        }
        _ => panic!("expected an error"),
    }
}

#[test]
fn test_uuid_text_exact() {
    let id: u128 = 0x0123456789abcdef0123456789abcdef;
    let text = uuid_string(id);
    assert_eq!(text, "01234567-89ab-cdef-0123-456789abcdef");
    assert_eq!(parse_uuid(&text), Some(id));
    assert_eq!(parse_uuid("01234567-89ab-cdef-0123-456789abcde"), None);
    assert_eq!(parse_uuid("0123456789abcdef0123456789abcdef"), None);
}

#[test]
fn daemon_test_socket_path() {
    let path = daemon_socket_path("/home/someone");
    assert!(path.contains(".agent-sessions"));
    assert!(path.ends_with("daemon.sock"));
}
