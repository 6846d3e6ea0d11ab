//! The orchestration core: lifecycle, listing, recovery, input.

use agent_sessions::manager::SessionManager;
use agent_sessions::persistence::PersistedSession;
use agent_sessions::session::{Session, SessionStatus, classify_recovery};
use agent_sessions::ids::uuid_string;
use agent_sessions::errors::SessionError;

fn test_home() -> String {
    "/tmp".to_string()
}

#[test]
fn test_session_creation() {
    let dir = "/tmp".to_string();
    let id = uuid::Uuid::new_v4().as_u128();
    let session = Session::new(
        id,
        dir.clone(),
        "2024-01-01T00:00:00Z".to_string(),
        "/home/someone",
    );
    assert_eq!(session.working_dir, dir);
    assert!(!uuid_string(session.id).is_empty());
    assert!(!session.created_at.is_empty());
}

#[test]
fn test_session_unique_ids() {
    let mut manager = SessionManager::new(test_home());
    let id1 = manager
        .start_session("/tmp".to_string(), true)
        .expect("start in /tmp");
    let id2 = manager
        .start_session("/tmp".to_string(), true)
        .expect("start in /tmp");
    assert_ne!(id1, id2, "Session IDs should be unique");
}

#[test]
fn test_manager_creation() {
    let manager = SessionManager::new(test_home());
    let sessions = manager.list_sessions();
    assert_eq!(sessions.len(), 0, "New manager should have no sessions");
}

#[test]
fn test_start_session_invalid_dir() {
    let mut manager = SessionManager::new(test_home());
    let result = manager.start_session("/nonexistent/path".to_string(), true);
    assert!(result.is_err(), "Should fail for non-existent directory");
    // the registry is untouched by the failure
    assert!(manager.list_sessions().is_empty());
}

#[test]
fn test_start_session_valid_dir() {
    let mut manager = SessionManager::new(test_home());
    let temp_dir = tempfile::TempDir::new().expect("Failed to create temp dir");
    let result = manager.start_session(temp_dir.path().to_str().unwrap().to_string(), true);
    if result.is_err() {
        println!("Expected: agent binary not found in test environment");
    }
}

#[test]
fn test_start_session_spawn_failure() {
    let mut manager = SessionManager::new(test_home());
    let result = manager.start_session("/tmp".to_string(), false);
    assert_eq!(result, Err(SessionError::SpawnFailure));
    assert!(manager.list_sessions().is_empty());
}

#[test]
fn test_stop_nonexistent_session() {
    let mut manager = SessionManager::new(test_home());
    let fake_id = uuid::Uuid::new_v4().as_u128();
    let result = manager.stop_session(fake_id);
    assert!(result.is_err(), "Should fail when stopping non-existent session");
    assert_eq!(result, Err(SessionError::NotFoundFailure));
    assert!(manager.list_sessions().is_empty());
}

#[test]
fn test_list_sessions_empty() {
    let manager = SessionManager::new(test_home());
    let sessions = manager.list_sessions();
    assert!(sessions.is_empty(), "Should return empty list for new manager");
}

#[test]
fn test_full_session_lifecycle() {
    let mut manager = SessionManager::new(test_home());
    let temp_dir = tempfile::TempDir::new().expect("Failed to create temp dir");

    let session_id = manager
        .start_session(temp_dir.path().to_str().unwrap().to_string(), true)
        .expect("Failed to start session");

    let sessions = manager.list_sessions();
    assert_eq!(sessions.len(), 1);
    assert_eq!(sessions[0].id, uuid_string(session_id));

    manager.stop_session(session_id).expect("Failed to stop session");

    let sessions = manager.list_sessions();
    assert_eq!(sessions.len(), 0);
}

#[test]
fn test_two_sessions_stop_first() {
    let mut manager = SessionManager::new(test_home());
    let dir_a = tempfile::TempDir::new().unwrap();
    let dir_b = tempfile::TempDir::new().unwrap();
    let path_a = dir_a.path().to_str().unwrap().to_string();
    let path_b = dir_b.path().to_str().unwrap().to_string();

    let id_a = manager.start_session(path_a, true).expect("start A");
    let id_b = manager.start_session(path_b.clone(), true).expect("start B");

    let listed = manager.list_sessions();
    assert_eq!(listed.len(), 2);
    assert_ne!(listed[0].id, listed[1].id);

    manager.stop_session(id_a).expect("stop A");

    let listed = manager.list_sessions();
    assert_eq!(listed.len(), 1);
    assert_eq!(listed[0].id, uuid_string(id_b));
    assert_eq!(listed[0].working_dir, path_b);
    assert_eq!(listed[0].status, "running");
}

#[test]
fn test_recovery_classification() {
    assert_eq!(classify_recovery(None, false), SessionStatus::Stale);
    assert_eq!(classify_recovery(None, true), SessionStatus::Stale);
    assert_eq!(classify_recovery(Some(4242), false), SessionStatus::Crashed);
    assert_eq!(classify_recovery(Some(4242), true), SessionStatus::Orphaned);
}

fn recovered_record(id: u128, pid: Option<u32>) -> PersistedSession {
    PersistedSession {
        id,
        working_dir: "/tmp/work".to_string(),
        created_at: "2024-01-01T00:00:00Z".to_string(),
        log_path: "/tmp/work.log".to_string(),
        pid,
        status: SessionStatus::Running,
    }
}

#[test]
fn test_recover_sessions_statuses() {
    let mut manager = SessionManager::new(test_home());
    let persisted = vec![
        recovered_record(1, None),
        recovered_record(2, Some(77)),
        recovered_record(3, Some(78)),
    ];
    let alive = vec![false, false, true];
    let updated = manager.recover_sessions(&persisted, &alive);

    assert_eq!(updated.len(), 3);
    assert_eq!(updated[0].status, SessionStatus::Stale);
    assert_eq!(updated[1].status, SessionStatus::Crashed);
    assert_eq!(updated[2].status, SessionStatus::Orphaned);

    // recovered sessions carry metadata only: none is running
    let listed = manager.list_sessions();
    assert_eq!(listed.len(), 3);
    for info in &listed {
        assert_eq!(info.status, "stale");
    }

    // the snapshot keeps the classified statuses
    let snapshot = manager.persisted_snapshot();
    assert_eq!(snapshot[0].status, SessionStatus::Stale);
    assert_eq!(snapshot[1].status, SessionStatus::Crashed);
    assert_eq!(snapshot[2].status, SessionStatus::Orphaned);
    assert_eq!(snapshot[0].pid, None);
}

#[test]
fn test_send_input_appends_newline() {
    let mut manager = SessionManager::new(test_home());
    let temp_dir = tempfile::TempDir::new().unwrap();
    let id = manager
        .start_session(temp_dir.path().to_str().unwrap().to_string(), true)
        .expect("start");

    let payload = manager.send_input(id, "hello".to_string()).expect("live session");
    assert_eq!(payload, "hello\n");
    let payload = manager.send_input(id, "hello\n".to_string()).expect("live session");
    assert_eq!(payload, "hello\n");
}

#[test]
fn test_send_input_unknown_session() {
    let manager = SessionManager::new(test_home());
    let result = manager.send_input(12345, "hello".to_string());
    assert_eq!(result, Err(SessionError::NotFoundFailure));
}

#[test]
fn test_error_messages() {
    assert_eq!(SessionError::ValidationFailure.message(), "Working directory does not exist");
    assert_eq!(SessionError::NotFoundFailure.message(), "Session not found");
    assert!(!SessionError::IoFailure.message().is_empty());
    assert!(!SessionError::ProtocolFailure.message().is_empty());
    assert!(!SessionError::UnavailableFailure.message().is_empty());
}
