//! The durable state text: writing, loading, and the round trip.

use agent_sessions::persistence::{PersistedSession, PersistenceManager};
use agent_sessions::session::{Session, SessionStatus};
use agent_sessions::ids::uuid_string;

fn sample_record(id: u128) -> PersistedSession {
    PersistedSession {
        id,
        working_dir: "/tmp/test".to_string(),
        created_at: "2024-01-01T00:00:00Z".to_string(),
        log_path: "/tmp/test.log".to_string(),
        pid: Some(12345),
        status: SessionStatus::Running,
    }
}

#[test]
fn test_persistence_roundtrip() {
    let temp_dir = tempfile::TempDir::new().unwrap();
    let state_file = format!("{}/sessions.json", temp_dir.path().to_str().unwrap());
    let pm = PersistenceManager { state_file };

    let sessions = vec![sample_record(uuid::Uuid::new_v4().as_u128())];
    let content = pm.write_state(&sessions);
    let loaded = pm.load_state(Some(&content));

    assert_eq!(loaded.len(), 1);
    assert_eq!(loaded[0].id, sessions[0].id);
}

#[test]
fn test_roundtrip_keeps_every_field() {
    let pm = PersistenceManager { state_file: "unused".to_string() };
    let mut a = sample_record(7);
    a.pid = None;
    a.status = SessionStatus::Orphaned;
    let b = sample_record(uuid::Uuid::new_v4().as_u128());
    let sessions = vec![a, b];
    let loaded = pm.load_state(Some(&pm.write_state(&sessions)));
    assert_eq!(loaded.len(), 2);
    for (orig, back) in sessions.iter().zip(loaded.iter()) {
        assert_eq!(orig.id, back.id);
        assert_eq!(orig.working_dir, back.working_dir);
        assert_eq!(orig.created_at, back.created_at);
        assert_eq!(orig.log_path, back.log_path);
        assert_eq!(orig.pid, back.pid);
        assert_eq!(orig.status, back.status);
    }
}

#[test]
fn test_load_state_missing_file() {
    let pm = PersistenceManager { state_file: "unused".to_string() };
    let loaded = pm.load_state(None);
    assert!(loaded.is_empty());
}

#[test]
fn test_load_state_garbage() {
    let pm = PersistenceManager { state_file: "unused".to_string() };
    let garbage = "this is definitely { not ] valid json".to_string();
    let loaded = pm.load_state(Some(&garbage));
    assert!(loaded.is_empty());
}

#[test]
fn test_state_text_exact() {
    let pm = PersistenceManager { state_file: "unused".to_string() };
    let empty: Vec<PersistedSession> = Vec::new();
    assert_eq!(pm.write_state(&empty), "{}");

    let id: u128 = 0x0123456789abcdef0123456789abcdef;
    let content = pm.write_state(&vec![sample_record(id)]);
    let uuid_text = "01234567-89ab-cdef-0123-456789abcdef";
    assert_eq!(uuid_string(id), uuid_text);
    let expected = format!(
        "{{\"{u}\":{{\"id\":\"{u}\",\"working_dir\":\"/tmp/test\",\"created_at\":\"2024-01-01T00:00:00Z\",\"log_path\":\"/tmp/test.log\",\"pid\":12345,\"status\":\"running\"}}}}",
        u = uuid_text,
    );
    assert_eq!(content, expected);
}

#[test]
fn test_roundtrip_with_awkward_characters() {
    let pm = PersistenceManager { state_file: "unused".to_string() };
    let mut rec = sample_record(42);
    rec.working_dir = "/tmp/with \"quotes\" and \\slashes\\".to_string();
    rec.created_at = "line\nbreak\tand tab".to_string();
    let loaded = pm.load_state(Some(&pm.write_state(&vec![rec.clone()])));
    assert_eq!(loaded.len(), 1);
    assert_eq!(loaded[0].working_dir, rec.working_dir);
    assert_eq!(loaded[0].created_at, rec.created_at);
}

#[test]
fn test_duplicate_ids_load_empty() {
    let pm = PersistenceManager { state_file: "unused".to_string() };
    let content = pm.write_state(&vec![sample_record(5), sample_record(5)]);
    let loaded = pm.load_state(Some(&content));
    assert!(loaded.is_empty());
}

#[test]
fn test_state_file_path_naming() {
    let pm = PersistenceManager::new("/home/someone");
    assert_eq!(
        pm.state_file_path(),
        "/home/someone/.agent-sessions/sessions.json"
    );
}

#[test]
fn test_session_serialization() {
    let id = uuid::Uuid::new_v4().as_u128();
    let session = Session::new(
        id,
        "/tmp/test".to_string(),
        "2024-01-01T00:00:00Z".to_string(),
        "/home/someone",
    );
    let pm = PersistenceManager { state_file: "unused".to_string() };
    let json = pm.write_state(&vec![PersistedSession::from_session(&session, None)]);
    assert!(json.contains(&uuid_string(session.id)));
    assert!(json.contains("/tmp/test"));
}

#[test]
fn test_trailing_garbage_loads_empty() {
    let pm = PersistenceManager { state_file: "unused".to_string() };
    let mut content = pm.write_state(&vec![sample_record(9)]);
    content.push_str(" trailing");
    assert!(pm.load_state(Some(&content)).is_empty());
}
