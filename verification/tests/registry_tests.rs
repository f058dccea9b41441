use checkpoint_sessions::codec::encode;
use checkpoint_sessions::manager::TitorCheckpointManager;
use checkpoint_sessions::records::RawCheckpoint;
use checkpoint_sessions::registry::{
    CheckpointState, default_ignore_patterns, compression_skip_extensions, compression_min_size,
};

fn raw(id: &str, created_at: u64, description: Option<String>) -> RawCheckpoint {
    RawCheckpoint {
        id: id.to_string(),
        created_at,
        description,
        file_count: 1,
        total_size: 10,
    }
}

#[test]
fn registry_resolves_same_manager_twice() {
    let mut st = CheckpointState::new();
    let sid = "S".to_string();
    // First resolution: absent, so the caller constructs and registers one.
    assert_eq!(st.find_manager(&sid), None);
    st.insert_manager(TitorCheckpointManager::new("S".to_string(), Vec::new()));
    // Later resolutions land on the same entry; nothing is constructed again.
    let first = st.find_manager(&sid);
    let second = st.find_manager(&sid);
    assert_eq!(first, Some(0));
    assert_eq!(second, Some(0));
    assert_eq!(st.manager_at(0).session_id, "S");
}

#[test]
fn registry_keeps_one_entry_per_session() {
    let mut st = CheckpointState::new();
    st.insert_manager(TitorCheckpointManager::new("S1".to_string(), Vec::new()));
    st.insert_manager(TitorCheckpointManager::new("S2".to_string(), Vec::new()));
    assert_eq!(st.find_manager(&"S1".to_string()), Some(0));
    assert_eq!(st.find_manager(&"S2".to_string()), Some(1));
    assert_eq!(st.find_manager(&"S3".to_string()), None);
}

#[test]
fn uninitialized_session_errors() {
    let st = CheckpointState::new();
    let err = st.checkpoint_at_message(&"ghost".to_string(), 0).unwrap_err();
    assert_eq!(err, "Session not initialized");
    let err = st.list_session_checkpoints(&"ghost".to_string()).unwrap_err();
    assert_eq!(err, "Session not initialized");
}

#[test]
fn checkpoint_at_message_resolves_through_registry() {
    let mut st = CheckpointState::new();
    let raws = vec![raw("c9", 100, Some(encode("S", 9, "ninth")))];
    st.insert_manager(TitorCheckpointManager::new("S".to_string(), raws));
    let sid = "S".to_string();
    assert_eq!(st.checkpoint_at_message(&sid, 9).unwrap().as_deref(), Some("c9"));
    assert_eq!(st.checkpoint_at_message(&sid, 8).unwrap(), None);
}

#[test]
fn list_session_checkpoints_filters_other_sessions() {
    let mut st = CheckpointState::new();
    let raws = vec![
        raw("ca", 100, Some(encode("A", 0, "mine"))),
        raw("cb", 200, Some(encode("B", 0, "theirs"))),
    ];
    st.insert_manager(TitorCheckpointManager::new("A".to_string(), raws));
    let own = st.list_session_checkpoints(&"A".to_string()).unwrap();
    assert_eq!(own.len(), 1);
    assert_eq!(own[0].id, "ca");
}

#[test]
fn store_creation_policy_values() {
    let patterns = default_ignore_patterns();
    let expected = vec![
        ".git", ".titor", "node_modules", "target", "dist", "build", ".next", "__pycache__",
        "*.log",
    ];
    let got: Vec<&str> = patterns.iter().map(|s| s.as_str()).collect();
    assert_eq!(got, expected);

    let skips = compression_skip_extensions();
    let expected = vec!["jpg", "jpeg", "png", "gif", "mp4", "mp3", "zip", "gz", "bz2", "7z", "rar"];
    let got: Vec<&str> = skips.iter().map(|s| s.as_str()).collect();
    assert_eq!(got, expected);

    assert_eq!(compression_min_size(), 4096);
}
