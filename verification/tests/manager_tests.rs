use checkpoint_sessions::codec::encode;
use checkpoint_sessions::manager::{TitorCheckpointManager, filter_by_session};
use checkpoint_sessions::records::{
    record_of, RawCheckpoint, StoreCheckpointReply, StoreRestoreReply,
};

fn raw(id: &str, created_at: u64, description: Option<String>) -> RawCheckpoint {
    RawCheckpoint {
        id: id.to_string(),
        created_at,
        description,
        file_count: 1,
        total_size: 10,
    }
}

fn reply(id: &str, created_at: u64) -> StoreCheckpointReply {
    StoreCheckpointReply { id: id.to_string(), created_at, file_count: 2, total_size: 20 }
}

fn restore_reply() -> StoreRestoreReply {
    StoreRestoreReply {
        files_restored: 4,
        files_deleted: 1,
        bytes_written: 2048,
        warnings: vec!["w1".to_string()],
    }
}

#[test]
fn refresh_rebuilds_index_and_cache() {
    let raws = vec![
        raw("c1", 100, Some(encode("A", 0, "first"))),
        raw("c2", 200, Some(encode("A", 1, "second"))),
        raw("cb", 300, Some(encode("B", 0, "other session"))),
        raw("cx", 400, Some("malformed description".to_string())),
        raw("cn", 500, None),
    ];
    let m = TitorCheckpointManager::new("A".to_string(), raws);
    assert_eq!(m.get_checkpoint_at_message(0).as_deref(), Some("c1"));
    assert_eq!(m.get_checkpoint_at_message(1).as_deref(), Some("c2"));
    assert_eq!(m.get_checkpoint_at_message(2), None);

    let listed = m.list_checkpoints();
    assert_eq!(listed.len(), 5);
    // Newest first.
    let times: Vec<u64> = listed.iter().map(|cp| cp.created_at).collect();
    assert_eq!(times, vec![500, 400, 300, 200, 100]);
    // The malformed record is still listed, with defaults.
    let cx = listed.iter().find(|cp| cp.id == "cx").unwrap();
    assert_eq!(cx.session_id, None);
    assert_eq!(cx.message_index, 0);
    assert_eq!(cx.description.as_deref(), Some(""));
    // A decodable record carries its decoded metadata.
    let c2 = listed.iter().find(|cp| cp.id == "c2").unwrap();
    assert_eq!(c2.session_id.as_deref(), Some("A"));
    assert_eq!(c2.message_index, 1);
    assert_eq!(c2.description.as_deref(), Some("second"));
}

#[test]
fn record_of_decodes_description() {
    let info = record_of(&raw("c7", 123, Some(encode("A", 7, "seventh step"))));
    assert_eq!(info.id, "c7");
    assert_eq!(info.created_at, 123);
    assert_eq!(info.message_index, 7);
    assert_eq!(info.session_id.as_deref(), Some("A"));
    assert_eq!(info.description.as_deref(), Some("seventh step"));
    assert_eq!(info.file_count, 1);
    assert_eq!(info.total_size, 10);

    let none = record_of(&raw("cn", 5, None));
    assert_eq!(none.session_id, None);
    assert_eq!(none.message_index, 0);
    assert_eq!(none.description.as_deref(), Some(""));
}

#[test]
fn record_checkpoint_appends_and_overwrites() {
    let mut m = TitorCheckpointManager::new("A".to_string(), Vec::new());
    m.record_checkpoint(1, "first try", reply("c1", 10));
    assert_eq!(m.get_checkpoint_at_message(1).as_deref(), Some("c1"));
    m.record_checkpoint(1, "second try", reply("c2", 20));
    assert_eq!(m.get_checkpoint_at_message(1).as_deref(), Some("c2"));

    let listed = m.list_checkpoints();
    assert_eq!(listed.len(), 2);
    let last = &listed[1];
    assert_eq!(last.id, "c2");
    assert_eq!(last.message_index, 1);
    assert_eq!(last.created_at, 20);
    assert_eq!(last.session_id.as_deref(), Some("A"));
    assert_eq!(last.description.as_deref(), Some("second try"));
    assert_eq!(last.file_count, 2);
    assert_eq!(last.total_size, 20);
}

#[test]
fn record_checkpoint_truncates_description() {
    let mut m = TitorCheckpointManager::new("A".to_string(), Vec::new());
    let msg: String = std::iter::repeat('z').take(150).collect();
    m.record_checkpoint(0, &msg, reply("c1", 10));
    let listed = m.list_checkpoints();
    let expected: String = std::iter::repeat('z').take(100).collect::<String>() + "...";
    assert_eq!(listed[0].description.as_deref(), Some(expected.as_str()));
}

#[test]
fn restore_preserves_later_checkpoints() {
    let mut m = TitorCheckpointManager::new("A".to_string(), Vec::new());
    m.record_checkpoint(0, "m0", reply("c1", 10));
    m.record_checkpoint(1, "m1", reply("c2", 20));
    m.record_checkpoint(2, "m2", reply("c3", 30));

    let outcome = m.restore_outcome(&"c1".to_string(), restore_reply(), 7);
    assert_eq!(outcome.message_index, 0);
    assert_eq!(outcome.files_restored, 4);
    assert_eq!(outcome.files_deleted, 1);
    assert_eq!(outcome.bytes_written, 2048);
    assert_eq!(outcome.duration_ms, 7);
    assert_eq!(outcome.warnings, vec!["w1".to_string()]);

    // Nothing after the restored point is unlisted or unresolvable.
    let listed = m.list_checkpoints();
    assert!(listed.iter().any(|cp| cp.id == "c2"));
    assert!(listed.iter().any(|cp| cp.id == "c3"));
    assert_eq!(m.get_checkpoint_at_message(2).as_deref(), Some("c3"));
}

#[test]
fn restore_of_unknown_checkpoint_defaults_to_zero() {
    let mut m = TitorCheckpointManager::new("A".to_string(), Vec::new());
    m.record_checkpoint(3, "m3", reply("c1", 10));
    let outcome = m.restore_outcome(&"someone-elses".to_string(), restore_reply(), 1);
    assert_eq!(outcome.message_index, 0);
}

#[test]
fn session_isolation_in_index() {
    let raws = vec![
        raw("ca", 100, Some(encode("A", 0, "from a"))),
        raw("cb", 200, Some(encode("B", 0, "from b"))),
        raw("cb2", 300, Some(encode("B", 1, "more b"))),
    ];
    let ma = TitorCheckpointManager::new("A".to_string(), raws);
    // Session B's checkpoints are listed but not indexed for A.
    assert_eq!(ma.get_checkpoint_at_message(0).as_deref(), Some("ca"));
    assert_eq!(ma.get_checkpoint_at_message(1), None);
    assert_eq!(ma.list_checkpoints().len(), 3);
}

#[test]
fn filter_by_session_keeps_own_records() {
    let raws = vec![
        raw("ca", 100, Some(encode("A", 0, "from a"))),
        raw("cb", 200, Some(encode("B", 0, "from b"))),
        raw("cx", 300, Some("junk".to_string())),
    ];
    let m = TitorCheckpointManager::new("A".to_string(), raws);
    let all = m.list_checkpoints();
    let own = filter_by_session(&all, &"A".to_string());
    assert_eq!(own.len(), 1);
    assert_eq!(own[0].id, "ca");
}

#[test]
fn checkpoint_description_matches_codec() {
    let m = TitorCheckpointManager::new("sess1".to_string(), Vec::new());
    assert_eq!(m.checkpoint_description(3, "Fixed the bug in parser"), encode(
        "sess1",
        3,
        "Fixed the bug in parser",
    ));
}

#[test]
fn fork_description_prefixes_session() {
    let m = TitorCheckpointManager::new("A".to_string(), Vec::new());
    assert_eq!(m.fork_description(Some("try again".to_string())).as_deref(), Some("[A] try again"));
    assert_eq!(m.fork_description(None), None);
}

#[test]
fn timeline_info_snapshots_cache() {
    let mut m = TitorCheckpointManager::new("A".to_string(), Vec::new());
    m.record_checkpoint(0, "m0", reply("c1", 10));
    let t = m.timeline_info(Some("c1".to_string()));
    assert_eq!(t.current_checkpoint_id.as_deref(), Some("c1"));
    assert_eq!(t.checkpoints.len(), 1);
    assert_eq!(t.checkpoints[0].id, "c1");
}
