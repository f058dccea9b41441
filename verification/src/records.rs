//! Checkpoint metadata records and the store's plain replies.
//!
//! `RawCheckpoint` is what the store reports for one checkpoint: the
//! store-assigned id, a creation timestamp in milliseconds, the free-text
//! description, and size metadata.  `CheckpointInfo` is the derived record
//! this layer serves: the description decoded into a session id, a message
//! index and a cleaned label.

use vstd::prelude::*;
use crate::codec::{
    spec_decode_session, spec_decode_index, spec_clean_label, decode,
};

verus! {

/// One checkpoint as the store reports it.
#[derive(Debug, PartialEq)]
pub struct RawCheckpoint {
    /// Store-assigned, globally unique id.
    pub id: String,
    /// Creation time, milliseconds since the epoch.
    pub created_at: u64,
    /// Free-text description attached at creation, when any.
    pub description: Option<String>,
    /// Number of files in the checkpoint.
    pub file_count: usize,
    /// Total size of the files in bytes.
    pub total_size: u64,
}

/// Metadata record served for one checkpoint, with the description decoded.
#[derive(Debug, PartialEq)]
pub struct CheckpointInfo {
    /// Store-assigned checkpoint id.
    pub id: String,
    /// Message index decoded from the description; zero when absent.
    pub message_index: usize,
    /// Creation time, milliseconds since the epoch.
    pub created_at: u64,
    /// Session id decoded from the description; `None` when undecodable.
    pub session_id: Option<String>,
    /// Cleaned label decoded from the description.
    pub description: Option<String>,
    /// Number of files in the checkpoint.
    pub file_count: usize,
    /// Total size of the files in bytes.
    pub total_size: u64,
}

/// The store's reply to a checkpoint creation or fork.
#[derive(Debug, PartialEq)]
pub struct StoreCheckpointReply {
    /// Id of the checkpoint just created.
    pub id: String,
    /// Creation time, milliseconds since the epoch.
    pub created_at: u64,
    /// Number of files in the checkpoint.
    pub file_count: usize,
    /// Total size of the files in bytes.
    pub total_size: u64,
}

/// The store's reply to a restore.
#[derive(Debug, PartialEq)]
pub struct StoreRestoreReply {
    /// Number of files written back.
    pub files_restored: usize,
    /// Number of files deleted.
    pub files_deleted: usize,
    /// Total bytes written.
    pub bytes_written: u64,
    /// Warnings raised while restoring.
    pub warnings: Vec<String>,
}

/// Outcome of a restore, with the message index resolved for the caller.
#[derive(Debug, PartialEq)]
pub struct RestoreResult {
    /// Number of files written back.
    pub files_restored: usize,
    /// Number of files deleted.
    pub files_deleted: usize,
    /// Total bytes written.
    pub bytes_written: u64,
    /// Wall-clock duration of the restore in milliseconds.
    pub duration_ms: u64,
    /// Warnings raised while restoring.
    pub warnings: Vec<String>,
    /// Message index of the restored checkpoint; zero when it is not in the
    /// session's index.
    pub message_index: usize,
}

/// Timeline snapshot served from the cache.
#[derive(Debug, PartialEq)]
pub struct TimelineInfo {
    /// Id of the checkpoint the store currently stands on, when known.
    pub current_checkpoint_id: Option<String>,
    /// The cached records, all sessions included.
    pub checkpoints: Vec<CheckpointInfo>,
}

/// The characters of an optional description; an absent description decodes
/// like the empty string.
pub open spec fn spec_desc_chars(d: Option<String>) -> Seq<char> {
    match d {
        Some(s) => s@,
        None => Seq::<char>::empty(),
    }
}

/// `info` is the record derived from the store's `raw` checkpoint: ids and
/// sizes copied, session id, message index and label decoded from the
/// description.
pub open spec fn spec_record_of(raw: RawCheckpoint, info: CheckpointInfo) -> bool {
    let d = spec_desc_chars(raw.description);
    &&& info.id@ == raw.id@
    &&& info.created_at == raw.created_at
    &&& info.message_index == (match spec_decode_index(d) {
        Some(i) => i,
        None => 0usize,
    })
    &&& (match (info.session_id, spec_decode_session(d)) {
        (Some(s), Some(v)) => s@ == v,
        (None, None) => true,
        _ => false,
    })
    &&& (info.description matches Some(l) && l@ == spec_clean_label(d))
    &&& info.file_count == raw.file_count
    &&& info.total_size == raw.total_size
}

/// Derive the served record for one raw checkpoint by decoding its
/// description.
pub fn record_of(raw: &RawCheckpoint) -> (info: CheckpointInfo)
    ensures
        spec_record_of(*raw, info),
{
    let (session_id, index, label) = match &raw.description {
        Some(d) => decode(d.as_str()),
        None => (None, None, String::new()),
    };
    CheckpointInfo {
        id: raw.id.clone(),
        message_index: match index {
            Some(i) => i,
            None => 0,
        },
        created_at: raw.created_at,
        session_id,
        description: Some(label),
        file_count: raw.file_count,
        total_size: raw.total_size,
    }
}

impl Clone for CheckpointInfo {
    /// A clone carries exactly the same record.
    fn clone(&self) -> (res: Self)
        ensures
            res == *self,
    {
        CheckpointInfo {
            id: self.id.clone(),
            message_index: self.message_index,
            created_at: self.created_at,
            session_id: match &self.session_id {
                Some(s) => Some(s.clone()),
                None => None,
            },
            description: match &self.description {
                Some(s) => Some(s.clone()),
                None => None,
            },
            file_count: self.file_count,
            total_size: self.total_size,
        }
    }
}

} // verus!
