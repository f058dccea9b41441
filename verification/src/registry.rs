//! Process-wide registry of per-session managers.
//!
//! One manager exists per session id; a caller resolves its session's
//! manager here, constructing one (and opening the store) only when the
//! session is not yet present.  Uniqueness of the entry per session id is
//! the registry's invariant; the lemma at the end states that a repeated
//! resolution can only land on the same entry.  A session must be present
//! before any other operation; the lookups here answer with a
//! session-not-initialized error otherwise.

use vstd::prelude::*;
use crate::manager::{TitorCheckpointManager, filter_by_session};
use crate::records::CheckpointInfo;

verus! {

/// Registry of managers, one per session id.
pub struct CheckpointState {
    /// Association list from session id to its manager; keys unique.
    pub managers: Vec<(String, TitorCheckpointManager)>,
}

impl CheckpointState {
    /// Session ids are unique, every manager is well formed, and each entry
    /// holds the manager of its own session.
    pub open spec fn wf(self) -> bool {
        &&& forall|i: int, j: int|
            0 <= i < j < self.managers@.len() ==> (#[trigger] self.managers@[i]).0@ != (
            #[trigger] self.managers@[j]).0@
        &&& forall|i: int|
            0 <= i < self.managers@.len() ==> (#[trigger] self.managers@[i]).1.wf() && self.managers@[i].1.session_id@
                == self.managers@[i].0@
    }

    /// A manager for this session id is registered.
    pub open spec fn spec_has_session(self, sid: Seq<char>) -> bool {
        exists|i: int| 0 <= i < self.managers@.len() && (#[trigger] self.managers@[i]).0@ == sid
    }

    /// An empty registry.
    pub fn new() -> (r: Self)
        ensures
            r.wf(),
            r.managers@.len() == 0,
    {
        CheckpointState { managers: Vec::new() }
    }

    /// Position of the session's entry, when registered.
    pub fn find_manager(&self, session_id: &String) -> (r: Option<usize>)
        ensures
            match r {
                Some(i) => i < self.managers@.len() && self.managers@[i as int].0@ == session_id@,
                None => !self.spec_has_session(session_id@),
            },
    {
        let mut i: usize = 0;
        while i < self.managers.len()
            invariant
                i <= self.managers@.len(),
                forall|j: int| 0 <= j < i ==> (#[trigger] self.managers@[j]).0@ != session_id@,
            decreases self.managers@.len() - i,
        {
            if self.managers[i].0.eq(session_id) {
                return Some(i);
            }
            i = i + 1;
        }
        None
    }

    /// The manager at a position found by `find_manager`.
    pub fn manager_at(&self, i: usize) -> (r: &TitorCheckpointManager)
        requires
            i < self.managers@.len(),
        ensures
            *r == self.managers@[i as int].1,
    {
        &self.managers[i].1
    }

    /// Register a freshly constructed manager for a session that has none
    /// yet.
    pub fn insert_manager(&mut self, manager: TitorCheckpointManager)
        requires
            old(self).wf(),
            manager.wf(),
            !old(self).spec_has_session(manager.session_id@),
        ensures
            final(self).wf(),
            final(self).managers@.len() == old(self).managers@.len() + 1,
            final(self).managers@.drop_last() == old(self).managers@,
            final(self).managers@.last().0@ == manager.session_id@,
            final(self).managers@.last().1 == manager,
            final(self).spec_has_session(manager.session_id@),
    {
        let key = manager.session_id.clone();
        self.managers.push((key, manager));
        proof {
            assert(self.managers@.drop_last() =~= old(self).managers@);
            let n = self.managers@.len() - 1;
            assert(self.managers@[n].0@ == manager.session_id@);
            assert forall|i: int, j: int|
                0 <= i < j < self.managers@.len() implies (#[trigger] self.managers@[i]).0@ != (
            #[trigger] self.managers@[j]).0@ by {
                if j < n {
                    assert(self.managers@[i] == old(self).managers@[i]);
                    assert(self.managers@[j] == old(self).managers@[j]);
                } else {
                    assert(self.managers@[i] == old(self).managers@[i]);
                }
            }
        }
    }

    /// The checkpoint id recorded for a message index of a session, or a
    /// session-not-initialized error.
    pub fn checkpoint_at_message(&self, session_id: &String, message_index: usize) -> (r: Result<
        Option<String>,
        String,
    >)
        requires
            self.wf(),
        ensures
            r matches Err(e) ==> !self.spec_has_session(session_id@) && e@
                == "Session not initialized"@,
            r matches Ok(o) ==> exists|i: int|
                0 <= i < self.managers@.len() && (#[trigger] self.managers@[i]).0@ == session_id@
                    && (match o {
                    Some(v) => self.managers@[i].1.index_map().contains_key(message_index)
                        && v@ == self.managers@[i].1.index_map()[message_index],
                    None => !self.managers@[i].1.index_map().contains_key(message_index),
                }),
    {
        match self.find_manager(session_id) {
            None => Err(String::from_str("Session not initialized")),
            Some(i) => {
                let ghost gi = i as int;
                let r = self.manager_at(i).get_checkpoint_at_message(message_index);
                proof {
                    assert(0 <= gi < self.managers@.len() && self.managers@[gi].0@ == session_id@);
                }
                Ok(r)
            },
        }
    }

    /// The session's own records: the cache of its manager filtered to the
    /// records whose decoded session id is this session's; or a
    /// session-not-initialized error.
    pub fn list_session_checkpoints(&self, session_id: &String) -> (r: Result<
        Vec<CheckpointInfo>,
        String,
    >)
        requires
            self.wf(),
        ensures
            r matches Err(e) ==> !self.spec_has_session(session_id@) && e@
                == "Session not initialized"@,
            r matches Ok(v) ==> exists|i: int|
                0 <= i < self.managers@.len() && (#[trigger] self.managers@[i]).0@ == session_id@
                    && v@ == self.managers@[i].1.cache().filter(
                    |cp: CheckpointInfo| cp.session_id matches Some(s) && s@ == session_id@,
                ),
    {
        match self.find_manager(session_id) {
            None => Err(String::from_str("Session not initialized")),
            Some(i) => {
                let ghost gi = i as int;
                let all = self.manager_at(i).list_checkpoints();
                let own = filter_by_session(&all, session_id);
                proof {
                    assert(0 <= gi < self.managers@.len() && self.managers@[gi].0@ == session_id@);
                }
                Ok(own)
            },
        }
    }
}

/// The ignore patterns a freshly created store is configured with.
pub fn default_ignore_patterns() -> (r: Vec<String>)
    ensures
        r@.len() == 9,
        r@[0]@ == ".git"@,
        r@[1]@ == ".titor"@,
        r@[2]@ == "node_modules"@,
        r@[3]@ == "target"@,
        r@[4]@ == "dist"@,
        r@[5]@ == "build"@,
        r@[6]@ == ".next"@,
        r@[7]@ == "__pycache__"@,
        r@[8]@ == "*.log"@,
{
    let mut r: Vec<String> = Vec::new();
    r.push(String::from_str(".git"));
    r.push(String::from_str(".titor"));
    r.push(String::from_str("node_modules"));
    r.push(String::from_str("target"));
    r.push(String::from_str("dist"));
    r.push(String::from_str("build"));
    r.push(String::from_str(".next"));
    r.push(String::from_str("__pycache__"));
    r.push(String::from_str("*.log"));
    r
}

/// The file extensions the adaptive compression policy skips.
pub fn compression_skip_extensions() -> (r: Vec<String>)
    ensures
        r@.len() == 11,
        r@[0]@ == "jpg"@,
        r@[1]@ == "jpeg"@,
        r@[2]@ == "png"@,
        r@[3]@ == "gif"@,
        r@[4]@ == "mp4"@,
        r@[5]@ == "mp3"@,
        r@[6]@ == "zip"@,
        r@[7]@ == "gz"@,
        r@[8]@ == "bz2"@,
        r@[9]@ == "7z"@,
        r@[10]@ == "rar"@,
{
    let mut r: Vec<String> = Vec::new();
    r.push(String::from_str("jpg"));
    r.push(String::from_str("jpeg"));
    r.push(String::from_str("png"));
    r.push(String::from_str("gif"));
    r.push(String::from_str("mp4"));
    r.push(String::from_str("mp3"));
    r.push(String::from_str("zip"));
    r.push(String::from_str("gz"));
    r.push(String::from_str("bz2"));
    r.push(String::from_str("7z"));
    r.push(String::from_str("rar"));
    r
}

/// The smallest file size, in bytes, the adaptive compression policy
/// compresses.
pub fn compression_min_size() -> (r: u64)
    ensures
        r == 4096,
{
    4096
}

/// Idempotent registry: a well-formed registry holds at most one manager
/// per session id, so resolving the same session twice lands on the same
/// entry, and registering a second manager for it is ruled out by
/// `insert_manager`'s precondition.
pub proof fn lemma_registry_unique(st: CheckpointState, i: int, j: int)
    requires
        st.wf(),
        0 <= i < st.managers@.len(),
        0 <= j < st.managers@.len(),
        st.managers@[i].0@ == st.managers@[j].0@,
    ensures
        i == j,
{
    if i < j {
        assert(st.managers@[i].0@ != st.managers@[j].0@);
    }
    if j < i {
        assert(st.managers@[j].0@ != st.managers@[i].0@);
    }
}

} // verus!
