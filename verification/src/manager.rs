//! Per-session checkpoint manager: index maintenance and cache rebuilds.
//!
//! A manager serves a single session over the shared store.  Callers drive
//! the store themselves (its operations do file I/O) and hand the plain
//! replies to the functions here: a raw checkpoint listing rebuilds the
//! cache and the session's index; a creation reply is recorded into both; a
//! restore reply is turned into an outcome with the message index resolved.
//! Computing a restore outcome takes the manager immutably: restoring never
//! unlists checkpoints created after the restored point.

use vstd::prelude::*;
use vstd::multiset::Multiset;
use vstd::seq_lib::group_to_multiset_ensures;
use crate::chars::{str_to_chars, chars_to_string};
use crate::codec::{
    spec_encode, spec_truncate, spec_decode_session, spec_decode_index, encode, decode,
    truncate_chars,
};
use crate::index::SessionIndex;
use crate::records::{
    RawCheckpoint, CheckpointInfo, StoreCheckpointReply, StoreRestoreReply, RestoreResult,
    TimelineInfo, spec_desc_chars, spec_record_of,
};

verus! {

broadcast use group_to_multiset_ensures;

/// Cache order: newest first by creation time.
pub open spec fn spec_sorted_desc(s: Seq<CheckpointInfo>) -> bool {
    forall|i: int, j: int| 0 <= i < j < s.len() ==> s[i].created_at >= s[j].created_at
}

/// The session's index as rebuilt from a raw listing: walk the records in
/// order and map each decoded message index to its checkpoint id whenever
/// the decoded session id is `sid`, later records overwriting earlier ones.
pub open spec fn spec_rebuild_map(raws: Seq<RawCheckpoint>, sid: Seq<char>) -> Map<usize, Seq<char>>
    decreases raws.len(),
{
    if raws.len() == 0 {
        Map::empty()
    } else {
        let m = spec_rebuild_map(raws.drop_last(), sid);
        let d = spec_desc_chars(raws.last().description);
        match (spec_decode_session(d), spec_decode_index(d)) {
            (Some(s), Some(idx)) => if s == sid {
                m.insert(idx, raws.last().id@)
            } else {
                m
            },
            _ => m,
        }
    }
}

/// Every mapping of a rebuilt index comes from a record whose description
/// decodes to this session and this message index.
pub proof fn lemma_rebuild_map_membership(raws: Seq<RawCheckpoint>, sid: Seq<char>)
    ensures
        forall|k: usize|
            #[trigger] spec_rebuild_map(raws, sid).contains_key(k) ==> exists|i: int|
                0 <= i < raws.len() && spec_decode_session(
                    spec_desc_chars(#[trigger] raws[i].description),
                ) == Some(sid) && spec_decode_index(spec_desc_chars(raws[i].description)) == Some(k)
                    && spec_rebuild_map(raws, sid)[k] == raws[i].id@,
    decreases raws.len(),
{
    if raws.len() > 0 {
        lemma_rebuild_map_membership(raws.drop_last(), sid);
        let d = spec_desc_chars(raws.last().description);
        assert forall|k: usize| #[trigger] spec_rebuild_map(raws, sid).contains_key(k)
            implies exists|i: int|
                0 <= i < raws.len() && spec_decode_session(
                    spec_desc_chars(#[trigger] raws[i].description),
                ) == Some(sid) && spec_decode_index(spec_desc_chars(raws[i].description)) == Some(k)
                    && spec_rebuild_map(raws, sid)[k] == raws[i].id@ by {
            let last_hit = spec_decode_session(d) == Some(sid) && spec_decode_index(d) == Some(k);
            if last_hit {
                assert(raws[raws.len() - 1].description == raws.last().description);
                assert(raws[raws.len() - 1].id == raws.last().id);
            } else {
                assert(spec_rebuild_map(raws.drop_last(), sid).contains_key(k));
                assert(spec_rebuild_map(raws, sid)[k] == spec_rebuild_map(raws.drop_last(), sid)[k]);
                let i = choose|i: int|
                    0 <= i < raws.drop_last().len() && spec_decode_session(
                        spec_desc_chars(#[trigger] raws.drop_last()[i].description),
                    ) == Some(sid) && spec_decode_index(
                        spec_desc_chars(raws.drop_last()[i].description),
                    ) == Some(k) && spec_rebuild_map(raws.drop_last(), sid)[k]
                        == raws.drop_last()[i].id@;
                assert(raws.drop_last()[i] == raws[i]);
            }
        }
    }
}

/// Session isolation: an id that occurs only in records decoding to session
/// `sid_a` is never a value of another session's rebuilt index.
pub proof fn lemma_session_isolation(
    raws: Seq<RawCheckpoint>,
    sid_a: Seq<char>,
    sid_b: Seq<char>,
    id: Seq<char>,
)
    requires
        sid_a != sid_b,
        forall|i: int|
            0 <= i < raws.len() && (#[trigger] raws[i].id)@ == id ==> spec_decode_session(
                spec_desc_chars(raws[i].description),
            ) == Some(sid_a),
    ensures
        forall|k: usize|
            #[trigger] spec_rebuild_map(raws, sid_b).contains_key(k) ==> spec_rebuild_map(
                raws,
                sid_b,
            )[k] != id,
{
    lemma_rebuild_map_membership(raws, sid_b);
    assert forall|k: usize| #[trigger] spec_rebuild_map(raws, sid_b).contains_key(k)
        implies spec_rebuild_map(raws, sid_b)[k] != id by {
        let i = choose|i: int|
            0 <= i < raws.len() && spec_decode_session(
                spec_desc_chars(#[trigger] raws[i].description),
            ) == Some(sid_b) && spec_decode_index(spec_desc_chars(raws[i].description)) == Some(k)
                && spec_rebuild_map(raws, sid_b)[k] == raws[i].id@;
        if raws[i].id@ == id {
            assert(spec_decode_session(spec_desc_chars(raws[i].description)) == Some(sid_a));
        }
    }
}

/// Moving one element from `b` to `a` leaves their union unchanged.
proof fn lemma_multiset_transfer<T>(a: Multiset<T>, b: Multiset<T>, x: T)
    requires
        b.count(x) > 0,
    ensures
        a.insert(x).add(b.remove(x)) == a.add(b),
{
    assert(a.insert(x).add(b.remove(x)) =~= a.add(b));
}

/// Sort records newest first by creation time.
fn sort_by_created_desc(v: Vec<CheckpointInfo>) -> (r: Vec<CheckpointInfo>)
    ensures
        spec_sorted_desc(r@),
        r@.to_multiset() == v@.to_multiset(),
        r@.len() == v@.len(),
{
    let mut src = v;
    let ghost all = src@.to_multiset();
    let mut r: Vec<CheckpointInfo> = Vec::new();
    proof {
        assert(r@.to_multiset().add(src@.to_multiset()) =~= all);
    }
    while src.len() > 0
        invariant
            all == v@.to_multiset(),
            r@.to_multiset().add(src@.to_multiset()) == all,
            r@.len() + src@.len() == v@.len(),
            spec_sorted_desc(r@),
            forall|x: int, y: int|
                0 <= x < r@.len() && 0 <= y < src@.len() ==> r@[x].created_at
                    >= src@[y].created_at,
        decreases src@.len(),
    {
        // Pick the newest remaining record.
        let mut best: usize = 0;
        let mut j: usize = 1;
        while j < src.len()
            invariant
                src@.len() > 0,
                best < j <= src@.len(),
                forall|y: int| 0 <= y < j ==> src@[best as int].created_at >= src@[y].created_at,
            decreases src@.len() - j,
        {
            if src[j].created_at > src[best].created_at {
                best = j;
            }
            j = j + 1;
        }
        let ghost src0 = src@;
        let e = src.remove(best);
        r.push(e);
        proof {
            assert(src0.to_multiset().count(e) > 0) by {
                assert(src0.contains(e));
            }
            lemma_multiset_transfer(r@.drop_last().to_multiset(), src0.to_multiset(), e);
            assert(r@.drop_last().push(e) =~= r@);
            assert forall|y: int| 0 <= y < src@.len()
                implies e.created_at >= src@[y].created_at by {
                if y < best {
                    assert(src@[y] == src0[y]);
                } else {
                    assert(src@[y] == src0[y + 1]);
                }
            }
        }
    }
    proof {
        assert(src@.to_multiset() =~= Multiset::<CheckpointInfo>::empty());
        assert(r@.to_multiset().add(Multiset::<CheckpointInfo>::empty()) =~= r@.to_multiset());
    }
    r
}

/// Manager of one session's checkpoints over the shared store.
pub struct TitorCheckpointManager {
    /// The session this manager serves.
    pub session_id: String,
    /// The session's message-index map and the shared record cache.
    pub index: SessionIndex,
}

impl TitorCheckpointManager {
    /// The index's keys are unique.
    pub open spec fn wf(self) -> bool {
        self.index.wf()
    }

    /// The session's message-index map.
    pub open spec fn index_map(self) -> Map<usize, Seq<char>> {
        self.index.index_map()
    }

    /// The cached records, all sessions included.
    pub open spec fn cache(self) -> Seq<CheckpointInfo> {
        self.index.cache@
    }

    /// The cache holds one derived record per raw record, newest first, and
    /// the index maps exactly the message indices decoded for session `sid`.
    pub open spec fn spec_refreshed(self, raws: Seq<RawCheckpoint>, sid: Seq<char>) -> bool {
        &&& self.session_id@ == sid
    &&& self.index_map() == spec_rebuild_map(raws, sid)
    &&& self.cache().len() == raws.len()
    &&& spec_sorted_desc(self.cache())
    &&& exists|pre: Seq<CheckpointInfo>|
        pre.len() == raws.len() && (forall|i: int|
            0 <= i < raws.len() ==> spec_record_of(raws[i], #[trigger] pre[i]))
            && self.cache().to_multiset() == pre.to_multiset()
    }

    /// A manager for `session_id`, its cache and index rebuilt from the raw
    /// listing the store reported.
    pub fn new(session_id: String, raws: Vec<RawCheckpoint>) -> (r: Self)
        ensures
            r.wf(),
            r.spec_refreshed(raws@, session_id@),
    {
        let mut m = TitorCheckpointManager { session_id, index: SessionIndex::new() };
        m.refresh_checkpoints(raws);
        m
    }

    /// Rebuild the cache and the session's index from a raw listing: decode
    /// every description, keep one record per checkpoint sorted newest
    /// first, and index the records of this session by message index.
    pub fn refresh_checkpoints(&mut self, raws: Vec<RawCheckpoint>)
        ensures
            final(self).wf(),
            final(self).session_id@ == old(self).session_id@,
            final(self).spec_refreshed(raws@, old(self).session_id@),
    {
        let mut infos: Vec<CheckpointInfo> = Vec::new();
        let mut fresh = SessionIndex::new();
        let mut i: usize = 0;
        while i < raws.len()
            invariant
                i <= raws@.len(),
                fresh.wf(),
                fresh.index_map() == spec_rebuild_map(
                    raws@.subrange(0, i as int),
                    self.session_id@,
                ),
                infos@.len() == i,
                forall|j: int|
                    0 <= j < i ==> spec_record_of(raws@[j], #[trigger] infos@[j]),
                self == old(self),
            decreases raws@.len() - i,
        {
            let raw = &raws[i];
            let (session_id, idx_opt, label) = match &raw.description {
                Some(d) => decode(d.as_str()),
                None => (None, None, String::new()),
            };
            let matches_own = match (&session_id, &idx_opt) {
                (Some(s), Some(_)) => s.eq(&self.session_id),
                _ => false,
            };
            if matches_own {
                let idx = match idx_opt {
                    Some(x) => x,
                    None => 0,
                };
                fresh.insert(idx, raw.id.clone());
            }
            infos.push(CheckpointInfo {
                id: raw.id.clone(),
                message_index: match &idx_opt {
                    Some(x) => *x,
                    None => 0,
                },
                created_at: raw.created_at,
                session_id,
                description: Some(label),
                file_count: raw.file_count,
                total_size: raw.total_size,
            });
            i = i + 1;
            proof {
                assert(raws@.subrange(0, i as int).drop_last() =~= raws@.subrange(0, i - 1));
                assert(raws@.subrange(0, i as int).last() == raws@[i - 1]);
            }
        }
        proof {
            assert(raws@.subrange(0, raws@.len() as int) =~= raws@);
        }
        let ghost pre = infos@;
        let sorted = sort_by_created_desc(infos);
        fresh.cache = sorted;
        self.index = fresh;
        proof {
            // `pre`, the records in listing order, witnesses the cache's
            // content: the sort only reordered it.
            assert(pre.len() == raws@.len() && (forall|i: int|
                0 <= i < raws@.len() ==> spec_record_of(raws@[i], #[trigger] pre[i]))
                && self.index.cache@.to_multiset() == pre.to_multiset());
        }
    }

    /// The description to hand the store for a new checkpoint: session id,
    /// message index and the message, encoded by the codec.
    pub fn checkpoint_description(&self, message_index: usize, message: &str) -> (r: String)
        ensures
            r@ == spec_encode(self.session_id@, message_index, message@),
    {
        encode(self.session_id.as_str(), message_index, message)
    }

    /// Record a checkpoint the store just created: map the message index to
    /// the new id (overwriting an earlier mapping) and append the record to
    /// the cache, its description the capped message without the prefix.
    pub fn record_checkpoint(
        &mut self,
        message_index: usize,
        message: &str,
        reply: StoreCheckpointReply,
    )
        requires
            old(self).wf(),
        ensures
            final(self).wf(),
            final(self).session_id@ == old(self).session_id@,
            final(self).index_map() == old(self).index_map().insert(message_index, reply.id@),
            final(self).cache() == old(self).cache().push(final(self).cache().last()),
            ({
                let info = final(self).cache().last();
                &&& info.id@ == reply.id@
                &&& info.message_index == message_index
                &&& info.created_at == reply.created_at
                &&& (info.session_id matches Some(s) && s@ == old(self).session_id@)
                &&& (info.description matches Some(d) && d@ == spec_truncate(message@))
                &&& info.file_count == reply.file_count
                &&& info.total_size == reply.total_size
            }),
    {
        let msg_chars = str_to_chars(message);
        let capped = truncate_chars(&msg_chars);
        let truncated = chars_to_string(&capped);
        self.index.insert(message_index, reply.id.clone());
        self.index.push_record(
            CheckpointInfo {
                id: reply.id,
                message_index,
                created_at: reply.created_at,
                session_id: Some(self.session_id.clone()),
                description: Some(truncated),
                file_count: reply.file_count,
                total_size: reply.total_size,
            },
        );
    }

    /// The checkpoint id recorded for a message index; a pure lookup, no
    /// store access.
    pub fn get_checkpoint_at_message(&self, message_index: usize) -> (r: Option<String>)
        requires
            self.wf(),
        ensures
            match r {
                Some(v) => self.index_map().contains_key(message_index) && v@ == self.index_map()[
                    message_index
                ],
                None => !self.index_map().contains_key(message_index),
            },
    {
        self.index.lookup(message_index)
    }

    /// The restore outcome for the store's reply: counts and warnings
    /// passed through, the message index resolved from the session's index,
    /// zero when the restored checkpoint is not in it.  The manager is read,
    /// never changed: every checkpoint, including those created after the
    /// restored point, stays listed and resolvable.
    pub fn restore_outcome(
        &self,
        checkpoint_id: &String,
        reply: StoreRestoreReply,
        duration_ms: u64,
    ) -> (r: RestoreResult)
        requires
            self.wf(),
        ensures
            r.files_restored == reply.files_restored,
            r.files_deleted == reply.files_deleted,
            r.bytes_written == reply.bytes_written,
            r.duration_ms == duration_ms,
            r.warnings@ == reply.warnings@,
            (self.index_map().contains_key(r.message_index) && self.index_map()[r.message_index]
                == checkpoint_id@) || (r.message_index == 0 && forall|k: usize|
                self.index_map().contains_key(k) ==> self.index_map()[k] != checkpoint_id@),
    {
        let message_index = match self.index.index_of_id(checkpoint_id) {
            Some(k) => k,
            None => 0,
        };
        RestoreResult {
            files_restored: reply.files_restored,
            files_deleted: reply.files_deleted,
            bytes_written: reply.bytes_written,
            duration_ms,
            warnings: reply.warnings,
            message_index,
        }
    }

    /// The current cache snapshot, project-wide; callers wanting one
    /// session's records filter on the session id themselves.
    pub fn list_checkpoints(&self) -> (r: Vec<CheckpointInfo>)
        ensures
            r@ == self.cache(),
    {
        self.index.cache_snapshot()
    }

    /// The description to hand the store for a fork: the optional caller
    /// description prefixed with `[<session id>] `.
    pub fn fork_description(&self, description: Option<String>) -> (r: Option<String>)
        ensures
            r is Some <==> description is Some,
            (match (description, r) {
                (Some(d), Some(f)) => f@ == seq!['['] + self.session_id@ + seq![']', ' '] + d@,
                (None, None) => true,
                _ => false,
            }),
    {
        match description {
            None => None,
            Some(d) => {
                let sid = str_to_chars(self.session_id.as_str());
                let dch = str_to_chars(d.as_str());
                let mut out: Vec<char> = Vec::new();
                out.push('[');
                let mut i: usize = 0;
                while i < sid.len()
                    invariant
                        i <= sid@.len(),
                        out@ == seq!['['] + sid@.subrange(0, i as int),
                    decreases sid@.len() - i,
                {
                    out.push(sid[i]);
                    i = i + 1;
                    proof {
                        assert(out@ =~= seq!['['] + sid@.subrange(0, i as int));
                    }
                }
                out.push(']');
                out.push(' ');
                let mut j: usize = 0;
                let ghost head = out@;
                while j < dch.len()
                    invariant
                        j <= dch@.len(),
                        out@ == head + dch@.subrange(0, j as int),
                    decreases dch@.len() - j,
                {
                    out.push(dch[j]);
                    j = j + 1;
                    proof {
                        assert(out@ =~= head + dch@.subrange(0, j as int));
                    }
                }
                proof {
                    assert(sid@.subrange(0, sid@.len() as int) =~= sid@);
                    assert(dch@.subrange(0, dch@.len() as int) =~= dch@);
                    assert(out@ =~= seq!['['] + self.session_id@ + seq![']', ' '] + d@);
                }
                Some(chars_to_string(&out))
            },
        }
    }

    /// The timeline served to callers: the store's current checkpoint id
    /// beside the cache snapshot.
    pub fn timeline_info(&self, current_checkpoint_id: Option<String>) -> (r: TimelineInfo)
        ensures
            r.current_checkpoint_id == current_checkpoint_id,
            r.checkpoints@ == self.cache(),
    {
        TimelineInfo { current_checkpoint_id, checkpoints: self.index.cache_snapshot() }
    }
}

/// The records of one session: those whose decoded session id equals
/// `session_id`.
pub fn filter_by_session(records: &Vec<CheckpointInfo>, session_id: &String) -> (r: Vec<
    CheckpointInfo,
>)
    ensures
        r@ == records@.filter(
            |cp: CheckpointInfo| cp.session_id matches Some(s) && s@ == session_id@,
        ),
{
    let ghost pred = |cp: CheckpointInfo| cp.session_id matches Some(s) && s@ == session_id@;
    let mut r: Vec<CheckpointInfo> = Vec::new();
    let mut i: usize = 0;
    proof {
        reveal(Seq::filter);
    }
    while i < records.len()
        invariant
            i <= records@.len(),
            r@ == records@.subrange(0, i as int).filter(pred),
            pred == (|cp: CheckpointInfo| cp.session_id matches Some(s) && s@ == session_id@),
        decreases records@.len() - i,
    {
        let keep = match &records[i].session_id {
            Some(s) => s.eq(session_id),
            None => false,
        };
        proof {
            reveal(Seq::filter);
            assert(records@.subrange(0, i + 1).drop_last() =~= records@.subrange(0, i as int));
            assert(records@.subrange(0, i + 1).last() == records@[i as int]);
        }
        if keep {
            r.push(records[i].clone());
        }
        i = i + 1;
    }
    proof {
        assert(records@.subrange(0, records@.len() as int) =~= records@);
    }
    r
}

/// Restore non-destructiveness: computing a restore outcome reads the
/// manager immutably, so the state here is also the state after any number
/// of restores.  After three checkpoints recorded at message indices zero,
/// one and two, the cache still holds the second and third records and the
/// index still resolves index two to the third id.
pub proof fn lemma_restore_preserves_history(
    m: TitorCheckpointManager,
    base_map: Map<usize, Seq<char>>,
    base_cache: Seq<CheckpointInfo>,
    r1: CheckpointInfo,
    r2: CheckpointInfo,
    r3: CheckpointInfo,
)
    requires
        m.index_map() == base_map.insert(0usize, r1.id@).insert(1usize, r2.id@).insert(
            2usize,
            r3.id@,
        ),
        m.cache() == base_cache.push(r1).push(r2).push(r3),
    ensures
        m.cache().contains(r2),
        m.cache().contains(r3),
        m.index_map().contains_key(2usize),
        m.index_map()[2usize] == r3.id@,
{
    let n = base_cache.len() as int;
    assert(m.cache()[n + 1] == r2);
    assert(m.cache()[n + 2] == r3);
}

} // verus!
