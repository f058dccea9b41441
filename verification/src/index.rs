//! Per-session index and shared metadata cache.
//!
//! The index maps a message index to the checkpoint id created for it,
//! scoped to one session; inserting an index a second time overwrites the
//! earlier mapping.  The cache is the project-wide list of checkpoint
//! records spanning all sessions.  The index is modelled by a `Map` from
//! message index to the characters of the checkpoint id.

use vstd::prelude::*;
use crate::records::CheckpointInfo;

verus! {

/// The map described by an association list, later entries overwriting
/// earlier ones.
pub open spec fn spec_entries_map(m: Seq<(usize, String)>) -> Map<usize, Seq<char>>
    decreases m.len(),
{
    if m.len() == 0 {
        Map::empty()
    } else {
        spec_entries_map(m.drop_last()).insert(m.last().0, m.last().1@)
    }
}

/// No message index occurs twice among the entries.
pub open spec fn spec_unique_keys(m: Seq<(usize, String)>) -> bool {
    forall|i: int, j: int| 0 <= i < j < m.len() ==> m[i].0 != m[j].0
}

/// A key is in the map exactly when some entry carries it.
pub proof fn lemma_entries_map_domain(m: Seq<(usize, String)>)
    ensures
        forall|k: usize|
            spec_entries_map(m).contains_key(k) <==> exists|i: int|
                0 <= i < m.len() && (#[trigger] m[i]).0 == k,
    decreases m.len(),
{
    if m.len() > 0 {
        lemma_entries_map_domain(m.drop_last());
        assert(spec_entries_map(m) == spec_entries_map(m.drop_last()).insert(
            m.last().0,
            m.last().1@,
        ));
        assert forall|k: usize| spec_entries_map(m).contains_key(k) implies exists|i: int|
            0 <= i < m.len() && (#[trigger] m[i]).0 == k by {
            if k == m.last().0 {
                assert(m[m.len() - 1].0 == k);
            } else {
                assert(spec_entries_map(m.drop_last()).contains_key(k));
                let i = choose|i: int|
                    0 <= i < m.drop_last().len() && (#[trigger] m.drop_last()[i]).0 == k;
                assert(m.drop_last()[i] == m[i]);
                assert(m[i].0 == k);
            }
        }
        assert forall|k: usize|
            (exists|i: int| 0 <= i < m.len() && (#[trigger] m[i]).0 == k)
            implies spec_entries_map(m).contains_key(k) by {
            let i = choose|i: int| 0 <= i < m.len() && (#[trigger] m[i]).0 == k;
            if i < m.len() - 1 {
                assert(m.drop_last()[i] == m[i]);
                assert(m.drop_last()[i].0 == k);
                assert(spec_entries_map(m.drop_last()).contains_key(k));
            } else {
                assert(k == m.last().0);
            }
        }
    }
}

/// With unique keys, the map sends each entry's key to that entry's id.
pub proof fn lemma_entries_map_at(m: Seq<(usize, String)>, i: int)
    requires
        spec_unique_keys(m),
        0 <= i < m.len(),
    ensures
        spec_entries_map(m).contains_key(m[i].0),
        spec_entries_map(m)[m[i].0] == m[i].1@,
    decreases m.len(),
{
    if i == m.len() - 1 {
    } else {
        assert(spec_unique_keys(m.drop_last()));
        assert(m.drop_last()[i] == m[i]);
        lemma_entries_map_at(m.drop_last(), i);
        assert(m.last().0 != m[i].0);
    }
}

/// With unique keys, removing the entry at `i` removes exactly its key from
/// the map.
pub proof fn lemma_entries_map_remove(m: Seq<(usize, String)>, i: int)
    requires
        spec_unique_keys(m),
        0 <= i < m.len(),
    ensures
        spec_entries_map(m.remove(i)) == spec_entries_map(m).remove(m[i].0),
    decreases m.len(),
{
    let k = m[i].0;
    if i == m.len() - 1 {
        assert(m.remove(i) =~= m.drop_last());
        lemma_entries_map_domain(m.drop_last());
        assert forall|j: int| 0 <= j < m.drop_last().len()
            implies (#[trigger] m.drop_last()[j]).0 != k by {
            assert(m[j] == m.drop_last()[j]);
        }
        assert(!spec_entries_map(m.drop_last()).contains_key(k));
        assert(spec_entries_map(m).remove(k) =~= spec_entries_map(m.drop_last()));
    } else {
        assert(spec_unique_keys(m.drop_last()));
        assert(m.drop_last()[i] == m[i]);
        lemma_entries_map_remove(m.drop_last(), i);
        assert(m.remove(i).drop_last() =~= m.drop_last().remove(i));
        assert(m.remove(i).last() == m.last());
        assert(m.last().0 != k);
        assert(spec_entries_map(m.remove(i)) == spec_entries_map(m.drop_last()).remove(k).insert(
            m.last().0,
            m.last().1@,
        ));
        assert(spec_entries_map(m).remove(k) =~= spec_entries_map(m.drop_last()).remove(k).insert(
            m.last().0,
            m.last().1@,
        ));
    }
}

/// Per-session message-index map and the shared, project-wide record cache.
pub struct SessionIndex {
    /// Association list from message index to checkpoint id; keys unique.
    pub entries: Vec<(usize, String)>,
    /// Records of all checkpoints of the project, across sessions.
    pub cache: Vec<CheckpointInfo>,
}

impl SessionIndex {
    /// Keys are unique, so the entries describe a map faithfully.
    pub open spec fn wf(self) -> bool {
        spec_unique_keys(self.entries@)
    }

    /// The message-index map this index holds.
    pub open spec fn index_map(self) -> Map<usize, Seq<char>> {
        spec_entries_map(self.entries@)
    }

    /// An empty index with an empty cache.
    pub fn new() -> (r: Self)
        ensures
            r.wf(),
            r.index_map() == Map::<usize, Seq<char>>::empty(),
            r.cache@ == Seq::<CheckpointInfo>::empty(),
    {
        SessionIndex { entries: Vec::new(), cache: Vec::new() }
    }

    /// Map `message_index` to `id`, overwriting an earlier mapping for the
    /// same index; the cache is untouched.
    pub fn insert(&mut self, message_index: usize, id: String)
        requires
            old(self).wf(),
        ensures
            final(self).wf(),
            final(self).index_map() == old(self).index_map().insert(message_index, id@),
            final(self).cache@ == old(self).cache@,
    {
        let ghost m0 = self.entries@;
        let mut i: usize = 0;
        while i < self.entries.len()
            invariant
                spec_unique_keys(m0),
                m0 == old(self).entries@,
                self.entries@ == m0,
                self.cache@ == old(self).cache@,
                i <= m0.len(),
                forall|j: int| 0 <= j < i ==> (#[trigger] m0[j]).0 != message_index,
            decreases m0.len() - i,
        {
            if self.entries[i].0 == message_index {
                proof {
                    lemma_entries_map_remove(m0, i as int);
                }
                self.entries.remove(i);
                self.entries.push((message_index, id));
                proof {
                    let m1 = m0.remove(i as int);
                    assert forall|a: int, b: int|
                        0 <= a < b < m1.len() implies m1[a].0 != m1[b].0 by {
                        if b < i {
                            assert(m1[a] == m0[a] && m1[b] == m0[b]);
                        } else if a < i {
                            assert(m1[a] == m0[a] && m1[b] == m0[b + 1]);
                        } else {
                            assert(m1[a] == m0[a + 1] && m1[b] == m0[b + 1]);
                        }
                    }
                    assert forall|j: int| 0 <= j < m1.len()
                        implies (#[trigger] m1[j]).0 != message_index by {
                        if j < i {
                            assert(m1[j] == m0[j]);
                        } else {
                            assert(m1[j] == m0[j + 1]);
                        }
                    }
                    assert(self.entries@.drop_last() =~= m1);
                    assert(spec_entries_map(m1) == spec_entries_map(m0).remove(message_index));
                    assert(spec_entries_map(self.entries@) == spec_entries_map(m1).insert(
                        message_index,
                        id@,
                    ));
                    assert(spec_entries_map(m0).remove(message_index).insert(message_index, id@)
                        =~= spec_entries_map(m0).insert(message_index, id@));
                }
                return;
            }
            i = i + 1;
        }
        self.entries.push((message_index, id));
        proof {
            assert(self.entries@.drop_last() =~= m0);
        }
    }

    /// The checkpoint id mapped to `message_index`, when any.
    pub fn lookup(&self, message_index: usize) -> (r: Option<String>)
        requires
            self.wf(),
        ensures
            match r {
                Some(v) => self.index_map().contains_key(message_index) && v@ == self.index_map()[
                    message_index
                ],
                None => !self.index_map().contains_key(message_index),
            },
    {
        let mut i: usize = 0;
        while i < self.entries.len()
            invariant
                self.wf(),
                i <= self.entries@.len(),
                forall|j: int| 0 <= j < i ==> (#[trigger] self.entries@[j]).0 != message_index,
            decreases self.entries@.len() - i,
        {
            if self.entries[i].0 == message_index {
                proof {
                    lemma_entries_map_at(self.entries@, i as int);
                }
                return Some(self.entries[i].1.clone());
            }
            i = i + 1;
        }
        proof {
            lemma_entries_map_domain(self.entries@);
        }
        None
    }

    /// The message index mapped to `id`, when any; used to resolve the index
    /// of a restored checkpoint.
    pub fn index_of_id(&self, id: &String) -> (r: Option<usize>)
        requires
            self.wf(),
        ensures
            match r {
                Some(k) => self.index_map().contains_key(k) && self.index_map()[k] == id@,
                None => forall|k: usize|
                    self.index_map().contains_key(k) ==> self.index_map()[k] != id@,
            },
    {
        let mut i: usize = 0;
        while i < self.entries.len()
            invariant
                self.wf(),
                i <= self.entries@.len(),
                forall|j: int| 0 <= j < i ==> (#[trigger] self.entries@[j]).1@ != id@,
            decreases self.entries@.len() - i,
        {
            if self.entries[i].1.eq(id) {
                proof {
                    lemma_entries_map_at(self.entries@, i as int);
                }
                return Some(self.entries[i].0);
            }
            i = i + 1;
        }
        proof {
            lemma_entries_map_domain(self.entries@);
            assert forall|k: usize| self.index_map().contains_key(k)
                implies self.index_map()[k] != id@ by {
                let j = choose|j: int|
                    0 <= j < self.entries@.len() && (#[trigger] self.entries@[j]).0 == k;
                lemma_entries_map_at(self.entries@, j);
            }
        }
        None
    }

    /// Append one record to the cache; the index is untouched.
    pub fn push_record(&mut self, info: CheckpointInfo)
        ensures
            final(self).entries@ == old(self).entries@,
            final(self).cache@ == old(self).cache@.push(info),
    {
        self.cache.push(info);
    }

    /// A copy of the cached records.
    pub fn cache_snapshot(&self) -> (r: Vec<CheckpointInfo>)
        ensures
            r@ == self.cache@,
    {
        let mut r: Vec<CheckpointInfo> = Vec::new();
        let mut i: usize = 0;
        while i < self.cache.len()
            invariant
                i <= self.cache@.len(),
                r@ == self.cache@.subrange(0, i as int),
            decreases self.cache@.len() - i,
        {
            r.push(self.cache[i].clone());
            i = i + 1;
            proof {
                assert(r@ =~= self.cache@.subrange(0, i as int));
            }
        }
        proof {
            assert(r@ =~= self.cache@);
        }
        r
    }
}

} // verus!
