use vstd::map::*;
use vstd::prelude::*;

use crate::identity::NodeId;

verus! {

/// Reachability of a peer held by the directory.
#[derive(Clone, Copy, Debug, PartialEq, Eq, Structural)]
pub enum PeerStatus {
    /// Handed over at seeding as a bootstrap contact, not yet reported live.
    Known,
    /// Reported present by a discovery event.
    Live,
}

/// One directory entry: a peer's identifier and its reachability.
struct PeerEntry {
    id: NodeId,
    status: PeerStatus,
}

/// Whether a sequence of entries holds pairwise distinct identifiers.
spec fn ids_unique(s: Seq<PeerEntry>) -> bool {
    forall|i: int, j: int| 0 <= i < j < s.len() ==> s[i].id@ != s[j].id@
}

/// Whether some entry carries the identifier `x`.
spec fn seq_has(s: Seq<PeerEntry>, x: Seq<u8>) -> bool {
    exists|i: int| 0 <= i < s.len() && s[i].id@ == x
}

/// The index of the entry carrying `x`, when one exists.
spec fn index_of(s: Seq<PeerEntry>, x: Seq<u8>) -> int {
    choose|i: int| 0 <= i < s.len() && s[i].id@ == x
}

/// The mapping a sequence of entries represents.
spec fn dir_view(s: Seq<PeerEntry>) -> Map<Seq<u8>, PeerStatus> {
    Map::new(|x: Seq<u8>| seq_has(s, x), |x: Seq<u8>| s[index_of(s, x)].status)
}

/// The live set of known peers, keyed by identifier: a mapping from each
/// peer's identifier to its reachability state. Keys are unique; entries are
/// added by seeding or discovery and removed on loss.
pub struct PeerDirectory {
    entries: Vec<PeerEntry>,
}

impl View for PeerDirectory {
    type V = Map<Seq<u8>, PeerStatus>;

    closed spec fn view(&self) -> Map<Seq<u8>, PeerStatus> {
        dir_view(self.entries@)
    }
}

/// With distinct identifiers, the entry found at an index is the one the
/// directory's mapping answers for that identifier.
proof fn lemma_index_unique(s: Seq<PeerEntry>, i: int)
    requires
        ids_unique(s),
        0 <= i < s.len(),
    ensures
        seq_has(s, s[i].id@),
        index_of(s, s[i].id@) == i,
{
    let x = s[i].id@;
    assert(0 <= i < s.len() && s[i].id@ == x);
    assert(seq_has(s, x));
    let j = index_of(s, x);
    assert(0 <= j < s.len() && s[j].id@ == x);
    if i < j {
        assert(s[i].id@ != s[j].id@);
    } else if j < i {
        assert(s[j].id@ != s[i].id@);
    }
}

/// Replacing the entry at an index by one with the same identifier keeps the
/// identifiers distinct and updates the mapping at that identifier alone.
proof fn lemma_dir_view_set(s: Seq<PeerEntry>, i: int, e: PeerEntry)
    requires
        ids_unique(s),
        0 <= i < s.len(),
        s[i].id@ == e.id@,
    ensures
        ids_unique(s.update(i, e)),
        dir_view(s.update(i, e)) == dir_view(s).insert(e.id@, e.status),
{
    let t = s.update(i, e);
    assert forall|a: int, b: int| 0 <= a < b < t.len() implies t[a].id@ != t[b].id@ by {
        assert(t[a].id@ == s[a].id@);
        assert(t[b].id@ == s[b].id@);
    }
    assert_maps_equal!(dir_view(t), dir_view(s).insert(e.id@, e.status), x => {
        if x == e.id@ {
            lemma_index_unique(t, i);
        } else {
            if seq_has(t, x) {
                let j = index_of(t, x);
                assert(0 <= j < t.len() && t[j].id@ == x);
                assert(j != i);
                assert(s[j].id@ == x);
                lemma_index_unique(s, j);
                lemma_index_unique(t, j);
            }
            if seq_has(s, x) {
                let j = index_of(s, x);
                assert(0 <= j < s.len() && s[j].id@ == x);
                assert(j != i);
                assert(t[j].id@ == x);
                assert(seq_has(t, x));
            }
        }
    });
}

/// Appending an entry whose identifier is absent keeps the identifiers
/// distinct and adds exactly that identifier to the mapping.
proof fn lemma_dir_view_push(s: Seq<PeerEntry>, e: PeerEntry)
    requires
        ids_unique(s),
        !seq_has(s, e.id@),
    ensures
        ids_unique(s.push(e)),
        dir_view(s.push(e)) == dir_view(s).insert(e.id@, e.status),
{
    let t = s.push(e);
    assert forall|a: int, b: int| 0 <= a < b < t.len() implies t[a].id@ != t[b].id@ by {
        assert(t[a].id@ == s[a].id@);
        if b == s.len() {
            assert(t[b] == e);
            if s[a].id@ == e.id@ {
                assert(0 <= a < s.len() && s[a].id@ == e.id@);
                assert(seq_has(s, e.id@));
            }
        } else {
            assert(t[b].id@ == s[b].id@);
        }
    }
    assert_maps_equal!(dir_view(t), dir_view(s).insert(e.id@, e.status), x => {
        if x == e.id@ {
            assert(t[s.len() as int].id@ == x);
            lemma_index_unique(t, s.len() as int);
        } else {
            if seq_has(t, x) {
                let j = index_of(t, x);
                assert(0 <= j < t.len() && t[j].id@ == x);
                assert(j != s.len());
                assert(s[j].id@ == x);
                lemma_index_unique(s, j);
                lemma_index_unique(t, j);
            }
            if seq_has(s, x) {
                let j = index_of(s, x);
                assert(0 <= j < s.len() && s[j].id@ == x);
                assert(t[j].id@ == x);
                assert(seq_has(t, x));
            }
        }
    });
}

/// Removing the entry at an index keeps the identifiers distinct and removes
/// exactly that identifier from the mapping.
proof fn lemma_dir_view_remove(s: Seq<PeerEntry>, i: int)
    requires
        ids_unique(s),
        0 <= i < s.len(),
    ensures
        ids_unique(s.remove(i)),
        dir_view(s.remove(i)) == dir_view(s).remove(s[i].id@),
{
    let t = s.remove(i);
    assert(t.len() == s.len() - 1);
    assert forall|j: int| 0 <= j < t.len() implies t[j] == (if j < i {
        s[j]
    } else {
        s[j + 1]
    }) by {
        assert(t[j] == (s.subrange(0, i) + s.subrange(i + 1, s.len() as int))[j]);
    }
    assert forall|a: int, b: int| 0 <= a < b < t.len() implies t[a].id@ != t[b].id@ by {
        let a2 = if a < i { a } else { a + 1 };
        let b2 = if b < i { b } else { b + 1 };
        assert(t[a] == s[a2]);
        assert(t[b] == s[b2]);
        assert(a2 < b2);
    }
    assert_maps_equal!(dir_view(t), dir_view(s).remove(s[i].id@), x => {
        if x == s[i].id@ {
            if seq_has(t, x) {
                let j = index_of(t, x);
                assert(0 <= j < t.len() && t[j].id@ == x);
                let j2 = if j < i { j } else { j + 1 };
                assert(s[j2].id@ == x);
                assert(j2 != i);
                if j2 < i {
                    assert(s[j2].id@ != s[i].id@);
                } else {
                    assert(s[i].id@ != s[j2].id@);
                }
            }
        } else {
            if seq_has(t, x) {
                let j = index_of(t, x);
                assert(0 <= j < t.len() && t[j].id@ == x);
                let j2 = if j < i { j } else { j + 1 };
                assert(s[j2].id@ == x);
                lemma_index_unique(s, j2);
                lemma_index_unique(t, j);
            }
            if seq_has(s, x) {
                let j2 = index_of(s, x);
                assert(0 <= j2 < s.len() && s[j2].id@ == x);
                assert(j2 != i);
                let j = if j2 < i { j2 } else { j2 - 1 };
                assert(t[j].id@ == x);
                assert(seq_has(t, x));
            }
        }
    });
}

impl PeerDirectory {
    /// The identifiers of distinct entries are distinct.
    #[verifier::type_invariant]
    spec fn well_formed(&self) -> bool {
        ids_unique(self.entries@)
    }

    /// An empty directory: no peer is known.
    pub fn new() -> (r: PeerDirectory)
        ensures
            r@ == Map::<Seq<u8>, PeerStatus>::empty(),
    {
        let d = PeerDirectory { entries: Vec::new() };
        proof {
            assert_maps_equal!(d@, Map::<Seq<u8>, PeerStatus>::empty(), x => {});
        }
        d
    }

    /// The index of the entry carrying `id`, when the peer is known.
    fn find(&self, id: &NodeId) -> (r: Option<usize>)
        ensures
            match r {
                Some(i) => i < self.entries@.len() && self.entries@[i as int].id@ == id@,
                None => !seq_has(self.entries@, id@),
            },
    {
        let mut i: usize = 0;
        while i < self.entries.len()
            invariant
                i <= self.entries@.len(),
                forall|j: int| 0 <= j < i ==> self.entries@[j].id@ != id@,
            decreases self.entries@.len() - i,
        {
            if self.entries[i].id.same(id) {
                return Some(i);
            }
            i += 1;
        }
        None
    }

    /// Whether the peer with this identifier is currently known.
    pub fn contains(&self, id: &NodeId) -> (r: bool)
        ensures
            r == self@.contains_key(id@),
    {
        let found = self.find(id);
        match found {
            Some(i) => {
                proof {
                    assert(0 <= i < self.entries@.len() && self.entries@[i as int].id@ == id@);
                    assert(seq_has(self.entries@, id@));
                }
                true
            },
            None => false,
        }
    }

    /// The reachability the directory holds for this identifier, when the
    /// peer is known.
    pub fn status_of(&self, id: &NodeId) -> (r: Option<PeerStatus>)
        ensures
            r == (if self@.contains_key(id@) {
                Some(self@[id@])
            } else {
                None::<PeerStatus>
            }),
    {
        proof {
            use_type_invariant(&*self);
        }
        match self.find(id) {
            Some(i) => {
                let status = self.entries[i].status;
                proof {
                    lemma_index_unique(self.entries@, i as int);
                }
                Some(status)
            },
            None => None,
        }
    }

    /// Records the peer under `id` with the given reachability, replacing
    /// whatever the directory held for that identifier before.
    pub fn upsert(&mut self, id: NodeId, status: PeerStatus)
        ensures
            final(self)@ == old(self)@.insert(id@, status),
    {
        proof {
            use_type_invariant(&*self);
        }
        let ghost s_old = self.entries@;
        let found = self.find(&id);
        let mut entries: Vec<PeerEntry> = Vec::new();
        std::mem::swap(&mut entries, &mut self.entries);
        match found {
            Some(i) => {
                let e = PeerEntry { id, status };
                proof {
                    lemma_dir_view_set(s_old, i as int, e);
                }
                entries.set(i, e);
            },
            None => {
                let e = PeerEntry { id, status };
                proof {
                    lemma_dir_view_push(s_old, e);
                }
                entries.push(e);
            },
        }
        self.entries = entries;
    }

    /// Forgets the peer with this identifier; a directory that does not hold
    /// it is left as it is.
    pub fn remove(&mut self, id: &NodeId)
        ensures
            final(self)@ == old(self)@.remove(id@),
    {
        proof {
            use_type_invariant(&*self);
        }
        let ghost s_old = self.entries@;
        let found = self.find(id);
        match found {
            Some(i) => {
                let mut entries: Vec<PeerEntry> = Vec::new();
                std::mem::swap(&mut entries, &mut self.entries);
                proof {
                    lemma_dir_view_remove(s_old, i as int);
                }
                let _ = entries.remove(i);
                self.entries = entries;
            },
            None => {
                proof {
                    assert_maps_equal!(dir_view(s_old).remove(id@), dir_view(s_old), x => {});
                }
            },
        }
    }
}

} // verus!
