//! The chunk registry: the set of currently materialized chunk
//! coordinates, and the single source of truth for whether a chunk is
//! loaded.
//!
//! The registry holds each coordinate at most once; `insert` of a present
//! coordinate and `remove` of an absent one are no-ops, so membership
//! can never drift into duplicates. Contracts speak of the registry as a
//! mathematical set of coordinates.

use vstd::prelude::*;

verus! {

use crate::coords::ChunkCoord;

/// The set of currently materialized chunk coordinates.
pub struct Registry {
    coords: Vec<ChunkCoord>,
}

impl Registry {
    /// The coordinates currently registered, as a set.
    pub closed spec fn members(self) -> Set<ChunkCoord> {
        self.coords@.to_set()
    }

    /// Internal invariant: no coordinate is held twice.
    pub closed spec fn wf(self) -> bool {
        self.coords@.no_duplicates()
    }

    /// An empty registry.
    pub fn new() -> (r: Registry)
        ensures
            r.wf(),
            r.members() == Set::<ChunkCoord>::empty(),
    {
        let r = Registry { coords: Vec::new() };
        proof {
            assert(r.coords@.to_set() =~= Set::<ChunkCoord>::empty());
        }
        r
    }

    /// The registry's member set is always finite.
    pub proof fn lemma_members_finite(self)
        ensures
            self.members().finite(),
    {
        broadcast use vstd::seq_lib::seq_to_set_is_finite;

    }

    /// How many chunks are currently registered.
    pub fn len(&self) -> (n: usize)
        requires
            self.wf(),
        ensures
            n == self.members().len(),
    {
        proof {
            self.coords@.unique_seq_to_set();
        }
        self.coords.len()
    }

    /// Whether a coordinate is currently registered.
    pub fn contains(&self, c: ChunkCoord) -> (r: bool)
        ensures
            r == self.members().contains(c),
    {
        let n = self.coords.len();
        let mut i: usize = 0;
        while i < n
            invariant
                n == self.coords@.len(),
                i <= n,
                forall|j: int| 0 <= j < i ==> self.coords@[j] != c,
            decreases n - i,
        {
            if self.coords[i] == c {
                proof {
                    assert(self.coords@.contains(c));
                }
                return true;
            }
            i = i + 1;
        }
        proof {
            assert(!self.coords@.contains(c));
        }
        false
    }

    /// Register a coordinate. Inserting a coordinate that is already
    /// present changes nothing, so no coordinate is ever held twice.
    /// Returns whether the coordinate was newly added.
    pub fn insert(&mut self, c: ChunkCoord) -> (added: bool)
        requires
            old(self).wf(),
        ensures
            final(self).wf(),
            final(self).members() == old(self).members().insert(c),
            added == !old(self).members().contains(c),
    {
        broadcast use vstd::seq_lib::lemma_seq_contains_after_push;

        if self.contains(c) {
            proof {
                assert(self.members() =~= self.members().insert(c));
            }
            false
        } else {
            let ghost old_seq = self.coords@;
            self.coords.push(c);
            proof {
                assert(forall|j: int| 0 <= j < old_seq.len() ==> old_seq[j] != c) by {
                    assert(!old_seq.to_set().contains(c));
                }
                assert(self.coords@.no_duplicates());
                assert(self.coords@.to_set() =~= old_seq.to_set().insert(c));
            }
            true
        }
    }

    /// Unregister a coordinate. Removing an absent coordinate changes
    /// nothing. Returns whether the coordinate was present.
    pub fn remove(&mut self, c: ChunkCoord) -> (removed: bool)
        requires
            old(self).wf(),
        ensures
            final(self).wf(),
            final(self).members() == old(self).members().remove(c),
            removed == old(self).members().contains(c),
    {
        let n = self.coords.len();
        let mut i: usize = 0;
        while i < n
            invariant
                self.coords@ == old(self).coords@,
                n == self.coords@.len(),
                i <= n,
                self.coords@.no_duplicates(),
                forall|j: int| 0 <= j < i ==> self.coords@[j] != c,
            decreases n - i,
        {
            if self.coords[i] == c {
                let ghost old_seq = self.coords@;
                self.coords.remove(i);
                proof {
                    lemma_remove_unique_at(old_seq, i as int);
                    assert(self.coords@.to_set() =~= old_seq.to_set().remove(c));
                    assert(old_seq.to_set().contains(c)) by {
                        assert(old_seq.contains(c));
                    }
                }
                return true;
            }
            i = i + 1;
        }
        proof {
            assert(!self.coords@.contains(c));
            assert(self.members() =~= self.members().remove(c));
        }
        false
    }

    /// The registered coordinates as a list without duplicates, in the
    /// registry's internal order.
    pub fn members_vec(&self) -> (r: Vec<ChunkCoord>)
        requires
            self.wf(),
        ensures
            r@.no_duplicates(),
            r@.to_set() == self.members(),
            r@.len() == self.members().len(),
    {
        proof {
            self.coords@.unique_seq_to_set();
        }
        let n = self.coords.len();
        let mut out: Vec<ChunkCoord> = Vec::new();
        let mut i: usize = 0;
        while i < n
            invariant
                n == self.coords@.len(),
                i <= n,
                out@ == self.coords@.subrange(0, i as int),
            decreases n - i,
        {
            out.push(self.coords[i]);
            proof {
                assert(out@ =~= self.coords@.subrange(0, i + 1 as int));
            }
            i = i + 1;
        }
        proof {
            assert(out@ =~= self.coords@);
        }
        out
    }
}

/// Removing the only index that holds an element of a duplicate-free
/// sequence keeps it duplicate-free and removes exactly that element
/// from its set of values.
proof fn lemma_remove_unique_at(s: Seq<ChunkCoord>, i: int)
    requires
        s.no_duplicates(),
        0 <= i < s.len(),
    ensures
        s.remove(i).no_duplicates(),
        s.remove(i).to_set() =~= s.to_set().remove(s[i]),
{
    let t = s.remove(i);
    let c = s[i];
    assert forall|x: ChunkCoord| t.to_set().contains(x) implies s.to_set().remove(c).contains(
        x,
    ) by {
        let j = choose|j: int| 0 <= j < t.len() && t[j] == x;
        if j < i {
            assert(s[j] == x);
        } else {
            assert(s[j + 1] == x);
        }
    }
    assert forall|x: ChunkCoord| s.to_set().remove(c).contains(x) implies t.to_set().contains(
        x,
    ) by {
        let j = choose|j: int| 0 <= j < s.len() && s[j] == x;
        if j < i {
            assert(t[j] == x);
        } else {
            assert(j != i);
            assert(t[j - 1] == x);
        }
    }
}

} // verus!
