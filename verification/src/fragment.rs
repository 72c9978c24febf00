use vstd::prelude::*;

use crate::codec::clone_bytes;
use crate::error::Error;
use crate::ids::{FragmentId, NodeId};
use crate::stream::FragmentStream;
use crate::subscription::FragmentSubscription;

verus! {

/// An opaque, individually identifiable unit of block content, such as
/// a transaction.  Fragments are validated and ordered by the consensus
/// collaborator, never here.
#[derive(Debug)]
pub struct Fragment {
    pub id: FragmentId,
    pub contents: Vec<u8>,
}

/// The mathematical value of a fragment.
pub struct FragmentV {
    pub id: FragmentId,
    pub contents: Seq<u8>,
}

impl View for Fragment {
    type V = FragmentV;

    open spec fn view(&self) -> FragmentV {
        FragmentV { id: self.id, contents: self.contents@ }
    }
}

impl Fragment {
    /// Copies the fragment.
    pub fn duplicate(&self) -> (r: Fragment)
        ensures
            r@ == self@,
    {
        Fragment { id: self.id, contents: clone_bytes(&self.contents) }
    }
}

/// The service giving access to fragments: point lookups in the pool
/// supplied by the consensus collaborator, and the announcement
/// subscription.
pub struct FragmentSyncService {
    pub pool: Vec<Fragment>,
    pub peer: NodeId,
}

impl FragmentSyncService {
    /// How many fragments the pool holds.
    pub open spec fn count(self) -> int {
        self.pool@.len() as int
    }

    /// The id of the fragment stored at index `i`.
    pub open spec fn id_at(self, i: int) -> FragmentId {
        self.pool@[i].id
    }

    /// Whether the pool holds a fragment with the id.
    pub open spec fn has_id(self, id: FragmentId) -> bool {
        exists|i: int| 0 <= i < self.count() && self.id_at(i) == id
    }

    /// The index of the fragment with the id; meaningful when `has_id`
    /// holds, and then unique by well-formedness.
    pub open spec fn idx_of(self, id: FragmentId) -> int {
        choose|i: int| 0 <= i < self.count() && self.id_at(i) == id
    }

    /// Well-formedness: fragment ids are unique in the pool.
    pub open spec fn wf(self) -> bool {
        forall|i: int, j: int|
            #![trigger self.id_at(i), self.id_at(j)]
            0 <= i < self.count() && 0 <= j < self.count() && i != j ==> self.id_at(i)
                != self.id_at(j)
    }

    /// An empty pool for the connected peer.
    pub fn new(peer: NodeId) -> (r: FragmentSyncService)
        ensures
            r.wf(),
            r.count() == 0,
            r.peer == peer,
    {
        FragmentSyncService { pool: Vec::new(), peer }
    }

    /// The id of the connected peer node.
    pub fn node_id(&self) -> (r: NodeId)
        ensures
            r == self.peer,
    {
        self.peer
    }

    /// Finds the index of the fragment carrying `id`, if any.
    pub fn lookup(&self, id: FragmentId) -> (r: Option<usize>)
        ensures
            match r {
                Some(i) => (i as int) < self.count() && self.id_at(i as int) == id,
                None => !self.has_id(id),
            },
    {
        let mut i: usize = 0;
        while i < self.pool.len()
            invariant
                i <= self.pool.len(),
                forall|j: int| 0 <= j < i ==> self.id_at(j) != id,
            decreases self.pool.len() - i,
        {
            if self.pool[i].id == id {
                return Some(i);
            }
            i = i + 1;
        }
        None
    }

    /// The present id's index is unique.
    pub proof fn lemma_idx_of(self, id: FragmentId)
        requires
            self.wf(),
            self.has_id(id),
        ensures
            0 <= self.idx_of(id) < self.count(),
            self.id_at(self.idx_of(id)) == id,
            forall|j: int| 0 <= j < self.count() && self.id_at(j) == id ==> j == self.idx_of(id),
    {
        let w = choose|i: int| 0 <= i < self.count() && self.id_at(i) == id;
        assert(self.id_at(w) == id);
    }

    /// Adds a fragment handed over by the consensus collaborator; a
    /// duplicate id is rejected as `Failed`.
    pub fn add_fragment(&mut self, f: Fragment) -> (r: Result<(), Error>)
        requires
            old(self).wf(),
        ensures
            final(self).wf(),
            final(self).peer == old(self).peer,
            match r {
                Ok(()) => !old(self).has_id(f.id) && final(self).count() == old(self).count() + 1
                    && (forall|i: int|
                    0 <= i < old(self).count() ==> final(self).pool@[i] == old(self).pool@[i])
                    && final(self).pool@.last()@ == f@,
                Err(e) => e == Error::Failed && old(self).has_id(f.id) && *final(self) == *old(self),
            },
    {
        match self.lookup(f.id) {
            Some(_) => {
                proof {
                    assert(self.has_id(f.id));
                }
                Err(Error::Failed)
            },
            None => {
                let ghost n = self.count();
                self.pool.push(f);
                proof {
                    assert forall|i: int, j: int|
                        #![trigger self.id_at(i), self.id_at(j)]
                        0 <= i < self.count() && 0 <= j < self.count() && i != j implies self.id_at(
                        i,
                    ) != self.id_at(j) by {
                        if i < n && j < n {
                            assert(old(self).id_at(i) != old(self).id_at(j));
                        } else if i == n {
                            assert(old(self).id_at(j) != f.id);
                        } else {
                            assert(old(self).id_at(i) != f.id);
                        }
                    }
                }
                Ok(())
            },
        }
    }

    /// Looks every requested fragment up.  Any unknown id fails the
    /// whole call with `NotFound`: no partial stream survives.  Found
    /// fragments are streamed in request order.
    pub fn get_fragments(&self, ids: &Vec<FragmentId>) -> (r: Result<FragmentStream, Error>)
        requires
            self.wf(),
        ensures
            match r {
                Ok(s) => s.wf() && s.pos == 0 && (forall|i: int|
                    0 <= i < ids@.len() ==> self.has_id(#[trigger] ids@[i])) && s.items@.len()
                    == ids@.len() && (forall|i: int|
                    0 <= i < ids@.len() ==> s.items@[i]@ == self.pool@[self.idx_of(
                        #[trigger] ids@[i],
                    )]@),
                Err(e) => e == Error::NotFound && exists|i: int|
                    0 <= i < ids@.len() && !self.has_id(#[trigger] ids@[i]),
            },
    {
        let mut found: Vec<Fragment> = Vec::new();
        let mut i: usize = 0;
        while i < ids.len()
            invariant
                self.wf(),
                i <= ids@.len(),
                found@.len() == i,
                forall|j: int| 0 <= j < i ==> self.has_id(#[trigger] ids@[j]),
                forall|j: int|
                    0 <= j < i ==> found@[j]@ == self.pool@[self.idx_of(#[trigger] ids@[j])]@,
            decreases ids@.len() - i,
        {
            match self.lookup(ids[i]) {
                Some(t) => {
                    proof {
                        assert(self.has_id(ids@[i as int]));
                        self.lemma_idx_of(ids@[i as int]);
                    }
                    found.push(self.pool[t].duplicate());
                },
                None => {
                    proof {
                        assert(!self.has_id(ids@[i as int]));
                    }
                    return Err(Error::NotFound);
                },
            }
            i = i + 1;
        }
        Ok(FragmentStream::new(found))
    }

    /// Establishes the announcement subscription for fragments: every
    /// fragment accepted from the peer is eligible to be relayed onward
    /// through the outbound queue.
    pub fn fragment_subscription(&self, subscriber: Option<NodeId>) -> (r: FragmentSubscription)
        ensures
            r.outbound@.len() == 0,
            r.subscriber == subscriber,
    {
        FragmentSubscription { outbound: Vec::new(), subscriber }
    }
}

} // verus!
