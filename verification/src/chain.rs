use vstd::prelude::*;

use crate::codec::clone_bytes;
use crate::error::Error;
use crate::ids::{BlockDate, BlockId};

verus! {

/// Metadata of a block: its own id, its parent's id, and its date.
#[derive(Clone, Copy, PartialEq, Eq, Structural, Debug)]
pub struct Header {
    pub id: BlockId,
    pub parent: BlockId,
    pub date: BlockDate,
}

/// A full block: its header and the opaque body bytes.  The body is
/// validated and ordered by the consensus collaborator, never here.
#[derive(Debug)]
pub struct Block {
    pub header: Header,
    pub contents: Vec<u8>,
}

/// The mathematical value of a block.
pub struct BlockV {
    pub header: Header,
    pub contents: Seq<u8>,
}

impl View for Block {
    type V = BlockV;

    open spec fn view(&self) -> BlockV {
        BlockV { header: self.header, contents: self.contents@ }
    }
}

impl Block {
    /// Every block yields its header by a deterministic projection.
    pub fn header(&self) -> (h: Header)
        ensures
            h == self.header,
    {
        self.header
    }

    /// Copies the block.
    pub fn duplicate(&self) -> (r: Block)
        ensures
            r@ == self@,
    {
        Block { header: self.header, contents: clone_bytes(&self.contents) }
    }
}

/// One stored block together with the index of its parent entry.
pub struct ChainEntry {
    pub block: Block,
    pub parent_idx: usize,
}

/// A node's view of the block tree: the fixed genesis id, the known
/// blocks — each linking to its parent by index — and the current tip.
/// The view is supplied and advanced by the storage collaborator; the
/// services only read it, and each operation observes one snapshot.
pub struct ChainView {
    pub genesis: BlockId,
    pub entries: Vec<ChainEntry>,
    pub tip_idx: Option<usize>,
}

impl ChainView {
    /// How many blocks the view holds.
    pub open spec fn count(self) -> int {
        self.entries@.len() as int
    }

    /// The id of the block stored at index `i`.
    pub open spec fn id_at(self, i: int) -> BlockId {
        self.entries@[i].block.header.id
    }

    /// The header of the block stored at index `i`.
    pub open spec fn header_at(self, i: int) -> Header {
        self.entries@[i].block.header
    }

    /// The index of the parent of the block stored at index `i`.
    pub open spec fn parent_of(self, i: int) -> int {
        self.entries@[i].parent_idx as int
    }

    /// Whether some stored block carries the id.
    pub open spec fn has_id(self, id: BlockId) -> bool {
        exists|i: int| 0 <= i < self.count() && self.id_at(i) == id
    }

    /// The index of the block carrying the id; meaningful when `has_id`
    /// holds, and then unique by well-formedness.
    pub open spec fn idx_of(self, id: BlockId) -> int {
        choose|i: int| 0 <= i < self.count() && self.id_at(i) == id
    }

    /// Well-formedness of the view: ids are unique; the first entry, if
    /// any, is the genesis block and self-parented; every later entry
    /// links to an earlier parent entry whose id is the header's parent
    /// and whose date is strictly older; the tip index, when set, is in
    /// range.
    pub open spec fn wf(self) -> bool {
        &&& (forall|i: int, j: int|
            #![trigger self.id_at(i), self.id_at(j)]
            0 <= i < self.count() && 0 <= j < self.count() && i != j ==> self.id_at(i)
                != self.id_at(j))
        &&& (self.count() > 0 ==> self.id_at(0) == self.genesis && self.parent_of(0) == 0
            && self.header_at(0).parent == self.genesis)
        &&& (forall|i: int|
            1 <= i < self.count() ==> #[trigger] self.parent_of(i) < i && self.id_at(
                self.parent_of(i),
            ) == self.header_at(i).parent && self.header_at(self.parent_of(i)).date.lt(
                self.header_at(i).date,
            ))
        &&& (match self.tip_idx {
            Some(t) => (t as int) < self.count(),
            None => true,
        })
    }

    /// Whether a tip has been set.
    pub open spec fn has_tip(self) -> bool {
        self.tip_idx is Some
    }

    /// The index of the tip; meaningful when `has_tip` holds.
    pub open spec fn tip_i(self) -> int {
        match self.tip_idx {
            Some(t) => t as int,
            None => -1,
        }
    }

    /// The header of the tip; meaningful when `has_tip` holds.
    pub open spec fn tip_header(self) -> Header {
        self.header_at(self.tip_i())
    }

    /// The indices of the chain from the genesis entry up to and
    /// including entry `i`, in ascending chain order.
    pub open spec fn path_idxs(self, i: int) -> Seq<int>
        decreases i,
        when self.wf() && 0 <= i < self.count()
    {
        if i <= 0 {
            seq![0int]
        } else {
            self.path_idxs(self.parent_of(i)).push(i)
        }
    }

    /// The ids along the chain from genesis up to entry `i`.
    pub open spec fn path_ids(self, i: int) -> Seq<BlockId> {
        self.path_idxs(i).map(|_k: int, j: int| self.id_at(j))
    }

    /// Whether the block with id `a` lies on the ancestor chain of the
    /// block with id `d` (a block counts as its own ancestor).
    pub open spec fn is_ancestor(self, a: BlockId, d: BlockId) -> bool {
        self.has_id(a) && self.has_id(d) && self.path_ids(self.idx_of(d)).contains(a)
    }

    /// The headers along the chain of entry `i`, strictly after path
    /// position `k`, up to and including entry `i` itself.
    pub open spec fn segment_headers(self, i: int, k: int) -> Seq<Header> {
        self.path_idxs(i).subrange(k + 1, self.path_idxs(i).len() as int).map(
            |_m: int, j: int| self.header_at(j),
        )
    }

    /// The block values along the chain of entry `i`, strictly after
    /// path position `k`.
    pub open spec fn segment_blocks(self, i: int, k: int) -> Seq<BlockV> {
        self.path_idxs(i).subrange(k + 1, self.path_idxs(i).len() as int).map(
            |_m: int, j: int| self.entries@[j].block@,
        )
    }

    /// Shape of a chain path: it starts at the genesis entry, ends at
    /// its own entry, stays in range, and each step climbs to a child
    /// of the entry before it.
    pub proof fn lemma_path(self, i: int)
        requires
            self.wf(),
            0 <= i < self.count(),
        ensures
            self.path_idxs(i).len() >= 1,
            self.path_idxs(i)[0] == 0,
            self.path_idxs(i).last() == i,
            forall|k: int|
                0 <= k < self.path_idxs(i).len() ==> 0 <= #[trigger] self.path_idxs(i)[k]
                    < self.count() && self.path_idxs(i)[k] <= i,
            forall|k: int|
                1 <= k < self.path_idxs(i).len() ==> 1 <= #[trigger] self.path_idxs(i)[k]
                    && self.path_idxs(i)[k - 1] == self.parent_of(self.path_idxs(i)[k])
                    && self.path_idxs(i)[k - 1] < self.path_idxs(i)[k],
        decreases i,
    {
        if i <= 0 {
            assert(self.path_idxs(0) =~= seq![0int]);
        } else {
            let p = self.parent_of(i);
            assert(self.parent_of(i) < i);
            self.lemma_path(p);
            let rec = self.path_idxs(p);
            let whole = self.path_idxs(i);
            assert(whole =~= rec.push(i));
            assert forall|k: int|
                1 <= k < whole.len() implies 1 <= #[trigger] whole[k] && whole[k - 1]
                == self.parent_of(whole[k]) && whole[k - 1] < whole[k] by {
                if k < whole.len() - 1 {
                    assert(whole[k] == rec[k] && whole[k - 1] == rec[k - 1]);
                } else {
                    assert(whole[k] == i && whole[k - 1] == rec.last());
                }
            }
        }
    }

    /// Along a chain path, each header's parent is the id before it and
    /// the dates strictly increase.
    pub proof fn lemma_path_links(self, i: int)
        requires
            self.wf(),
            0 <= i < self.count(),
        ensures
            forall|k: int|
                1 <= k < self.path_idxs(i).len() ==> self.header_at(
                    #[trigger] self.path_idxs(i)[k],
                ).parent == self.id_at(self.path_idxs(i)[k - 1]) && self.header_at(
                    self.path_idxs(i)[k - 1],
                ).date.lt(self.header_at(self.path_idxs(i)[k]).date),
    {
        self.lemma_path(i);
        let p = self.path_idxs(i);
        assert forall|k: int|
            1 <= k < p.len() implies self.header_at(#[trigger] p[k]).parent == self.id_at(
            p[k - 1],
        ) && self.header_at(p[k - 1]).date.lt(self.header_at(p[k]).date) by {
            assert(1 <= p[k] < self.count());
            assert(self.parent_of(p[k]) == p[k - 1]);
        }
    }

    /// The index of a present id is in range, carries the id, and is the
    /// only index that does.
    pub proof fn lemma_idx_of(self, id: BlockId)
        requires
            self.wf(),
            self.has_id(id),
        ensures
            0 <= self.idx_of(id) < self.count(),
            self.id_at(self.idx_of(id)) == id,
            forall|j: int| 0 <= j < self.count() && self.id_at(j) == id ==> j == self.idx_of(id),
    {
        let w = choose|i: int| 0 <= i < self.count() && self.id_at(i) == id;
        assert(self.id_at(w) == id);
    }

    /// A fresh view: the fixed genesis id, no blocks, no tip.
    pub fn new(genesis: BlockId) -> (r: ChainView)
        ensures
            r.wf(),
            r.genesis == genesis,
            r.count() == 0,
            !r.has_tip(),
    {
        ChainView { genesis, entries: Vec::new(), tip_idx: None }
    }

    /// Finds the index of the block carrying `id`, if any.
    pub fn lookup(&self, id: BlockId) -> (r: Option<usize>)
        ensures
            match r {
                Some(i) => (i as int) < self.count() && self.id_at(i as int) == id,
                None => !self.has_id(id),
            },
    {
        let mut i: usize = 0;
        while i < self.entries.len()
            invariant
                i <= self.entries.len(),
                forall|j: int| 0 <= j < i ==> self.id_at(j) != id,
            decreases self.entries.len() - i,
        {
            if self.entries[i].block.header.id == id {
                return Some(i);
            }
            i = i + 1;
        }
        None
    }

    /// Whether the view holds a block with the id.
    pub fn has_block(&self, id: BlockId) -> (r: bool)
        ensures
            r == self.has_id(id),
    {
        let r = self.lookup(id);
        match r {
            Some(_) => {
                proof {
                    assert(self.has_id(id));
                }
                true
            },
            None => false,
        }
    }

    /// Whether the view accepts `b` as a new block: the first block must
    /// be the self-parented genesis block; a later one must be fresh,
    /// attach to a present parent, and carry a date strictly after its
    /// parent's.
    pub open spec fn accepts(self, b: Block) -> bool {
        if self.count() == 0 {
            b.header.id == self.genesis && b.header.parent == self.genesis
        } else {
            !self.has_id(b.header.id) && self.has_id(b.header.parent) && self.header_at(
                self.idx_of(b.header.parent),
            ).date.lt(b.header.date)
        }
    }

    /// Appends a block supplied by the storage collaborator.  An
    /// unknown parent is reported as `NotFound`; any other rejected
    /// block — a duplicate id, a misplaced genesis block, a date not
    /// after the parent's — as `Failed`.
    pub fn add_block(&mut self, b: Block) -> (r: Result<(), Error>)
        requires
            old(self).wf(),
        ensures
            final(self).wf(),
            final(self).genesis == old(self).genesis,
            final(self).tip_idx == old(self).tip_idx,
            match r {
                Ok(()) => old(self).accepts(b) && final(self).count() == old(self).count() + 1
                    && (forall|i: int|
                    0 <= i < old(self).count() ==> final(self).entries@[i]
                        == old(self).entries@[i]) && final(self).entries@.last().block@ == b@
                    && final(self).parent_of(old(self).count()) == (if old(self).count() == 0 {
                    0int
                } else {
                    old(self).idx_of(b.header.parent)
                }),
                Err(e) => *final(self) == *old(self) && !old(self).accepts(b) && (e
                    == Error::NotFound <==> (old(self).count() > 0 && !old(self).has_id(
                    b.header.parent,
                ))) && (e == Error::NotFound || e == Error::Failed),
            },
    {
        if self.entries.len() == 0 {
            if b.header.id == self.genesis && b.header.parent == self.genesis {
                self.entries.push(ChainEntry { block: b, parent_idx: 0 });
                Ok(())
            } else {
                Err(Error::Failed)
            }
        } else {
            let pi = match self.lookup(b.header.parent) {
                Some(i) => i,
                None => {
                    return Err(Error::NotFound);
                },
            };
            proof {
                assert(self.has_id(b.header.parent));
                self.lemma_idx_of(b.header.parent);
            }
            if self.has_block(b.header.id) {
                return Err(Error::Failed);
            }
            if !self.entries[pi].block.header.date.is_before(&b.header.date) {
                return Err(Error::Failed);
            }
            let ghost n = self.count();
            self.entries.push(ChainEntry { block: b, parent_idx: pi });
            proof {
                assert forall|i: int, j: int|
                    #![trigger self.id_at(i), self.id_at(j)]
                    0 <= i < self.count() && 0 <= j < self.count() && i != j implies self.id_at(i)
                    != self.id_at(j) by {
                    if i < n && j < n {
                        assert(old(self).id_at(i) != old(self).id_at(j));
                    } else if i == n {
                        assert(!old(self).has_id(b.header.id));
                        assert(old(self).id_at(j) != b.header.id);
                    } else {
                        assert(!old(self).has_id(b.header.id));
                        assert(old(self).id_at(i) != b.header.id);
                    }
                }
                assert forall|i: int|
                    1 <= i < self.count() implies #[trigger] self.parent_of(i) < i && self.id_at(
                    self.parent_of(i),
                ) == self.header_at(i).parent && self.header_at(self.parent_of(i)).date.lt(
                    self.header_at(i).date,
                ) by {
                    if i < n {
                        assert(old(self).parent_of(i) < i);
                    } else {
                        assert(self.parent_of(i) == pi as int);
                    }
                }
            }
            Ok(())
        }
    }

    /// Marks the block carrying `id` as the current tip.
    pub fn set_tip(&mut self, id: BlockId) -> (r: Result<(), Error>)
        requires
            old(self).wf(),
        ensures
            final(self).wf(),
            final(self).genesis == old(self).genesis,
            final(self).entries@ == old(self).entries@,
            match r {
                Ok(()) => old(self).has_id(id) && final(self).has_tip() && final(self).tip_i()
                    == old(self).idx_of(id),
                Err(e) => e == Error::NotFound && !old(self).has_id(id) && *final(self) == *old(self),
            },
    {
        match self.lookup(id) {
            Some(i) => {
                proof {
                    assert(self.has_id(id));
                    self.lemma_idx_of(id);
                }
                self.tip_idx = Some(i);
                proof {
                    assert(forall|j: int|
                        0 <= j < self.count() ==> #[trigger] self.id_at(j) == old(self).id_at(j));
                    assert(forall|j: int|
                        0 <= j < self.count() ==> #[trigger] self.header_at(j) == old(self).header_at(j));
                    assert(forall|j: int|
                        0 <= j < self.count() ==> #[trigger] self.parent_of(j) == old(self).parent_of(j));
                }
                Ok(())
            },
            None => Err(Error::NotFound),
        }
    }

    /// The indices of the chain from genesis up to entry `i`.
    fn path_vec(&self, i: usize) -> (r: Vec<usize>)
        requires
            self.wf(),
            (i as int) < self.count(),
        ensures
            r@.map_values(|v: usize| v as int) == self.path_idxs(i as int),
        decreases i,
    {
        if i == 0 {
            let mut v: Vec<usize> = Vec::new();
            v.push(0);
            proof {
                assert(v@.map_values(|x: usize| x as int) =~= self.path_idxs(0));
            }
            v
        } else {
            let p = self.entries[i].parent_idx;
            proof {
                assert(self.parent_of(i as int) < i as int);
            }
            let mut v = self.path_vec(p);
            v.push(i);
            proof {
                assert(v@.map_values(|x: usize| x as int) =~= self.path_idxs(i as int));
            }
            v
        }
    }

    /// Whether path position `k` of entry `ti`'s chain is the resolved
    /// starting point for the candidate list: its id is a candidate and
    /// no candidate lies strictly between it and the chain's end.
    pub open spec fn resolves_at(self, from: Seq<BlockId>, ti: int, k: int) -> bool {
        &&& 0 <= k < self.path_idxs(ti).len()
        &&& from.contains(self.id_at(self.path_idxs(ti)[k]))
        &&& (forall|m: int|
            k < m < self.path_idxs(ti).len() ==> !from.contains(
                self.id_at(#[trigger] self.path_idxs(ti)[m]),
            ))
    }

    /// Whether any candidate lies on entry `ti`'s ancestor chain.
    pub open spec fn some_resolves(self, from: Seq<BlockId>, ti: int) -> bool {
        exists|k: int| self.resolves_at(from, ti, k)
    }

    /// At most one path position resolves a candidate list.
    pub proof fn lemma_resolves_unique(self, from: Seq<BlockId>, ti: int, k1: int, k2: int)
        requires
            self.resolves_at(from, ti, k1),
            self.resolves_at(from, ti, k2),
        ensures
            k1 == k2,
    {
        if k1 < k2 {
            assert(!from.contains(self.id_at(self.path_idxs(ti)[k2])));
        } else if k2 < k1 {
            assert(!from.contains(self.id_at(self.path_idxs(ti)[k1])));
        }
    }

    /// Pulled segments come out in strictly ascending chain order: each
    /// header's parent is the one emitted before it, dates strictly
    /// increase, a non-empty segment starts just after the resolved
    /// ancestor and ends with the end block's own header.
    pub proof fn lemma_segment_order(self, i: int, k: int)
        requires
            self.wf(),
            0 <= i < self.count(),
            0 <= k < self.path_idxs(i).len(),
        ensures
            self.segment_headers(i, k).len() == self.path_idxs(i).len() - k - 1,
            forall|m: int|
                1 <= m < self.segment_headers(i, k).len() ==> (#[trigger] self.segment_headers(
                    i,
                    k,
                )[m]).parent == self.segment_headers(i, k)[m - 1].id,
            forall|m: int|
                1 <= m < self.segment_headers(i, k).len() ==> self.segment_headers(i, k)[m
                    - 1].date.lt((#[trigger] self.segment_headers(i, k)[m]).date),
            self.segment_headers(i, k).len() > 0 ==> self.segment_headers(i, k).last()
                == self.header_at(i) && self.segment_headers(i, k)[0].parent == self.id_at(
                self.path_idxs(i)[k],
            ),
    {
        self.lemma_path(i);
        self.lemma_path_links(i);
        let p = self.path_idxs(i);
        let hs = self.segment_headers(i, k);
        let sub = p.subrange(k + 1, p.len() as int);
        assert(hs.len() == p.len() - k - 1);
        assert forall|m: int| 0 <= m < hs.len() implies #[trigger] hs[m] == self.header_at(
            p[k + 1 + m],
        ) by {
            assert(hs[m] == self.header_at(sub[m]));
            assert(sub[m] == p[k + 1 + m]);
        }
        assert forall|m: int| 1 <= m < hs.len() implies (#[trigger] hs[m]).parent == hs[m
            - 1].id && hs[m - 1].date.lt(hs[m].date) by {
            assert(self.header_at(p[k + 1 + m]).parent == self.id_at(p[k + m]));
            assert(self.header_at(p[k + m]).date.lt(self.header_at(p[k + 1 + m]).date));
            assert(hs[m - 1] == self.header_at(p[k + m]));
        }
        if hs.len() > 0 {
            assert(hs.last() == self.header_at(p[p.len() - 1]));
            assert(self.header_at(p[k + 1]).parent == self.id_at(p[k]));
            assert(hs[0] == self.header_at(p[k + 1]));
        }
    }

    /// Headers pulled toward the tip come in strictly ascending chain
    /// order — each one the parent of the one after it — and, when any
    /// come at all, end with the tip's header observed at call time.
    pub proof fn lemma_pull_to_tip_order(self, k: int)
        requires
            self.wf(),
            self.has_tip(),
            0 <= k < self.path_idxs(self.tip_i()).len(),
        ensures
            forall|m: int|
                1 <= m < self.segment_headers(self.tip_i(), k).len() ==> (
                #[trigger] self.segment_headers(self.tip_i(), k)[m]).parent
                    == self.segment_headers(self.tip_i(), k)[m - 1].id
                    && self.segment_headers(self.tip_i(), k)[m - 1].date.lt(
                    self.segment_headers(self.tip_i(), k)[m].date,
                ),
            self.segment_headers(self.tip_i(), k).len() > 0 ==> self.segment_headers(
                self.tip_i(),
                k,
            ).last() == self.tip_header(),
    {
        self.lemma_segment_order(self.tip_i(), k);
    }

    /// Along a chain path, dates strictly increase between any two
    /// positions, not only adjacent ones.
    pub proof fn lemma_dates_along(self, i: int, k1: int, k2: int)
        requires
            self.wf(),
            0 <= i < self.count(),
            0 <= k1 < k2 < self.path_idxs(i).len(),
        ensures
            self.header_at(self.path_idxs(i)[k1]).date.lt(
                self.header_at(self.path_idxs(i)[k2]).date,
            ),
        decreases k2 - k1,
    {
        self.lemma_path(i);
        self.lemma_path_links(i);
        if k1 + 1 < k2 {
            self.lemma_dates_along(i, k1, k2 - 1);
        }
    }

    /// A proper ancestor's date is strictly before its descendant's:
    /// two distinct blocks can share a date only on different branches.
    pub proof fn lemma_ancestor_date_order(self, a: BlockId, d: BlockId)
        requires
            self.wf(),
            self.is_ancestor(a, d),
            a != d,
        ensures
            self.header_at(self.idx_of(a)).date.lt(self.header_at(self.idx_of(d)).date),
    {
        self.lemma_idx_of(a);
        self.lemma_idx_of(d);
        let di = self.idx_of(d);
        self.lemma_path(di);
        let p = self.path_idxs(di);
        let ids = self.path_ids(di);
        let k = choose|k: int| 0 <= k < ids.len() && ids[k] == a;
        assert(self.id_at(p[k]) == a);
        assert(p[k] == self.idx_of(a));
        assert(p.last() == di);
        if k == p.len() - 1 {
            assert(self.id_at(di) == d);
            assert(false);
        }
        self.lemma_dates_along(di, k, p.len() - 1);
    }

    /// The candidate a pull resolves does lie on the ancestor chain of
    /// the end block.
    pub proof fn lemma_resolved_is_ancestor(self, from: Seq<BlockId>, to: BlockId, k: int)
        requires
            self.wf(),
            self.has_id(to),
            self.resolves_at(from, self.idx_of(to), k),
        ensures
            from.contains(self.id_at(self.path_idxs(self.idx_of(to))[k])),
            self.is_ancestor(self.id_at(self.path_idxs(self.idx_of(to))[k]), to),
    {
        let ti = self.idx_of(to);
        self.lemma_idx_of(to);
        self.lemma_path(ti);
        let p = self.path_idxs(ti);
        let id = self.id_at(p[k]);
        assert(self.has_id(id));
        self.lemma_idx_of(id);
        assert(self.path_ids(ti)[k] == id);
        assert(self.path_ids(ti).contains(id));
    }

    /// When no candidate id lies on the ancestor chain of `to`, no path
    /// position resolves, and an ancestor-bounded pull must fail — even
    /// when `to` itself is present.
    pub proof fn lemma_no_ancestor_no_resolution(self, from: Seq<BlockId>, to: BlockId)
        requires
            self.wf(),
            self.has_id(to),
            forall|j: int| 0 <= j < from.len() ==> !self.is_ancestor(#[trigger] from[j], to),
        ensures
            !self.some_resolves(from, self.idx_of(to)),
    {
        let ti = self.idx_of(to);
        self.lemma_idx_of(to);
        self.lemma_path(ti);
        let p = self.path_idxs(ti);
        assert forall|k: int| !self.resolves_at(from, ti, k) by {
            if 0 <= k < p.len() && from.contains(self.id_at(p[k])) {
                let id = self.id_at(p[k]);
                let j = choose|j: int| 0 <= j < from.len() && from[j] == id;
                assert(self.path_ids(ti)[k] == id);
                assert(self.path_ids(ti).contains(id));
                assert(self.has_id(id));
                assert(self.is_ancestor(from[j], to));
            }
        }
    }

    /// Finds the highest path position whose entry id is a candidate.
    fn resolve_from(&self, path: &Vec<usize>, from: &Vec<BlockId>) -> (r: Option<usize>)
        requires
            forall|k: int| 0 <= k < path@.len() ==> (#[trigger] path@[k] as int) < self.count(),
        ensures
            match r {
                Some(k) => (k as int) < path@.len() && from@.contains(
                    self.id_at(path@[k as int] as int),
                ) && (forall|m: int|
                    k < m < path@.len() ==> !from@.contains(
                        self.id_at(#[trigger] path@[m] as int),
                    )),
                None => forall|m: int|
                    0 <= m < path@.len() ==> !from@.contains(self.id_at(#[trigger] path@[m] as int)),
            },
    {
        let mut k: usize = path.len();
        while k > 0
            invariant
                k <= path@.len(),
                forall|j: int| 0 <= j < path@.len() ==> (#[trigger] path@[j] as int) < self.count(),
                forall|m: int|
                    k <= m < path@.len() ==> !from@.contains(self.id_at(#[trigger] path@[m] as int)),
            decreases k,
        {
            k = k - 1;
            if id_list_contains(from, self.entries[path[k]].block.header.id) {
                return Some(k);
            }
        }
        None
    }

    /// Resolves the pull: finds the end block, resolves the candidate
    /// closest to it, and returns the entry indices strictly after the
    /// resolved ancestor, in ascending chain order, together with the
    /// resolved path position.
    pub(crate) fn pull_indices(&self, from: &Vec<BlockId>, to: BlockId) -> (r: Result<
        (Vec<usize>, Ghost<int>),
        Error,
    >)
        requires
            self.wf(),
        ensures
            match r {
                Ok(p) => self.has_id(to) && self.resolves_at(from@, self.idx_of(to), p.1@)
                    && p.0@.map_values(|v: usize| v as int) == self.path_idxs(
                    self.idx_of(to),
                ).subrange(p.1@ + 1, self.path_idxs(self.idx_of(to)).len() as int),
                Err(e) => e == Error::NotFound && !(self.has_id(to) && self.some_resolves(
                    from@,
                    self.idx_of(to),
                )),
            },
    {
        let ti = match self.lookup(to) {
            Some(i) => i,
            None => {
                return Err(Error::NotFound);
            },
        };
        proof {
            assert(self.has_id(to));
            self.lemma_idx_of(to);
            self.lemma_path(ti as int);
        }
        let path = self.path_vec(ti);
        proof {
            assert forall|k: int| 0 <= k < path@.len() implies (#[trigger] path@[k] as int)
                < self.count() by {
                assert(path@.map_values(|v: usize| v as int)[k] == self.path_idxs(ti as int)[k]);
            }
        }
        match self.resolve_from(&path, from) {
            Some(k) => {
                let mut seg: Vec<usize> = Vec::new();
                let mut m: usize = k + 1;
                while m < path.len()
                    invariant
                        k < m <= path@.len(),
                        seg@ == path@.subrange(k + 1, m as int),
                    decreases path@.len() - m,
                {
                    seg.push(path[m]);
                    m = m + 1;
                    proof {
                        assert(seg@ =~= path@.subrange(k + 1, m as int));
                    }
                }
                proof {
                    let p = self.path_idxs(ti as int);
                    let pv = path@.map_values(|v: usize| v as int);
                    assert forall|j: int| 0 <= j < p.len() implies p[j] == path@[j] as int by {
                        assert(pv[j] == p[j]);
                    }
                    assert(self.resolves_at(from@, ti as int, k as int));
                    assert(seg@.map_values(|v: usize| v as int) =~= p.subrange(
                        k + 1,
                        p.len() as int,
                    ));
                }
                Ok((seg, Ghost(k as int)))
            },
            None => {
                proof {
                    let p = self.path_idxs(ti as int);
                    let pv = path@.map_values(|v: usize| v as int);
                    assert forall|k: int| !self.resolves_at(from@, ti as int, k) by {
                        if 0 <= k < p.len() {
                            assert(pv[k] == p[k]);
                            assert(!from@.contains(self.id_at(path@[k] as int)));
                        }
                    }
                }
                Err(Error::NotFound)
            },
        }
    }

    /// Shape of a resolved pull segment: its entries are the path
    /// entries strictly after the resolved position, in range, and
    /// their headers and blocks are the pulled segment.
    pub proof fn lemma_segment_entries(self, from: Seq<BlockId>, ti: int, k: int, seg: Seq<usize>)
        requires
            self.wf(),
            0 <= ti < self.count(),
            self.resolves_at(from, ti, k),
            seg.map_values(|v: usize| v as int) == self.path_idxs(ti).subrange(
                k + 1,
                self.path_idxs(ti).len() as int,
            ),
        ensures
            seg.len() == self.path_idxs(ti).len() - k - 1,
            forall|m: int|
                0 <= m < seg.len() ==> (#[trigger] seg[m] as int) < self.count() && seg[m] as int
                    == self.path_idxs(ti)[k + 1 + m],
            forall|m: int|
                0 <= m < seg.len() ==> self.header_at(#[trigger] seg[m] as int)
                    == self.segment_headers(ti, k)[m] && self.entries@[seg[m] as int].block@
                    == self.segment_blocks(ti, k)[m],
    {
        self.lemma_path(ti);
        let p = self.path_idxs(ti);
        let pv = seg.map_values(|v: usize| v as int);
        let sub = p.subrange(k + 1, p.len() as int);
        assert(pv.len() == seg.len());
        assert(seg.len() == p.len() - k - 1);
        assert forall|m: int| 0 <= m < seg.len() implies (#[trigger] seg[m] as int)
            < self.count() && seg[m] as int == p[k + 1 + m] by {
            assert(pv[m] == seg[m] as int);
            assert(pv[m] == sub[m]);
            assert(sub[m] == p[k + 1 + m]);
        }
        assert forall|m: int| 0 <= m < seg.len() implies self.header_at(
            #[trigger] seg[m] as int,
        ) == self.segment_headers(ti, k)[m] && self.entries@[seg[m] as int].block@
            == self.segment_blocks(ti, k)[m] by {
            assert(seg[m] as int == p[k + 1 + m]);
            assert(self.segment_headers(ti, k)[m] == self.header_at(sub[m]));
            assert(self.segment_blocks(ti, k)[m] == self.entries@[sub[m]].block@);
        }
    }

    /// The headers of the entries at the given indices, in order.
    pub(crate) fn headers_of(&self, idxs: &Vec<usize>) -> (r: Vec<Header>)
        requires
            forall|k: int| 0 <= k < idxs@.len() ==> (#[trigger] idxs@[k] as int) < self.count(),
        ensures
            r@.len() == idxs@.len(),
            forall|k: int|
                0 <= k < idxs@.len() ==> r@[k] == self.header_at(#[trigger] idxs@[k] as int),
    {
        let mut r: Vec<Header> = Vec::new();
        let mut i: usize = 0;
        while i < idxs.len()
            invariant
                i <= idxs@.len(),
                r@.len() == i,
                forall|j: int| 0 <= j < idxs@.len() ==> (#[trigger] idxs@[j] as int) < self.count(),
                forall|k: int| 0 <= k < i ==> r@[k] == self.header_at(#[trigger] idxs@[k] as int),
            decreases idxs@.len() - i,
        {
            r.push(self.entries[idxs[i]].block.header);
            i = i + 1;
        }
        r
    }

    /// Copies of the blocks of the entries at the given indices.
    pub(crate) fn blocks_of(&self, idxs: &Vec<usize>) -> (r: Vec<Block>)
        requires
            forall|k: int| 0 <= k < idxs@.len() ==> (#[trigger] idxs@[k] as int) < self.count(),
        ensures
            r@.len() == idxs@.len(),
            forall|k: int|
                0 <= k < idxs@.len() ==> r@[k]@ == self.entries@[#[trigger] idxs@[k] as int].block@,
    {
        let mut r: Vec<Block> = Vec::new();
        let mut i: usize = 0;
        while i < idxs.len()
            invariant
                i <= idxs@.len(),
                r@.len() == i,
                forall|j: int| 0 <= j < idxs@.len() ==> (#[trigger] idxs@[j] as int) < self.count(),
                forall|k: int|
                    0 <= k < i ==> r@[k]@ == self.entries@[#[trigger] idxs@[k] as int].block@,
            decreases idxs@.len() - i,
        {
            r.push(self.entries[idxs[i]].block.duplicate());
            i = i + 1;
        }
        r
    }
}

/// The mathematical values of a list of blocks.
pub open spec fn blocks_view(s: Seq<Block>) -> Seq<BlockV> {
    s.map_values(|b: Block| b@)
}

/// Whether the id list contains the id.
pub fn id_list_contains(list: &Vec<BlockId>, id: BlockId) -> (r: bool)
    ensures
        r == list@.contains(id),
{
    let mut i: usize = 0;
    while i < list.len()
        invariant
            i <= list.len(),
            forall|j: int| 0 <= j < i ==> list@[j] != id,
        decreases list.len() - i,
    {
        if list[i] == id {
            proof {
                assert(list@[i as int] == id);
            }
            return true;
        }
        i = i + 1;
    }
    false
}

} // verus!
