use vstd::prelude::*;

use crate::chain::{blocks_view, Block, ChainView, Header};
use crate::error::Error;
use crate::ids::{BlockId, NodeId};
use crate::stream::{BlockStream, HeaderStream};
use crate::subscription::{BlockSubscription, PeerState};

verus! {

/// The sink the transport adapter feeds with headers the peer pushes
/// in answer to a `Missing` report.  Accepted headers queue here, in
/// submission order, for the consensus collaborator to drain.  A sink
/// failure is terminal: every later submission is refused.
pub struct PushHeadersSink {
    pub items: Vec<Header>,
    pub failed: bool,
}

impl PushHeadersSink {
    /// An open, empty sink.
    pub fn new() -> (r: PushHeadersSink)
        ensures
            r.items@.len() == 0,
            !r.failed,
    {
        PushHeadersSink { items: Vec::new(), failed: false }
    }

    /// Accepts one pushed header, preserving submission order; a failed
    /// sink refuses it.
    pub fn send(&mut self, h: Header) -> (r: Result<(), Error>)
        ensures
            final(self).failed == old(self).failed,
            match r {
                Ok(()) => !old(self).failed && final(self).items@ == old(self).items@.push(h),
                Err(e) => e == Error::Failed && old(self).failed && *final(self) == *old(self),
            },
    {
        if self.failed {
            Err(Error::Failed)
        } else {
            self.items.push(h);
            Ok(())
        }
    }

    /// Marks the sink as abnormally terminated.
    pub fn fail(&mut self)
        ensures
            final(self).failed,
            final(self).items@ == old(self).items@,
    {
        self.failed = true;
    }

    /// Drains the queued headers for the consensus collaborator, in
    /// submission order.
    pub fn take_items(&mut self) -> (r: Vec<Header>)
        ensures
            r@ == old(self).items@,
            final(self).items@.len() == 0,
            final(self).failed == old(self).failed,
    {
        let mut drained: Vec<Header> = Vec::new();
        core::mem::swap(&mut drained, &mut self.items);
        drained
    }
}

/// The symmetric sink for full block bodies uploaded in answer to a
/// `Solicit` event.
pub struct UploadBlocksSink {
    pub items: Vec<Block>,
    pub failed: bool,
}

impl UploadBlocksSink {
    /// An open, empty sink.
    pub fn new() -> (r: UploadBlocksSink)
        ensures
            r.items@.len() == 0,
            !r.failed,
    {
        UploadBlocksSink { items: Vec::new(), failed: false }
    }

    /// Accepts one uploaded block, preserving submission order; a
    /// failed sink refuses it.
    pub fn send(&mut self, b: Block) -> (r: Result<(), Error>)
        ensures
            final(self).failed == old(self).failed,
            match r {
                Ok(()) => !old(self).failed && final(self).items@ == old(self).items@.push(b),
                Err(e) => e == Error::Failed && old(self).failed && *final(self) == *old(self),
            },
    {
        if self.failed {
            Err(Error::Failed)
        } else {
            self.items.push(b);
            Ok(())
        }
    }

    /// Marks the sink as abnormally terminated.
    pub fn fail(&mut self)
        ensures
            final(self).failed,
            final(self).items@ == old(self).items@,
    {
        self.failed = true;
    }

    /// Drains the queued blocks for the consensus collaborator, in
    /// submission order.
    pub fn take_items(&mut self) -> (r: Vec<Block>)
        ensures
            r@ == old(self).items@,
            final(self).items@.len() == 0,
            final(self).failed == old(self).failed,
    {
        let mut drained: Vec<Block> = Vec::new();
        core::mem::swap(&mut drained, &mut self.items);
        drained
    }
}

/// The service giving peers access to block data: chain-tip discovery,
/// point lookups, ancestor-bounded range pulls, the upload sinks and
/// the announcement subscription.  Each operation observes the one
/// chain snapshot the service holds when it is called.
pub struct BlockSyncService {
    pub chain: ChainView,
    pub peer: NodeId,
}

impl BlockSyncService {
    /// Well-formedness: the chain view is well-formed.
    pub open spec fn wf(self) -> bool {
        self.chain.wf()
    }

    /// A service over a chain snapshot, for the connected peer.
    pub fn new(peer: NodeId, chain: ChainView) -> (r: BlockSyncService)
        requires
            chain.wf(),
        ensures
            r.wf(),
            r.chain == chain,
            r.peer == peer,
    {
        BlockSyncService { chain, peer }
    }

    /// The id of the connected peer node.
    pub fn node_id(&self) -> (r: NodeId)
        ensures
            r == self.peer,
    {
        self.peer
    }

    /// The fixed genesis id of the chain served by this node.  Never
    /// fails, even before any chain state is loaded.
    pub fn block0(&self) -> (r: BlockId)
        ensures
            r == self.chain.genesis,
    {
        self.chain.genesis
    }

    /// The header of the node's current best chain.  With no chain
    /// state yet, fails with `Unavailable`.  The answer depends on the
    /// chain snapshot alone: with no intervening chain update, repeated
    /// calls return identical headers.
    pub fn tip(&self) -> (r: Result<Header, Error>)
        requires
            self.wf(),
        ensures
            match r {
                Ok(h) => self.chain.has_tip() && h == self.chain.tip_header(),
                Err(e) => e == Error::Unavailable && !self.chain.has_tip(),
            },
    {
        match self.chain.tip_idx {
            Some(t) => Ok(self.chain.entries[t].block.header),
            None => Err(Error::Unavailable),
        }
    }

    /// Looks every requested header up.  Any unknown id fails the whole
    /// call with `NotFound`: no partial stream survives.  Found headers
    /// are streamed in request order.
    pub fn get_headers(&self, ids: &Vec<BlockId>) -> (r: Result<HeaderStream, Error>)
        requires
            self.wf(),
        ensures
            match r {
                Ok(s) => s.wf() && s.pos == 0 && (forall|i: int|
                    0 <= i < ids@.len() ==> self.chain.has_id(#[trigger] ids@[i]))
                    && s.items@.len() == ids@.len() && (forall|i: int|
                    0 <= i < ids@.len() ==> s.items@[i] == self.chain.header_at(
                        self.chain.idx_of(#[trigger] ids@[i]),
                    )),
                Err(e) => e == Error::NotFound && exists|i: int|
                    0 <= i < ids@.len() && !self.chain.has_id(#[trigger] ids@[i]),
            },
    {
        let mut found: Vec<Header> = Vec::new();
        let mut i: usize = 0;
        while i < ids.len()
            invariant
                self.wf(),
                i <= ids@.len(),
                found@.len() == i,
                forall|j: int| 0 <= j < i ==> self.chain.has_id(#[trigger] ids@[j]),
                forall|j: int|
                    0 <= j < i ==> found@[j] == self.chain.header_at(
                        self.chain.idx_of(#[trigger] ids@[j]),
                    ),
            decreases ids@.len() - i,
        {
            match self.chain.lookup(ids[i]) {
                Some(t) => {
                    proof {
                        assert(self.chain.has_id(ids@[i as int]));
                        self.chain.lemma_idx_of(ids@[i as int]);
                    }
                    found.push(self.chain.entries[t].block.header);
                },
                None => {
                    proof {
                        assert(!self.chain.has_id(ids@[i as int]));
                    }
                    return Err(Error::NotFound);
                },
            }
            i = i + 1;
        }
        Ok(HeaderStream::new(found))
    }

    /// Looks every requested block up, under the same whole-or-nothing
    /// contract as `get_headers`.
    pub fn get_blocks(&self, ids: &Vec<BlockId>) -> (r: Result<BlockStream, Error>)
        requires
            self.wf(),
        ensures
            match r {
                Ok(s) => s.wf() && s.pos == 0 && (forall|i: int|
                    0 <= i < ids@.len() ==> self.chain.has_id(#[trigger] ids@[i]))
                    && s.items@.len() == ids@.len() && (forall|i: int|
                    0 <= i < ids@.len() ==> s.items@[i]@ == self.chain.entries@[self.chain.idx_of(
                        #[trigger] ids@[i],
                    )].block@),
                Err(e) => e == Error::NotFound && exists|i: int|
                    0 <= i < ids@.len() && !self.chain.has_id(#[trigger] ids@[i]),
            },
    {
        let mut found: Vec<Block> = Vec::new();
        let mut i: usize = 0;
        while i < ids.len()
            invariant
                self.wf(),
                i <= ids@.len(),
                found@.len() == i,
                forall|j: int| 0 <= j < i ==> self.chain.has_id(#[trigger] ids@[j]),
                forall|j: int|
                    0 <= j < i ==> found@[j]@ == self.chain.entries@[self.chain.idx_of(
                        #[trigger] ids@[j],
                    )].block@,
            decreases ids@.len() - i,
        {
            match self.chain.lookup(ids[i]) {
                Some(t) => {
                    proof {
                        assert(self.chain.has_id(ids@[i as int]));
                        self.chain.lemma_idx_of(ids@[i as int]);
                    }
                    found.push(self.chain.entries[t].block.duplicate());
                },
                None => {
                    proof {
                        assert(!self.chain.has_id(ids@[i as int]));
                    }
                    return Err(Error::NotFound);
                },
            }
            i = i + 1;
        }
        Ok(BlockStream::new(found))
    }

    /// The ancestor-bounded range pull for headers: among the candidate
    /// `from` ids, the one on the ancestor chain of `to` with no other
    /// candidate strictly between it and `to` is resolved, and every
    /// header strictly after it up to and including `to` is streamed in
    /// ascending chain order.  An unknown `to`, or a candidate list with
    /// no id on `to`'s ancestor chain, fails with `NotFound`.
    pub fn pull_headers(&self, from: &Vec<BlockId>, to: BlockId) -> (r: Result<
        HeaderStream,
        Error,
    >)
        requires
            self.wf(),
        ensures
            match r {
                Ok(s) => s.wf() && s.pos == 0 && self.chain.has_id(to) && exists|k: int|
                    #[trigger] self.chain.resolves_at(from@, self.chain.idx_of(to), k)
                        && s.items@ == self.chain.segment_headers(self.chain.idx_of(to), k),
                Err(e) => e == Error::NotFound && !(self.chain.has_id(to)
                    && self.chain.some_resolves(from@, self.chain.idx_of(to))),
            },
    {
        let (seg, kg) = match self.chain.pull_indices(from, to) {
            Ok(p) => p,
            Err(e) => {
                return Err(e);
            },
        };
        let ghost ti = self.chain.idx_of(to);
        let ghost k = kg@;
        proof {
            self.chain.lemma_idx_of(to);
            self.chain.lemma_segment_entries(from@, ti, k, seg@);
        }
        let hs = self.chain.headers_of(&seg);
        proof {
            assert(hs@ =~= self.chain.segment_headers(ti, k));
        }
        Ok(HeaderStream::new(hs))
    }

    /// The ancestor-bounded range pull for blocks, under the same
    /// resolution and ordering contract as `pull_headers`.
    pub fn pull_blocks(&self, from: &Vec<BlockId>, to: BlockId) -> (r: Result<BlockStream, Error>)
        requires
            self.wf(),
        ensures
            match r {
                Ok(s) => s.wf() && s.pos == 0 && self.chain.has_id(to) && exists|k: int|
                    #[trigger] self.chain.resolves_at(from@, self.chain.idx_of(to), k)
                        && blocks_view(s.items@) == self.chain.segment_blocks(
                        self.chain.idx_of(to),
                        k,
                    ),
                Err(e) => e == Error::NotFound && !(self.chain.has_id(to)
                    && self.chain.some_resolves(from@, self.chain.idx_of(to))),
            },
    {
        let (seg, kg) = match self.chain.pull_indices(from, to) {
            Ok(p) => p,
            Err(e) => {
                return Err(e);
            },
        };
        let ghost ti = self.chain.idx_of(to);
        let ghost k = kg@;
        proof {
            self.chain.lemma_idx_of(to);
            self.chain.lemma_segment_entries(from@, ti, k, seg@);
        }
        let bs = self.chain.blocks_of(&seg);
        proof {
            assert forall|m: int| 0 <= m < bs@.len() implies blocks_view(bs@)[m]
                == self.chain.segment_blocks(ti, k)[m] by {
                assert(blocks_view(bs@)[m] == bs@[m]@);
            }
            assert(blocks_view(bs@) =~= self.chain.segment_blocks(ti, k));
        }
        Ok(BlockStream::new(bs))
    }

    /// Streams headers from the resolved candidate up to the node's own
    /// tip as observed at call time; later tip advancement is not
    /// included.  With no chain state yet, fails with `Unavailable`.
    pub fn pull_headers_to_tip(&self, from: &Vec<BlockId>) -> (r: Result<HeaderStream, Error>)
        requires
            self.wf(),
        ensures
            match r {
                Ok(s) => s.wf() && s.pos == 0 && self.chain.has_tip() && exists|k: int|
                    #[trigger] self.chain.resolves_at(from@, self.chain.tip_i(), k) && s.items@
                        == self.chain.segment_headers(self.chain.tip_i(), k),
                Err(e) => (e == Error::Unavailable && !self.chain.has_tip()) || (e
                    == Error::NotFound && self.chain.has_tip() && !self.chain.some_resolves(
                    from@,
                    self.chain.tip_i(),
                )),
            },
    {
        let t = match self.chain.tip_idx {
            Some(t) => t,
            None => {
                return Err(Error::Unavailable);
            },
        };
        let to = self.chain.entries[t].block.header.id;
        proof {
            assert(self.chain.id_at(t as int) == to);
            assert(self.chain.has_id(to));
            self.chain.lemma_idx_of(to);
            assert(self.chain.idx_of(to) == self.chain.tip_i());
        }
        self.pull_headers(from, to)
    }

    /// Streams blocks from the resolved candidate up to the node's own
    /// tip as observed at call time, under the same contract as
    /// `pull_headers_to_tip`.
    pub fn pull_blocks_to_tip(&self, from: &Vec<BlockId>) -> (r: Result<BlockStream, Error>)
        requires
            self.wf(),
        ensures
            match r {
                Ok(s) => s.wf() && s.pos == 0 && self.chain.has_tip() && exists|k: int|
                    #[trigger] self.chain.resolves_at(from@, self.chain.tip_i(), k) && blocks_view(
                        s.items@,
                    ) == self.chain.segment_blocks(self.chain.tip_i(), k),
                Err(e) => (e == Error::Unavailable && !self.chain.has_tip()) || (e
                    == Error::NotFound && self.chain.has_tip() && !self.chain.some_resolves(
                    from@,
                    self.chain.tip_i(),
                )),
            },
    {
        let t = match self.chain.tip_idx {
            Some(t) => t,
            None => {
                return Err(Error::Unavailable);
            },
        };
        let to = self.chain.entries[t].block.header.id;
        proof {
            assert(self.chain.id_at(t as int) == to);
            assert(self.chain.has_id(to));
            self.chain.lemma_idx_of(to);
            assert(self.chain.idx_of(to) == self.chain.tip_i());
        }
        self.pull_blocks(from, to)
    }

    /// A fresh sink for headers the peer pushes in answer to a
    /// `Missing` report.
    pub fn get_push_headers_sink(&self) -> (r: PushHeadersSink)
        ensures
            r.items@.len() == 0,
            !r.failed,
    {
        PushHeadersSink::new()
    }

    /// A fresh sink for blocks the peer uploads in answer to a
    /// `Solicit` event.
    pub fn get_upload_blocks_sink(&self) -> (r: UploadBlocksSink)
        ensures
            r.items@.len() == 0,
            !r.failed,
    {
        UploadBlocksSink::new()
    }

    /// Repeated `tip` calls with no intervening chain update return
    /// identical headers: the answer is a function of the snapshot
    /// alone, as `tip`'s contract pins it.
    pub proof fn lemma_tip_idempotent(self, h1: Header, h2: Header)
        requires
            self.chain.has_tip(),
            h1 == self.chain.tip_header(),
            h2 == self.chain.tip_header(),
        ensures
            h1 == h2,
    {
    }

    /// Establishes the duplex block announcement subscription for the
    /// peer; the stream of inbound peer events is driven through the
    /// subscription's handlers, and this node's own events come out of
    /// its outbound queue.
    pub fn block_subscription(&self, subscriber: Option<NodeId>) -> (r: BlockSubscription)
        ensures
            r.state == PeerState::Idle,
            r.outbound@.len() == 0,
            r.collected@.len() == 0,
            r.solicited@.len() == 0,
            r.subscriber == subscriber,
    {
        BlockSubscription::new(subscriber)
    }
}

} // verus!
