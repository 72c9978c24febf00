use vstd::prelude::*;

use crate::chain::{ChainView, Header};
use crate::fragment::Fragment;
use crate::ids::{BlockId, NodeId};

verus! {

/// The vocabulary exchanged over a block subscription.  Events carry no
/// payload bodies: bodies are fetched via the pull and get operations,
/// or pushed via the sinks.
#[derive(Debug)]
pub enum BlockEvent {
    /// This node announces new chain state with a header.
    Announce(Header),
    /// This node solicits the listed block bodies from the peer.
    Solicit(Vec<BlockId>),
    /// This node reports the listed blocks as missing and asks the
    /// peer to push the connecting headers.
    Missing(Vec<BlockId>),
}

/// The chain-sync state this node keeps per peer connection.
#[derive(Clone, Copy, PartialEq, Eq, Structural, Debug)]
pub enum PeerState {
    /// Nothing is outstanding.
    Idle,
    /// A `Missing` report went out; connecting headers are awaited on
    /// the push-headers sink.
    AwaitingHeaders,
    /// A `Solicit` went out; block bodies are awaited on the
    /// upload-blocks sink.
    AwaitingBlocks,
}

/// Copies a list of block ids.
pub fn clone_ids(v: &Vec<BlockId>) -> (r: Vec<BlockId>)
    ensures
        r@ == v@,
{
    let mut r: Vec<BlockId> = Vec::new();
    let mut i: usize = 0;
    while i < v.len()
        invariant
            i <= v.len(),
            r@ == v@.subrange(0, i as int),
        decreases v.len() - i,
    {
        r.push(v[i]);
        i = i + 1;
    }
    proof {
        assert(r@ =~= v@);
    }
    r
}

/// The duplex block announcement channel, seen from this node: the
/// transport adapter hands inbound peer events to the handlers and
/// drains this node's own events from the outbound queue.  Per-queue
/// order is preserved; there is no order across channels.
pub struct BlockSubscription {
    /// The per-peer chain-sync state.
    pub state: PeerState,
    /// This node's events awaiting the transport adapter, oldest first.
    pub outbound: Vec<BlockEvent>,
    /// Ids of headers pushed by the peer since the `Missing` report,
    /// newest announcement first, not yet connected to the local chain.
    pub collected: Vec<BlockId>,
    /// Ids of the block bodies solicited and not yet uploaded.
    pub solicited: Vec<BlockId>,
    /// The peer's node id, when the adapter correlates the subscription
    /// with an existing connection.
    pub subscriber: Option<NodeId>,
}

impl BlockSubscription {
    /// A fresh subscription: idle, with empty queues.
    pub fn new(subscriber: Option<NodeId>) -> (r: BlockSubscription)
        ensures
            r.state == PeerState::Idle,
            r.outbound@.len() == 0,
            r.collected@.len() == 0,
            r.solicited@.len() == 0,
            r.subscriber == subscriber,
    {
        BlockSubscription {
            state: PeerState::Idle,
            outbound: Vec::new(),
            collected: Vec::new(),
            solicited: Vec::new(),
            subscriber,
        }
    }

    /// Handles a header the peer announces unsolicited.  In the idle
    /// state, an announcement whose id is unknown locally queues a
    /// `Missing` report for exactly that id — before any `Solicit` can
    /// go out — and starts awaiting the connecting headers.  A known id,
    /// or an announcement outside the idle state, changes nothing.
    pub fn handle_announce(&mut self, chain: &ChainView, h: Header)
        requires
            chain.wf(),
        ensures
            final(self).subscriber == old(self).subscriber,
            final(self).solicited@ == old(self).solicited@,
            old(self).state == PeerState::Idle && !chain.has_id(h.id) ==> final(self).state
                == PeerState::AwaitingHeaders && final(self).collected@.len() == 0 && final(self).outbound@.len() == old(self).outbound@.len() + 1 && (forall|i: int|
                0 <= i < old(self).outbound@.len() ==> final(self).outbound@[i] == old(self).outbound@[i]) && (final(self).outbound@.last() matches BlockEvent::Missing(ids)
                && ids@ == seq![h.id]),
            !(old(self).state == PeerState::Idle && !chain.has_id(h.id)) ==> *final(self) == *old(self),
    {
        if matches!(self.state, PeerState::Idle) && !chain.has_block(h.id) {
            let mut missing: Vec<BlockId> = Vec::new();
            missing.push(h.id);
            proof {
                assert(missing@ =~= seq![h.id]);
            }
            self.outbound.push(BlockEvent::Missing(missing));
            self.collected = Vec::new();
            self.state = PeerState::AwaitingHeaders;
        }
    }

    /// Handles a header the peer pushes while connecting headers are
    /// awaited; the peer walks backwards, child before parent.  A header
    /// whose parent is still unknown is collected; one whose parent the
    /// chain already holds resolves the ancestor chain: the collected
    /// ids and its own are solicited as bodies, and the subscription
    /// starts awaiting the blocks.  Outside that state nothing changes.
    pub fn handle_pushed_header(&mut self, chain: &ChainView, h: Header)
        requires
            chain.wf(),
        ensures
            final(self).subscriber == old(self).subscriber,
            old(self).state == PeerState::AwaitingHeaders && chain.has_id(h.parent) ==> final(self).state == PeerState::AwaitingBlocks && final(self).collected@.len() == 0 && final(self).solicited@ == old(self).collected@.push(h.id) && final(self).outbound@.len() == old(self).outbound@.len() + 1 && (forall|i: int|
                0 <= i < old(self).outbound@.len() ==> final(self).outbound@[i] == old(self).outbound@[i]) && (final(self).outbound@.last() matches BlockEvent::Solicit(ids)
                && ids@ == old(self).collected@.push(h.id)),
            old(self).state == PeerState::AwaitingHeaders && !chain.has_id(h.parent) ==> final(self).state == old(self).state && final(self).collected@ == old(self).collected@.push(h.id)
                && final(self).solicited@ == old(self).solicited@ && final(self).outbound@ == old(self).outbound@,
            old(self).state != PeerState::AwaitingHeaders ==> *final(self) == *old(self),
    {
        if matches!(self.state, PeerState::AwaitingHeaders) {
            if chain.has_block(h.parent) {
                let mut wanted: Vec<BlockId> = Vec::new();
                core::mem::swap(&mut wanted, &mut self.collected);
                wanted.push(h.id);
                self.solicited = clone_ids(&wanted);
                self.outbound.push(BlockEvent::Solicit(wanted));
                self.state = PeerState::AwaitingBlocks;
            } else {
                self.collected.push(h.id);
            }
        }
    }

    /// Handles a block body the peer uploads while bodies are awaited.
    /// The first solicited occurrence of its id is crossed off; when the
    /// last one is, the exchange is complete and the subscription turns
    /// idle.  An unsolicited body, or one outside that state, changes
    /// nothing.
    pub fn handle_uploaded_block(&mut self, id: BlockId)
        ensures
            final(self).subscriber == old(self).subscriber,
            final(self).outbound@ == old(self).outbound@,
            final(self).collected@ == old(self).collected@,
            old(self).state == PeerState::AwaitingBlocks && old(self).solicited@.contains(id)
                ==> exists|j: int|
                0 <= j < old(self).solicited@.len() && old(self).solicited@[j] == id && (forall|
                    m: int,
                |
                    0 <= m < j ==> old(self).solicited@[m] != id) && final(self).solicited@ == old(self).solicited@.remove(j) && final(self).state == (if old(self).solicited@.len() == 1 {
                    PeerState::Idle
                } else {
                    PeerState::AwaitingBlocks
                }),
            !(old(self).state == PeerState::AwaitingBlocks && old(self).solicited@.contains(id))
                ==> *final(self) == *old(self),
    {
        if matches!(self.state, PeerState::AwaitingBlocks) {
            let mut i: usize = 0;
            while i < self.solicited.len()
                invariant
                    *self == *old(self),
                    old(self).state == PeerState::AwaitingBlocks,
                    i <= self.solicited@.len(),
                    forall|m: int| 0 <= m < i ==> self.solicited@[m] != id,
                decreases self.solicited@.len() - i,
            {
                if self.solicited[i] == id {
                    let ghost j = i as int;
                    let ghost before = self.solicited@;
                    self.solicited.remove(i);
                    if self.solicited.len() == 0 {
                        self.state = PeerState::Idle;
                    }
                    proof {
                        assert(before[j] == id);
                        assert(before.len() == 1 ==> self.solicited@.len() == 0);
                        assert(before.len() > 1 ==> self.solicited@.len() > 0);
                    }
                    return ;
                }
                i = i + 1;
            }
            proof {
                assert(!old(self).solicited@.contains(id));
            }
        }
    }

    /// Aborts the exchange for this peer: any stream or sink error
    /// while not idle resets the local state to idle.  Whether to retry
    /// by re-announcing is the transport adapter's decision.
    pub fn on_error(&mut self)
        ensures
            final(self).state == PeerState::Idle,
            final(self).collected@.len() == 0,
            final(self).solicited@.len() == 0,
            final(self).outbound@ == old(self).outbound@,
            final(self).subscriber == old(self).subscriber,
    {
        self.state = PeerState::Idle;
        self.collected = Vec::new();
        self.solicited = Vec::new();
    }

    /// Queues this node's own announcement of new chain state.
    pub fn announce(&mut self, h: Header)
        ensures
            final(self).outbound@.len() == old(self).outbound@.len() + 1,
            forall|i: int|
                0 <= i < old(self).outbound@.len() ==> final(self).outbound@[i] == old(self).outbound@[i],
            final(self).outbound@.last() matches BlockEvent::Announce(hh) && hh == h,
            final(self).state == old(self).state,
            final(self).collected@ == old(self).collected@,
            final(self).solicited@ == old(self).solicited@,
            final(self).subscriber == old(self).subscriber,
    {
        self.outbound.push(BlockEvent::Announce(h));
    }

    /// Hands the oldest queued event to the transport adapter, or
    /// reports that the queue is empty.
    pub fn next_outbound(&mut self) -> (r: Option<BlockEvent>)
        ensures
            final(self).state == old(self).state,
            final(self).collected@ == old(self).collected@,
            final(self).solicited@ == old(self).solicited@,
            final(self).subscriber == old(self).subscriber,
            match r {
                Some(e) => old(self).outbound@.len() > 0 && e == old(self).outbound@[0] && final(self).outbound@ == old(self).outbound@.remove(0),
                None => old(self).outbound@.len() == 0 && *final(self) == *old(self),
            },
    {
        if self.outbound.len() > 0 {
            Some(self.outbound.remove(0))
        } else {
            None
        }
    }
}

/// The duplex fragment announcement channel: every fragment accepted
/// from the peer is queued for relay onward; dedup policy belongs to
/// the consensus collaborator.
pub struct FragmentSubscription {
    /// Fragments awaiting relay, oldest first.
    pub outbound: Vec<Fragment>,
    /// The peer's node id, when the adapter correlates the subscription
    /// with an existing connection.
    pub subscriber: Option<NodeId>,
}

impl FragmentSubscription {
    /// Accepts a fragment from the peer and queues it for relay, in
    /// submission order.
    pub fn handle_inbound(&mut self, f: Fragment)
        ensures
            final(self).outbound@.len() == old(self).outbound@.len() + 1,
            forall|i: int|
                0 <= i < old(self).outbound@.len() ==> final(self).outbound@[i] == old(self).outbound@[i],
            final(self).outbound@.last()@ == f@,
            final(self).subscriber == old(self).subscriber,
    {
        self.outbound.push(f);
    }

    /// Hands the oldest queued fragment onward, or reports an empty
    /// queue.
    pub fn next_outbound(&mut self) -> (r: Option<Fragment>)
        ensures
            final(self).subscriber == old(self).subscriber,
            match r {
                Some(f) => old(self).outbound@.len() > 0 && f == old(self).outbound@[0] && final(self).outbound@ == old(self).outbound@.remove(0),
                None => old(self).outbound@.len() == 0 && *final(self) == *old(self),
            },
    {
        if self.outbound.len() > 0 {
            Some(self.outbound.remove(0))
        } else {
            None
        }
    }
}

} // verus!
