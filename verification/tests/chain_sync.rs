use network_core::block::BlockSyncService;
use network_core::chain::{Block, ChainView, Header};
use network_core::error::Error;
use network_core::ids::{BlockDate, BlockId, NodeId};

fn mk_block(id: u64, parent: u64, epoch: u32, slot: u32) -> Block {
    Block {
        header: Header {
            id: BlockId(id),
            parent: BlockId(parent),
            date: BlockDate { epoch, slot },
        },
        contents: vec![id as u8],
    }
}

/// Chain G(1) -> B1(2) -> B2(3) -> B3(4), with tip B3.
fn four_block_chain() -> ChainView {
    let mut chain = ChainView::new(BlockId(1));
    chain.add_block(mk_block(1, 1, 0, 0)).unwrap();
    chain.add_block(mk_block(2, 1, 0, 1)).unwrap();
    chain.add_block(mk_block(3, 2, 0, 2)).unwrap();
    chain.add_block(mk_block(4, 3, 0, 3)).unwrap();
    chain.set_tip(BlockId(4)).unwrap();
    chain
}

fn service() -> BlockSyncService {
    BlockSyncService::new(NodeId(7), four_block_chain())
}

#[test]
fn block0_reports_genesis() {
    let s = service();
    assert_eq!(s.block0(), BlockId(1));
    assert_eq!(s.node_id(), NodeId(7));
}

#[test]
fn tip_is_idempotent_without_updates() {
    let s = service();
    let h1 = s.tip().unwrap();
    let h2 = s.tip().unwrap();
    assert_eq!(h1, h2);
    assert_eq!(h1.id, BlockId(4));
}

#[test]
fn tip_unavailable_without_chain_state() {
    let s = BlockSyncService::new(NodeId(7), ChainView::new(BlockId(1)));
    assert_eq!(s.tip().unwrap_err(), Error::Unavailable);
}

#[test]
fn pull_blocks_resolves_latest_candidate() {
    let s = service();
    let mut stream = s.pull_blocks(&vec![BlockId(1), BlockId(2)], BlockId(4)).unwrap();
    let first = stream.next().unwrap();
    let second = stream.next().unwrap();
    assert_eq!(first.header.id, BlockId(3));
    assert_eq!(second.header.id, BlockId(4));
    assert!(stream.next().is_none());
}

#[test]
fn pull_blocks_from_non_ancestor_fails() {
    let mut chain = four_block_chain();
    // A side branch off B1, not an ancestor of B3.
    chain.add_block(mk_block(5, 2, 0, 2)).unwrap();
    let s = BlockSyncService::new(NodeId(7), chain);
    let err = s.pull_blocks(&vec![BlockId(5)], BlockId(4)).unwrap_err();
    assert_eq!(err, Error::NotFound);
}

#[test]
fn pull_blocks_to_unknown_end_fails() {
    let s = service();
    let err = s.pull_blocks(&vec![BlockId(1), BlockId(2)], BlockId(99)).unwrap_err();
    assert_eq!(err, Error::NotFound);
}

#[test]
fn pull_headers_matches_pull_blocks() {
    let s = service();
    let mut stream = s.pull_headers(&vec![BlockId(2)], BlockId(4)).unwrap();
    assert_eq!(stream.next().unwrap().id, BlockId(3));
    assert_eq!(stream.next().unwrap().id, BlockId(4));
    assert!(stream.next().is_none());
}

#[test]
fn pull_headers_to_tip_ascends_and_ends_at_tip() {
    let s = service();
    let tip = s.tip().unwrap();
    let mut stream = s.pull_headers_to_tip(&vec![BlockId(1)]).unwrap();
    let mut previous: Option<Header> = None;
    let mut last: Option<Header> = None;
    while let Some(h) = stream.next() {
        if let Some(p) = previous {
            assert_eq!(h.parent, p.id);
            assert!(p.date.epoch < h.date.epoch || (p.date.epoch == h.date.epoch && p.date.slot < h.date.slot));
        }
        previous = Some(h);
        last = Some(h);
    }
    assert_eq!(last.unwrap(), tip);
}

#[test]
fn pull_to_tip_without_tip_is_unavailable() {
    let mut chain = ChainView::new(BlockId(1));
    chain.add_block(mk_block(1, 1, 0, 0)).unwrap();
    let s = BlockSyncService::new(NodeId(7), chain);
    assert_eq!(s.pull_blocks_to_tip(&vec![BlockId(1)]).unwrap_err(), Error::Unavailable);
    assert_eq!(s.pull_headers_to_tip(&vec![BlockId(1)]).unwrap_err(), Error::Unavailable);
}

#[test]
fn dropping_a_pull_stream_mid_way_emits_nothing_further() {
    let s = service();
    let mut stream = s.pull_blocks_to_tip(&vec![BlockId(1)]).unwrap();
    let first = stream.next().unwrap();
    assert_eq!(first.header.id, BlockId(2));
    drop(stream);
    // The service is untouched by the abandoned stream.
    assert_eq!(s.tip().unwrap().id, BlockId(4));
}

#[test]
fn get_blocks_returns_requested_order() {
    let s = service();
    let mut stream = s.get_blocks(&vec![BlockId(3), BlockId(1)]).unwrap();
    assert_eq!(stream.next().unwrap().header.id, BlockId(3));
    assert_eq!(stream.next().unwrap().header.id, BlockId(1));
    assert!(stream.next().is_none());
}

#[test]
fn get_blocks_with_one_unknown_id_fails_whole_call() {
    let s = service();
    let err = s.get_blocks(&vec![BlockId(3), BlockId(99), BlockId(1)]).unwrap_err();
    assert_eq!(err, Error::NotFound);
}

#[test]
fn get_headers_with_one_unknown_id_fails_whole_call() {
    let s = service();
    let err = s.get_headers(&vec![BlockId(99)]).unwrap_err();
    assert_eq!(err, Error::NotFound);
    let mut ok = s.get_headers(&vec![BlockId(2)]).unwrap();
    assert_eq!(ok.next().unwrap().id, BlockId(2));
}

#[test]
fn add_block_rejects_unknown_parent_and_duplicates() {
    let mut chain = four_block_chain();
    assert_eq!(chain.add_block(mk_block(6, 42, 1, 0)).unwrap_err(), Error::NotFound);
    assert_eq!(chain.add_block(mk_block(3, 1, 1, 0)).unwrap_err(), Error::Failed);
    // A date not after the parent's is refused too.
    assert_eq!(chain.add_block(mk_block(7, 4, 0, 3)).unwrap_err(), Error::Failed);
}

#[test]
fn set_tip_of_unknown_id_fails() {
    let mut chain = four_block_chain();
    assert_eq!(chain.set_tip(BlockId(99)).unwrap_err(), Error::NotFound);
    chain.set_tip(BlockId(2)).unwrap();
    let s = BlockSyncService::new(NodeId(1), chain);
    assert_eq!(s.tip().unwrap().id, BlockId(2));
}

#[test]
fn blocks_project_their_header() {
    let b = mk_block(2, 1, 0, 1);
    assert_eq!(b.header(), b.header);
}
