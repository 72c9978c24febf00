use network_core::block::BlockSyncService;
use network_core::chain::{Block, ChainView, Header};
use network_core::error::Error;
use network_core::fragment::{Fragment, FragmentSyncService};
use network_core::ids::{BlockDate, BlockId, FragmentId, NodeId};
use network_core::subscription::{BlockEvent, PeerState};

fn hdr(id: u64, parent: u64, epoch: u32, slot: u32) -> Header {
    Header {
        id: BlockId(id),
        parent: BlockId(parent),
        date: BlockDate { epoch, slot },
    }
}

fn small_chain() -> ChainView {
    let mut chain = ChainView::new(BlockId(1));
    chain
        .add_block(Block { header: hdr(1, 1, 0, 0), contents: vec![] })
        .unwrap();
    chain
        .add_block(Block { header: hdr(2, 1, 0, 1), contents: vec![] })
        .unwrap();
    chain.set_tip(BlockId(2)).unwrap();
    chain
}

#[test]
fn unknown_announcement_reports_missing_before_any_solicit() {
    let chain = small_chain();
    let service = BlockSyncService::new(NodeId(9), chain);
    let mut sub = service.block_subscription(Some(NodeId(9)));
    assert_eq!(sub.state, PeerState::Idle);

    // The peer announces a header this node does not know.
    sub.handle_announce(&service.chain, hdr(40, 30, 2, 0));
    assert_eq!(sub.state, PeerState::AwaitingHeaders);
    match sub.next_outbound().unwrap() {
        BlockEvent::Missing(ids) => assert_eq!(ids, vec![BlockId(40)]),
        _ => panic!("the first outbound event must be a Missing report"),
    }
    assert!(sub.next_outbound().is_none());
}

#[test]
fn known_announcement_changes_nothing() {
    let service = BlockSyncService::new(NodeId(9), small_chain());
    let mut sub = service.block_subscription(None);
    sub.handle_announce(&service.chain, hdr(2, 1, 0, 1));
    assert_eq!(sub.state, PeerState::Idle);
    assert!(sub.next_outbound().is_none());
}

#[test]
fn resolved_headers_solicit_bodies_then_uploads_turn_idle() {
    let service = BlockSyncService::new(NodeId(9), small_chain());
    let mut sub = service.block_subscription(None);
    sub.handle_announce(&service.chain, hdr(40, 30, 2, 0));
    let _missing = sub.next_outbound().unwrap();

    // The peer pushes headers backwards: 40 -> 30, then 30 -> 2 which
    // connects to the known chain and resolves the ancestor walk.
    sub.handle_pushed_header(&service.chain, hdr(40, 30, 2, 0));
    assert_eq!(sub.state, PeerState::AwaitingHeaders);
    sub.handle_pushed_header(&service.chain, hdr(30, 2, 1, 0));
    assert_eq!(sub.state, PeerState::AwaitingBlocks);
    match sub.next_outbound().unwrap() {
        BlockEvent::Solicit(ids) => assert_eq!(ids, vec![BlockId(40), BlockId(30)]),
        _ => panic!("a Solicit must follow the resolved headers"),
    }

    // The peer uploads both bodies; the exchange completes.
    sub.handle_uploaded_block(BlockId(30));
    assert_eq!(sub.state, PeerState::AwaitingBlocks);
    sub.handle_uploaded_block(BlockId(40));
    assert_eq!(sub.state, PeerState::Idle);
}

#[test]
fn errors_reset_the_peer_state_to_idle() {
    let service = BlockSyncService::new(NodeId(9), small_chain());
    let mut sub = service.block_subscription(None);
    sub.handle_announce(&service.chain, hdr(40, 30, 2, 0));
    assert_eq!(sub.state, PeerState::AwaitingHeaders);
    sub.on_error();
    assert_eq!(sub.state, PeerState::Idle);
}

#[test]
fn own_announcements_keep_submission_order() {
    let service = BlockSyncService::new(NodeId(9), small_chain());
    let mut sub = service.block_subscription(None);
    sub.announce(hdr(2, 1, 0, 1));
    sub.announce(hdr(3, 2, 0, 2));
    match sub.next_outbound().unwrap() {
        BlockEvent::Announce(h) => assert_eq!(h.id, BlockId(2)),
        _ => panic!("expected the first announcement"),
    }
    match sub.next_outbound().unwrap() {
        BlockEvent::Announce(h) => assert_eq!(h.id, BlockId(3)),
        _ => panic!("expected the second announcement"),
    }
}

#[test]
fn push_headers_sink_keeps_order_and_fails_terminally() {
    let service = BlockSyncService::new(NodeId(9), small_chain());
    let mut sink = service.get_push_headers_sink();
    sink.send(hdr(10, 2, 1, 0)).unwrap();
    sink.send(hdr(11, 10, 1, 1)).unwrap();
    let items = sink.take_items();
    assert_eq!(items.len(), 2);
    assert_eq!(items[0].id, BlockId(10));
    assert_eq!(items[1].id, BlockId(11));
    sink.fail();
    assert_eq!(sink.send(hdr(12, 11, 1, 2)).unwrap_err(), Error::Failed);
}

#[test]
fn upload_blocks_sink_keeps_order() {
    let service = BlockSyncService::new(NodeId(9), small_chain());
    let mut sink = service.get_upload_blocks_sink();
    sink.send(Block { header: hdr(10, 2, 1, 0), contents: vec![1] }).unwrap();
    sink.send(Block { header: hdr(11, 10, 1, 1), contents: vec![2] }).unwrap();
    let items = sink.take_items();
    assert_eq!(items.len(), 2);
    assert_eq!(items[0].header.id, BlockId(10));
    assert_eq!(items[1].header.id, BlockId(11));
}

#[test]
fn get_fragments_is_whole_or_nothing() {
    let mut service = FragmentSyncService::new(NodeId(3));
    service.add_fragment(Fragment { id: FragmentId(1), contents: vec![1, 2] }).unwrap();
    service.add_fragment(Fragment { id: FragmentId(2), contents: vec![3] }).unwrap();

    let mut stream = service.get_fragments(&vec![FragmentId(2), FragmentId(1)]).unwrap();
    assert_eq!(stream.next().unwrap().id, FragmentId(2));
    assert_eq!(stream.next().unwrap().id, FragmentId(1));
    assert!(stream.next().is_none());

    let err = service.get_fragments(&vec![FragmentId(1), FragmentId(9)]).unwrap_err();
    assert_eq!(err, Error::NotFound);
}

#[test]
fn duplicate_fragment_is_refused() {
    let mut service = FragmentSyncService::new(NodeId(3));
    service.add_fragment(Fragment { id: FragmentId(1), contents: vec![] }).unwrap();
    let err = service.add_fragment(Fragment { id: FragmentId(1), contents: vec![7] }).unwrap_err();
    assert_eq!(err, Error::Failed);
}

#[test]
fn fragment_subscription_relays_in_order() {
    let service = FragmentSyncService::new(NodeId(3));
    let mut sub = service.fragment_subscription(Some(NodeId(3)));
    sub.handle_inbound(Fragment { id: FragmentId(5), contents: vec![5] });
    sub.handle_inbound(Fragment { id: FragmentId(6), contents: vec![6] });
    assert_eq!(sub.next_outbound().unwrap().id, FragmentId(5));
    assert_eq!(sub.next_outbound().unwrap().id, FragmentId(6));
    assert!(sub.next_outbound().is_none());
}
