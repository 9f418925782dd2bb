use chain_sync::capabilities::PeersWithCapability;
use chain_sync::chain::BlockHash;
use chain_sync::client::{BlockId, Client, NewBlock, PeerData};
use chain_sync::peers::{PeerId, PeerSet};
use chain_sync::primitives::{BlockNumber, StarkHash};
use chain_sync::rotation::{Phase, Rotation};
use chain_sync::streams::{
    BlockHeadersRequest, BlockHeadersResponse, Direction, HeaderStream, Iteration, Step,
    TransactionStream, TransactionsRequest, TransactionsResponse,
};
use std::time::Duration;

fn peer(n: u8) -> PeerId {
    PeerId::from_bytes(vec![0x00, 0x24, n])
}

fn peers(ns: &[u8]) -> Vec<PeerId> {
    ns.iter().map(|n| peer(*n)).collect()
}

fn set(ns: &[u8]) -> PeerSet {
    PeerSet::from_vec(peers(ns))
}

fn sorted(mut v: Vec<PeerId>) -> Vec<Vec<u8>> {
    let mut bytes: Vec<Vec<u8>> = v.drain(..).map(|p| p.to_bytes()).collect();
    bytes.sort();
    bytes
}

#[test]
fn peer_data_new_pairs_peer_and_data() {
    let d = PeerData::new(peer(7), 42u32);
    assert_eq!(d.peer, peer(7));
    assert_eq!(d.data, 42);
}

#[test]
fn peer_id_bytes_round_trip() {
    let p = PeerId::from_bytes(vec![1, 2, 3]);
    assert_eq!(p.to_bytes(), vec![1, 2, 3]);
    assert!(p.same(&p.clone()));
    assert!(!p.same(&PeerId::from_bytes(vec![1, 2])));
    assert!(!p.same(&PeerId::from_bytes(vec![1, 2, 4])));
}

#[test]
fn peer_set_holds_each_peer_once() {
    let mut s = PeerSet::from_vec(peers(&[1, 2, 2, 3, 1]));
    assert_eq!(s.len(), 3);
    assert!(s.contains(&peer(2)));
    assert!(!s.insert(peer(3)));
    assert!(s.insert(peer(4)));
    assert_eq!(s.len(), 4);
    assert!(s.remove(&peer(1)));
    assert!(!s.remove(&peer(1)));
    assert!(!s.contains(&peer(1)));
    assert_eq!(sorted(s.to_vec()), sorted(peers(&[2, 3, 4])));
}

#[test]
fn capability_cache_fresh_and_missing() {
    let mut cache = PeersWithCapability::new(Duration::from_secs(60).as_nanos());
    assert!(cache.get("headers").is_none());
    cache.update("headers", set(&[1, 2]));
    let got = cache.get("headers").unwrap();
    assert_eq!(sorted(got.to_vec()), sorted(peers(&[1, 2])));
    assert!(cache.get("transactions").is_none());
    // an update replaces what was held for the capability
    cache.update("headers", set(&[3]));
    assert_eq!(sorted(cache.get("headers").unwrap().to_vec()), sorted(peers(&[3])));
    cache.update("transactions", set(&[4, 5]));
    assert_eq!(sorted(cache.get("headers").unwrap().to_vec()), sorted(peers(&[3])));
    assert_eq!(cache.get("transactions").unwrap().len(), 2);
}

#[test]
fn capability_cache_expired_is_missing() {
    let mut cache = PeersWithCapability::new(1_000);
    cache.update("headers", set(&[1, 2]));
    // at the timeout what is held still counts; past it, nothing does
    assert!(cache.get_at(0, "headers").is_some());
    assert!(cache.get_at(1_000, "headers").is_some());
    assert!(cache.get_at(1_001, "headers").is_none());
    assert!(cache.get_at(u128::MAX, "headers").is_none());
    assert!(cache.get_at(0, "other").is_none());
    // expiry clears nothing
    assert_eq!(sorted(cache.get_at(5, "headers").unwrap().to_vec()), sorted(peers(&[1, 2])));

    let mut stale = PeersWithCapability::new(0);
    stale.update("headers", set(&[1, 2]));
    let begun = std::time::Instant::now();
    while begun.elapsed() < Duration::from_millis(5) {}
    // one clock for all capabilities: after the timeout nothing is handed out
    assert!(stale.get("headers").is_none());
}

#[test]
fn update_starts_the_clock_anew() {
    let long_ago = std::time::Instant::now();
    let mut cache = PeersWithCapability::new_at(Duration::from_millis(3).as_nanos(), long_ago);
    while long_ago.elapsed() < Duration::from_millis(5) {}
    cache.update_at(long_ago, "headers", set(&[1]));
    // the clock was started at a moment that is too long ago
    assert!(cache.get("headers").is_none());
    let mut cache = PeersWithCapability::new_at(Duration::from_secs(60).as_nanos(), long_ago);
    cache.update_at(long_ago, "headers", set(&[1]));
    assert!(cache.get("headers").is_some());
    // an update for one capability starts the clock for all of them
    let timeout = Duration::from_millis(200);
    let mut cache = PeersWithCapability::new_at(timeout.as_nanos(), long_ago);
    cache.update_at(long_ago, "headers", set(&[1]));
    while long_ago.elapsed() <= timeout {}
    assert!(cache.get("headers").is_none());
    cache.update("transactions", set(&[2]));
    assert!(cache.get("headers").is_some());
}

#[test]
fn capability_cache_default_is_empty() {
    let mut cache = PeersWithCapability::default();
    assert!(cache.get("headers").is_none());
    cache.update("headers", set(&[1]));
    // what is learnt counts for a minute
    assert!(cache.get_at(60_000_000_000, "headers").is_some());
    assert!(cache.get_at(60_000_000_001, "headers").is_none());
}

#[test]
fn client_removes_itself_from_discovered_peers() {
    let mut client = Client::new(peer(9), "blocks".to_string());
    assert!(client.peers_with_sync_capability("headers").is_none());
    let list = client.update_peers_with_sync_capability("headers", set(&[1, 9, 2, 3]));
    assert_eq!(sorted(list), sorted(peers(&[1, 2, 3])));
    let cached = client.peers_with_sync_capability("headers").unwrap();
    assert_eq!(sorted(cached), sorted(peers(&[1, 2, 3])));
    // the node itself need not be among the discovered peers
    let list = client.update_peers_with_sync_capability("transactions", set(&[4, 5]));
    assert_eq!(sorted(list), sorted(peers(&[4, 5])));
}

#[test]
fn expired_knowledge_means_discovery() {
    let mut client = Client::new(peer(9), "blocks".to_string());
    client.update_peers_with_sync_capability("headers", set(&[1, 2, 9]));
    assert!(client.peers_with_sync_capability_at(60_000_000_001, "headers").is_none());
    let list = client.peers_with_sync_capability_at(60_000_000_000, "headers").unwrap();
    assert_eq!(sorted(list), sorted(peers(&[1, 2])));
    assert!(client.peers_with_sync_capability_at(0, "transactions").is_none());
}

#[test]
fn known_empty_set_is_handed_out() {
    let mut client = Client::new(peer(9), "blocks".to_string());
    let list = client.update_peers_with_sync_capability("headers", set(&[9]));
    assert!(list.is_empty());
    // what is known is fresh and holds no peer: no peers, and no discovery
    assert_eq!(client.peers_with_sync_capability("headers"), Some(vec![]));
    assert_eq!(client.peers_with_sync_capability_at(0, "headers"), Some(vec![]));
}

#[test]
fn discovery_starts_the_clock_at_the_given_moment() {
    let long_ago = std::time::Instant::now();
    while long_ago.elapsed() < Duration::from_millis(2) {}
    let mut client = Client::new(peer(9), "blocks".to_string());
    let list = client.update_peers_with_sync_capability_at(long_ago, "headers", set(&[1, 9]));
    assert_eq!(sorted(list), sorted(peers(&[1])));
    assert!(client.peers_with_sync_capability("headers").is_some());
}

#[test]
fn shuffle_keeps_the_peers() {
    let mut client = Client::new(peer(0), "blocks".to_string());
    let all: Vec<u8> = (1..=40).collect();
    client.update_peers_with_sync_capability("headers", set(&all));
    let mut orders = std::collections::HashSet::new();
    for _ in 0..20 {
        let list = client.peers_with_sync_capability("headers").unwrap();
        assert_eq!(list.len(), 40);
        orders.insert(list.iter().map(|p| p.to_bytes()).collect::<Vec<_>>());
        assert_eq!(sorted(list), sorted(peers(&all)));
    }
    // forty peers do not come out in one order twenty times over
    assert!(orders.len() > 1);
}

#[test]
fn propagate_new_head_publishes_block_id_on_topic() {
    let client = Client::new(peer(9), "starknet/blocks".to_string());
    let id = BlockId { number: 17, hash: BlockHash(StarkHash { w3: 0, w2: 0, w1: 0, w0: 5 }) };
    let p = client.propagate_new_head(id);
    assert_eq!(p.topic, "starknet/blocks");
    assert_eq!(p.message, NewBlock::Id(id));
}

fn headers_request(start: u64, direction: Direction, limit: u64) -> BlockHeadersRequest {
    BlockHeadersRequest { iteration: Iteration { start, direction, limit, step: 1 } }
}

fn expect_send(step: Step<BlockHeadersRequest>, p: u8, request: BlockHeadersRequest) {
    match step {
        Step::Send { peer: to, request: r } => {
            assert_eq!(to, peer(p));
            assert_eq!(r, request);
        }
        other => panic!("unexpected step {:?}", other),
    }
}

#[test]
fn header_stream_direction() {
    let client = Client::new(peer(9), "blocks".to_string());
    let mut forward = client.header_stream(BlockNumber(5), BlockNumber(10), false);
    forward.on_peers(peers(&[1]));
    expect_send(forward.step(), 1, headers_request(5, Direction::Forward, 5));

    let mut backward = client.header_stream(BlockNumber(5), BlockNumber(10), true);
    backward.on_peers(peers(&[1]));
    expect_send(backward.step(), 1, headers_request(10, Direction::Backward, 5));

    let mut down = client.header_stream(BlockNumber(10), BlockNumber(5), false);
    down.on_peers(peers(&[1]));
    expect_send(down.step(), 1, headers_request(10, Direction::Backward, 5));

    let mut single = client.header_stream(BlockNumber(3), BlockNumber(3), true);
    single.on_peers(peers(&[1]));
    expect_send(single.step(), 1, headers_request(3, Direction::Forward, 0));
}

#[test]
fn header_stream_yields_and_advances() {
    let mut s = HeaderStream::new(BlockNumber(5), BlockNumber(10), false);
    assert!(matches!(s.step(), Step::GetPeers));
    s.on_peers(peers(&[1, 2]));
    expect_send(s.step(), 1, headers_request(5, Direction::Forward, 5));
    s.on_request_accepted();
    assert!(matches!(s.step(), Step::Receive { peer: p } if p == peer(1)));
    let out = s.on_response(Some(BlockHeadersResponse::Header("h5"))).unwrap();
    assert_eq!(out.peer, peer(1));
    assert_eq!(out.data, "h5");
    assert_eq!(s.start(), BlockNumber(6));
    let out = s.on_response(Some(BlockHeadersResponse::Header("h6"))).unwrap();
    assert_eq!(out.data, "h6");
    assert_eq!(s.start(), BlockNumber(7));
    // the same peer is asked until it ends its answer
    assert!(matches!(s.step(), Step::Receive { peer: p } if p == peer(1)));
    assert!(s.on_response::<&str>(Some(BlockHeadersResponse::Fin)).is_none());
    // the next peer is asked for what is left
    expect_send(s.step(), 2, headers_request(7, Direction::Forward, 3));
    s.on_request_accepted();
    assert!(s.on_response::<&str>(Some(BlockHeadersResponse::Invalid)).is_none());
    assert!(matches!(s.step(), Step::GetPeers));
    assert_eq!(s.start(), BlockNumber(7));
}

#[test]
fn header_stream_backward_saturates_at_genesis() {
    let mut s = HeaderStream::new(BlockNumber(0), BlockNumber(1), true);
    s.on_peers(peers(&[1]));
    expect_send(s.step(), 1, headers_request(1, Direction::Backward, 1));
    s.on_request_accepted();
    assert!(s.on_response(Some(BlockHeadersResponse::Header(1u8))).is_some());
    assert_eq!(s.start(), BlockNumber(0));
    assert!(s.can_advance());
    assert!(s.on_response(Some(BlockHeadersResponse::Header(0u8))).is_some());
    assert_eq!(s.start(), BlockNumber::genesis());
}

#[test]
fn header_stream_cannot_advance_past_the_largest_height() {
    let mut s = HeaderStream::new(BlockNumber(u64::MAX), BlockNumber(u64::MAX), false);
    assert!(!s.can_advance());
    s.on_peers(peers(&[1]));
    expect_send(s.step(), 1, headers_request(u64::MAX, Direction::Forward, 0));
}

#[test]
fn every_peer_fails_once_then_rediscovery() {
    let mut s = HeaderStream::new(BlockNumber(5), BlockNumber(10), false);
    s.on_peers(peers(&[1, 2, 3, 4]));
    // at the request
    expect_send(s.step(), 1, headers_request(5, Direction::Forward, 5));
    s.on_request_failed();
    // by ending the answer
    expect_send(s.step(), 2, headers_request(5, Direction::Forward, 5));
    s.on_request_accepted();
    assert!(s.on_response::<u8>(Some(BlockHeadersResponse::Fin)).is_none());
    // by breaking off
    expect_send(s.step(), 3, headers_request(5, Direction::Forward, 5));
    s.on_request_accepted();
    assert!(s.on_response::<u8>(None).is_none());
    // by a header that cannot be read
    expect_send(s.step(), 4, headers_request(5, Direction::Forward, 5));
    s.on_request_accepted();
    assert!(s.on_response::<u8>(Some(BlockHeadersResponse::Invalid)).is_none());

    assert!(matches!(s.step(), Step::GetPeers));
    assert_eq!(s.start(), BlockNumber(5));
    // no peers: the need stays
    s.on_peers(vec![]);
    assert!(matches!(s.step(), Step::GetPeers));
    s.on_peers(peers(&[7]));
    expect_send(s.step(), 7, headers_request(5, Direction::Forward, 5));
}

#[test]
fn stream_ignores_what_it_did_not_ask_for() {
    let mut s = HeaderStream::new(BlockNumber(5), BlockNumber(10), false);
    s.on_request_failed();
    s.on_request_accepted();
    assert!(s.on_response(Some(BlockHeadersResponse::Header(1u8))).is_none());
    assert!(matches!(s.step(), Step::GetPeers));
    assert_eq!(s.start(), BlockNumber(5));
    s.on_peers(peers(&[1, 2]));
    // a second list does not replace the one in use
    s.on_peers(peers(&[3]));
    expect_send(s.step(), 1, headers_request(5, Direction::Forward, 5));
    assert!(s.on_response(Some(BlockHeadersResponse::Header(1u8))).is_none());
    assert_eq!(s.start(), BlockNumber(5));
}

fn transactions_request(block: u64) -> TransactionsRequest {
    TransactionsRequest {
        iteration: Iteration { start: block, direction: Direction::Forward, limit: 1, step: 1 },
    }
}

#[test]
fn transaction_stream_collects_until_fin() {
    let client = Client::new(peer(9), "blocks".to_string());
    let mut s: TransactionStream<&str> = client.transaction_stream(BlockNumber(12));
    assert!(matches!(s.step(), Step::GetPeers));
    s.on_peers(peers(&[1, 2, 3]));
    match s.step() {
        Step::Send { peer: to, request } => {
            assert_eq!(to, peer(1));
            assert_eq!(request, transactions_request(12));
        }
        other => panic!("unexpected step {:?}", other),
    }
    s.on_request_accepted();
    assert!(s.on_response(Some(TransactionsResponse::Transaction("a"))).is_none());
    assert!(s.on_response(Some(TransactionsResponse::Transaction("b"))).is_none());
    let out = s.on_response(Some(TransactionsResponse::Fin)).unwrap();
    assert_eq!(out.peer, peer(1));
    assert_eq!(out.data, vec!["a", "b"]);

    // the next peer starts from nothing; what it sent is dropped when it fails
    assert!(matches!(s.step(), Step::Send { peer: to, .. } if to == peer(2)));
    s.on_request_accepted();
    assert!(s.on_response(Some(TransactionsResponse::Transaction("c"))).is_none());
    assert!(s.on_response(Some(TransactionsResponse::Invalid)).is_none());

    assert!(matches!(s.step(), Step::Send { peer: to, .. } if to == peer(3)));
    s.on_request_accepted();
    assert!(s.on_response(Some(TransactionsResponse::Transaction("d"))).is_none());
    assert!(s.on_response(None).is_none());
    assert!(matches!(s.step(), Step::GetPeers));

    s.on_peers(peers(&[4]));
    s.on_request_accepted();
    let out = s.on_response(Some(TransactionsResponse::Fin)).unwrap();
    assert_eq!(out.peer, peer(4));
    assert!(out.data.is_empty());
}

#[test]
fn rotation_phases() {
    let mut r = Rotation::new();
    assert_eq!(r.phase(), Phase::NeedPeers);
    assert!(r.current().is_none());
    r.set_peers(peers(&[1, 2]));
    assert_eq!(r.phase(), Phase::Requesting);
    assert_eq!(r.current(), Some(peer(1)));
    r.drain();
    assert_eq!(r.phase(), Phase::Requesting);
    r.accept();
    assert_eq!(r.phase(), Phase::Draining);
    r.fail_request();
    assert_eq!(r.phase(), Phase::Draining);
    r.drain();
    assert_eq!(r.current(), Some(peer(2)));
    r.fail_request();
    assert_eq!(r.phase(), Phase::NeedPeers);
}
