use bitswap_engine::behaviour::{Action, Bitswap, BitswapConfig, HandlerEvent};
use bitswap_engine::event::{
    BitswapEvent, FindProvidersResult, InboundRequest, QueryError, QueryResult, WantResult,
};
use bitswap_engine::ids::{Cid, PeerId};
use bitswap_engine::ledger::{ConnState, MESSAGE_DELAY};
use bitswap_engine::message::{BitswapMessage, Block, BlockPresence, BlockPresenceType};
use bitswap_engine::model::{DialFailure, MAX_PROVIDERS};
use bitswap_engine::protocol::{select_protocol, ProtocolConfig, ProtocolId};
use bitswap_engine::wantlist::{Want, WantKind};

fn peer(n: u8) -> PeerId {
    PeerId::from_bytes(vec![0, 36, 8, 1, 18, 32, n])
}

fn cid(n: u8) -> Cid {
    Cid::from_bytes(vec![1, 85, 18, 32, n, n, n])
}

fn engine_with(max_ledgers: usize, max_cached_peers: usize) -> Bitswap {
    let config = BitswapConfig {
        max_cached_peers,
        max_ledgers,
        ..BitswapConfig::default()
    };
    Bitswap::new(config)
}

fn connect(engine: &mut Bitswap, remote: &PeerId, protocol: ProtocolId) {
    engine.inject_connection_established(remote, 0);
    engine.inject_event(remote.clone(), HandlerEvent::Connected { protocol });
}

fn expect_message(action: Action, to: &PeerId) -> BitswapMessage {
    match action {
        Action::NotifyHandler { peer_id, message } => {
            assert_eq!(&peer_id, to);
            message
        }
        other => panic!("expected a message, got {:?}", other),
    }
}

fn expect_event(action: Action) -> BitswapEvent {
    match action {
        Action::GenerateEvent(event) => event,
        other => panic!("expected an event, got {:?}", other),
    }
}

fn pending_want(engine: &Bitswap, who: &PeerId, c: &Cid) -> Option<Want> {
    engine
        .ledger(who)
        .expect("ledger")
        .pending()
        .wantlist()
        .get(c)
}

fn run_exchange(peer1_protocols: Vec<ProtocolId>, peer2_protocols: Vec<ProtocolId>) -> (ProtocolId, Vec<u8>, bool) {
    let p1 = peer(1);
    let p2 = peer(2);
    let mut swarm1 = Bitswap::new(BitswapConfig {
        protocol_config: ProtocolConfig::with_protocols(peer1_protocols),
        ..BitswapConfig::default()
    });
    let mut swarm2 = Bitswap::new(BitswapConfig {
        protocol_config: ProtocolConfig::with_protocols(peer2_protocols),
        ..BitswapConfig::default()
    });
    let agreed = select_protocol(
        &swarm2.supported_protocols().to_vec(),
        &swarm1.supported_protocols().to_vec(),
    )
    .expect("a shared protocol");
    let supports_providers = agreed == ProtocolId::Bitswap120;
    let cid_orig = cid(7);
    let data_orig = b"hello world".to_vec();

    connect(&mut swarm1, &p2, agreed);
    connect(&mut swarm2, &p1, agreed);
    assert_eq!(
        swarm1.ledger(&p2).unwrap().conn(),
        ConnState::Connected(Some(agreed))
    );
    assert_eq!(
        swarm2.ledger(&p1).unwrap().conn(),
        ConnState::Connected(Some(agreed))
    );

    let mut now: u64 = 0;
    let mut received_have = !supports_providers;
    let mut find_providers_fired = false;

    if supports_providers {
        swarm2.find_providers(cid_orig.clone(), 1000);
    } else {
        swarm2.want_block(cid_orig.clone(), 1000, vec![p1.clone()]);
    }

    let mut steps = 0;
    loop {
        steps += 1;
        assert!(steps < 100, "the exchange does not end");
        match swarm2.poll(now) {
            Action::NotifyHandler { peer_id, message } => {
                assert_eq!(peer_id, p1);
                let message = message.for_protocol(agreed);
                swarm1.inject_event(p2.clone(), HandlerEvent::Message { message });
                continue;
            }
            Action::GenerateEvent(BitswapEvent::OutboundQueryCompleted {
                result: QueryResult::FindProviders(FindProvidersResult::Success { cid, provider }),
            }) => {
                assert!(
                    supports_providers,
                    "must not be executed when providers are not supported"
                );
                find_providers_fired = true;
                assert_eq!(cid_orig, cid);
                assert_eq!(provider, p1);
                assert!(received_have);
                swarm2.want_block(cid, 1000, vec![p1.clone()]);
                continue;
            }
            Action::GenerateEvent(BitswapEvent::OutboundQueryCompleted {
                result: QueryResult::Want(WantResult::Success { sender, cid, data }),
            }) => {
                assert_eq!(
                    swarm2.ledger(&p1).unwrap().conn(),
                    ConnState::Connected(Some(agreed))
                );
                assert_eq!(sender, p1);
                assert_eq!(cid_orig, cid);
                assert!(received_have);
                return (agreed, data, find_providers_fired);
            }
            Action::GenerateEvent(other) => panic!("unexpected event {:?}", other),
            Action::Dial { peer_id } => panic!("unexpected dial to {:?}", peer_id),
            Action::Pending => {}
        }
        match swarm1.poll(now) {
            Action::NotifyHandler { peer_id, message } => {
                assert_eq!(peer_id, p2);
                let message = message.for_protocol(agreed);
                swarm2.inject_event(p1.clone(), HandlerEvent::Message { message });
            }
            Action::GenerateEvent(BitswapEvent::InboundRequest {
                request: InboundRequest::WantHave { sender, cid, priority },
            }) => {
                assert_eq!(cid_orig, cid);
                assert_eq!(priority, 1000);
                swarm1.send_have_block(&sender, cid_orig.clone());
                received_have = true;
            }
            Action::GenerateEvent(BitswapEvent::InboundRequest {
                request: InboundRequest::Want { sender, cid, priority },
            }) => {
                assert_eq!(
                    swarm1.ledger(&p2).unwrap().conn(),
                    ConnState::Connected(Some(agreed))
                );
                assert_eq!(cid_orig, cid);
                assert_eq!(priority, 1000);
                swarm1.send_block(&sender, cid_orig.clone(), data_orig.clone());
            }
            Action::GenerateEvent(other) => panic!("unexpected event {:?}", other),
            Action::Dial { peer_id } => panic!("unexpected dial to {:?}", peer_id),
            Action::Pending => {
                now += MESSAGE_DELAY;
            }
        }
    }
}

#[test]
fn test_bitswap_behaviour() {
    let (agreed, block, find_providers_fired) = run_exchange(
        ProtocolConfig::new().protocol_ids,
        ProtocolConfig::new().protocol_ids,
    );
    assert_eq!(agreed, ProtocolId::Bitswap120);
    assert!(find_providers_fired);
    assert_eq!(&block[..], b"hello world");
}

#[test]
fn test_bitswap_multiprotocol() {
    let all = vec![
        ProtocolId::Bitswap120,
        ProtocolId::Bitswap110,
        ProtocolId::Bitswap100,
    ];
    let tests = vec![
        (vec![ProtocolId::Bitswap120], vec![ProtocolId::Bitswap120], ProtocolId::Bitswap120),
        (all.clone(), all.clone(), ProtocolId::Bitswap120),
        (
            all.clone(),
            vec![ProtocolId::Bitswap110, ProtocolId::Bitswap100],
            ProtocolId::Bitswap110,
        ),
        (all.clone(), vec![ProtocolId::Bitswap100], ProtocolId::Bitswap100),
        (all.clone(), vec![ProtocolId::Bitswap120], ProtocolId::Bitswap120),
        (
            vec![
                ProtocolId::Bitswap120,
                ProtocolId::Bitswap110,
                ProtocolId::Bitswap100,
                ProtocolId::Legacy,
            ],
            vec![ProtocolId::Legacy],
            ProtocolId::Legacy,
        ),
    ];
    for (peer1_protocols, peer2_protocols, expected_protocol) in tests {
        let supports_providers = expected_protocol == ProtocolId::Bitswap120;
        let (agreed, block, find_providers_fired) = run_exchange(peer1_protocols, peer2_protocols);
        assert_eq!(agreed, expected_protocol);
        assert_eq!(find_providers_fired, supports_providers);
        assert_eq!(&block[..], b"hello world");
    }
}

#[test]
fn exchange_step_by_step_under_v120() {
    let pa = peer(1);
    let pb = peer(2);
    let c = cid(9);
    let mut a = Bitswap::default();
    let mut b = Bitswap::default();
    connect(&mut a, &pb, ProtocolId::Bitswap120);
    connect(&mut b, &pa, ProtocolId::Bitswap120);

    b.find_providers(c.clone(), 1000);
    assert_eq!(
        b.wantlist().get(&c),
        Some(Want { kind: WantKind::WantHave, priority: 1000 })
    );
    let first = expect_message(b.poll(0), &pa);
    assert!(first.wantlist().full());
    assert_eq!(first.wantlist().want_have_blocks(), vec![(c.clone(), 1000)]);
    assert!(first.wantlist().blocks().is_empty());

    a.inject_event(pb.clone(), HandlerEvent::Message { message: first });
    assert_eq!(
        expect_event(a.poll(0)),
        BitswapEvent::InboundRequest {
            request: InboundRequest::WantHave { sender: pb.clone(), cid: c.clone(), priority: 1000 }
        }
    );
    a.send_have_block(&pb, c.clone());
    let have = expect_message(a.poll(0), &pb);
    assert_eq!(have.block_presences(), &vec![BlockPresence::have(c.clone())]);

    b.inject_event(pa.clone(), HandlerEvent::Message { message: have });
    assert_eq!(b.wantlist().get(&c), None);
    assert_eq!(
        expect_event(b.poll(0)),
        BitswapEvent::OutboundQueryCompleted {
            result: QueryResult::FindProviders(FindProvidersResult::Success {
                cid: c.clone(),
                provider: pa.clone()
            })
        }
    );

    b.want_block(c.clone(), 1000, vec![pa.clone()]);
    assert_eq!(b.poll(MESSAGE_DELAY - 1), Action::Pending);
    let second = expect_message(b.poll(MESSAGE_DELAY), &pa);
    assert!(!second.wantlist().full());
    assert_eq!(second.wantlist().blocks(), vec![(c.clone(), 1000)]);

    a.inject_event(pb.clone(), HandlerEvent::Message { message: second });
    assert_eq!(
        expect_event(a.poll(MESSAGE_DELAY)),
        BitswapEvent::InboundRequest {
            request: InboundRequest::Want { sender: pb.clone(), cid: c.clone(), priority: 1000 }
        }
    );
    a.send_block(&pb, c.clone(), b"hello world".to_vec());
    let payload = expect_message(a.poll(MESSAGE_DELAY), &pb);
    assert_eq!(payload.blocks(), &vec![Block::new(c.clone(), b"hello world".to_vec())]);

    b.inject_event(pa.clone(), HandlerEvent::Message { message: payload });
    assert!(b.wantlist().is_empty());
    assert_eq!(
        expect_event(b.poll(MESSAGE_DELAY)),
        BitswapEvent::OutboundQueryCompleted {
            result: QueryResult::Want(WantResult::Success {
                sender: pa.clone(),
                cid: c.clone(),
                data: b"hello world".to_vec()
            })
        }
    );
}

#[test]
fn find_providers_skips_peers_without_presences() {
    let mut b = Bitswap::default();
    let old = peer(1);
    let newer = peer(2);
    let unknown = peer(3);
    connect(&mut b, &old, ProtocolId::Bitswap100);
    connect(&mut b, &newer, ProtocolId::Bitswap120);
    b.add_peer(&unknown, None);
    assert_eq!(b.candidate_providers(), vec![unknown.clone(), newer.clone()]);

    let c = cid(4);
    b.find_providers(c.clone(), 5);
    assert_eq!(pending_want(&b, &old, &c), None);
    assert_eq!(
        pending_want(&b, &newer, &c),
        Some(Want { kind: WantKind::WantHave, priority: 5 })
    );
    assert_eq!(
        pending_want(&b, &unknown, &c),
        Some(Want { kind: WantKind::WantHave, priority: 5 })
    );
    assert_eq!(
        b.wantlist().get(&c),
        Some(Want { kind: WantKind::WantHave, priority: 5 })
    );
    assert!(MAX_PROVIDERS == 10000);
}

#[test]
fn find_providers_asks_a_bounded_number_of_peers() {
    let mut engine = engine_with(16, 12_000);
    for i in 0..10_050u32 {
        let bytes = i.to_be_bytes();
        engine.add_peer(&PeerId::from_bytes(bytes.to_vec()), None);
    }
    assert_eq!(engine.known_peers().len(), 10_050);
    let providers = engine.candidate_providers();
    assert_eq!(providers.len(), MAX_PROVIDERS);
    assert_eq!(providers[0], PeerId::from_bytes(10_049u32.to_be_bytes().to_vec()));
    assert_eq!(providers[9_999], PeerId::from_bytes(50u32.to_be_bytes().to_vec()));
    engine.find_providers(cid(1), 1);
    assert_eq!(engine.ledger_peers().len(), 16);
    assert_eq!(
        engine.ledger_peers()[0],
        PeerId::from_bytes(50u32.to_be_bytes().to_vec())
    );
}

#[test]
fn global_wantlist_holds_each_cid_once() {
    let mut engine = Bitswap::default();
    let p = peer(1);
    engine.add_peer(&p, None);
    engine.find_providers(cid(1), 1);
    engine.find_providers(cid(1), 2);
    engine.want_block(cid(1), 3, vec![p.clone()]);
    engine.want_block(cid(1), 4, vec![p.clone(), p.clone()]);
    engine.find_providers(cid(1), 5);
    assert_eq!(engine.wantlist().len(), 1);
    assert_eq!(
        engine.wantlist().get(&cid(1)),
        Some(Want { kind: WantKind::WantBlock, priority: 4 })
    );
    assert_eq!(engine.ledger(&p).unwrap().pending().wantlist().len(), 1);
    assert_eq!(engine.ledger_peers(), vec![p.clone()]);
    assert_eq!(engine.known_peers().len(), 1);
}

#[test]
fn cancel_propagation() {
    let mut engine = Bitswap::default();
    let (x, y, z) = (peer(1), peer(2), peer(3));
    let c = cid(1);
    engine.want_block(c.clone(), 10, vec![x.clone(), y.clone(), z.clone()]);
    for p in [&x, &y, &z] {
        assert_eq!(
            pending_want(&engine, p, &c),
            Some(Want { kind: WantKind::WantBlock, priority: 10 })
        );
    }
    assert_eq!(
        engine.wantlist().get(&c),
        Some(Want { kind: WantKind::WantBlock, priority: 10 })
    );
    engine.cancel_block(&c);
    assert_eq!(engine.wantlist().get(&c), None);
    for p in [&x, &y, &z] {
        let ledger = engine.ledger(p).unwrap();
        assert_eq!(ledger.pending().wantlist().cancels(), vec![c.clone()]);
        assert!(ledger.pending().wantlist().blocks().is_empty());
        assert_eq!(ledger.pending().wantlist().len(), 1);
    }
}

#[test]
fn block_from_one_peer_cancels_at_the_others() {
    let mut engine = Bitswap::default();
    let (s, other) = (peer(1), peer(2));
    let c = cid(1);
    let keep = cid(2);
    engine.want_block(c.clone(), 10, vec![s.clone(), other.clone()]);
    engine.want_block(keep.clone(), 3, vec![s.clone()]);
    engine.receive_block(&s, Block::new(c.clone(), vec![1, 2, 3]));
    assert_eq!(engine.wantlist().get(&c), None);
    assert_eq!(
        engine.wantlist().get(&keep),
        Some(Want { kind: WantKind::WantBlock, priority: 3 })
    );
    assert_eq!(pending_want(&engine, &s, &c), None);
    assert_eq!(
        pending_want(&engine, &s, &keep),
        Some(Want { kind: WantKind::WantBlock, priority: 3 })
    );
    assert_eq!(
        pending_want(&engine, &other, &c),
        Some(Want { kind: WantKind::Cancel, priority: 0 })
    );
    assert_eq!(engine.pending_events(), 1);
    assert_eq!(
        expect_event(engine.poll(0)),
        BitswapEvent::OutboundQueryCompleted {
            result: QueryResult::Want(WantResult::Success {
                sender: s.clone(),
                cid: c.clone(),
                data: vec![1, 2, 3]
            })
        }
    );
    assert_eq!(engine.pending_events(), 0);
}

#[test]
fn inbound_message_is_processed_in_order() {
    let mut engine = Bitswap::default();
    let sender = peer(5);
    let mut message = BitswapMessage::new(false);
    message.cancel_block(&cid(1));
    message.want_have_block(&cid(2), 7);
    message.want_block(&cid(3), 8);
    message.add_block_presence(BlockPresence::dont_have(cid(4)));
    message.add_block_presence(BlockPresence::have(cid(5)));
    message.add_block(Block::new(cid(6), vec![6]));
    message.add_block(Block::new(cid(7), vec![7]));
    engine.find_providers(cid(5), 1);
    engine.receive_message(&sender, message);
    let mut events = Vec::new();
    while let Action::GenerateEvent(event) = engine.poll(0) {
        events.push(event);
    }
    assert_eq!(
        events,
        vec![
            BitswapEvent::block_received(sender.clone(), cid(6), vec![6]),
            BitswapEvent::block_received(sender.clone(), cid(7), vec![7]),
            BitswapEvent::provider_found(cid(5), sender.clone()),
            BitswapEvent::inbound_want(sender.clone(), cid(3), 8),
            BitswapEvent::inbound_want_have(sender.clone(), cid(2), 7),
            BitswapEvent::inbound_cancel(sender.clone(), cid(1)),
        ]
    );
    assert_eq!(engine.wantlist().get(&cid(5)), None);
}

#[test]
fn connection_limit_backoff() {
    let mut engine = Bitswap::default();
    let (p, q) = (peer(1), peer(2));
    let c = cid(1);
    engine.want_block(c.clone(), 1, vec![p.clone()]);
    assert_eq!(engine.poll(0), Action::Dial { peer_id: p.clone() });
    assert_eq!(engine.ledger(&p).unwrap().conn(), ConnState::Dialing);
    assert_eq!(engine.poll(0), Action::Pending);

    engine.inject_dial_failure(Some(p.clone()), DialFailure::ConnectionLimit);
    assert!(engine.connection_limit());
    assert_eq!(engine.ledger(&p).unwrap().conn(), ConnState::Disconnected);
    assert_eq!(
        pending_want(&engine, &p, &c),
        Some(Want { kind: WantKind::WantBlock, priority: 1 })
    );
    engine.want_block(cid(2), 1, vec![q.clone()]);
    assert_eq!(engine.poll(1000), Action::Pending);
    assert!(!engine.dial(&q));

    engine.inject_connection_closed(&peer(9), 0);
    assert!(!engine.connection_limit());
    let mut dialled = Vec::new();
    while let Action::Dial { peer_id } = engine.poll(1000) {
        dialled.push(peer_id);
    }
    assert!(dialled.contains(&p));
    assert!(dialled.contains(&q));
    assert_eq!(
        pending_want(&engine, &p, &c),
        Some(Want { kind: WantKind::WantBlock, priority: 1 })
    );
}

#[test]
fn dial_failures() {
    let mut engine = Bitswap::default();
    let p = peer(1);
    engine.want_block(cid(1), 1, vec![p.clone()]);
    assert_eq!(engine.known_protocol(&p), Some(None));

    engine.inject_dial_failure(Some(p.clone()), DialFailure::DialPeerConditionFalse);
    assert!(engine.ledger(&p).is_some());
    assert!(!engine.connection_limit());

    engine.inject_dial_failure(None, DialFailure::Other);
    assert!(engine.ledger(&p).is_some());

    engine.inject_dial_failure(Some(p.clone()), DialFailure::Other);
    assert!(engine.ledger(&p).is_none());
    assert_eq!(engine.known_protocol(&p), None);
    assert!(engine.ledger_peers().is_empty());
    assert!(engine.known_peers().is_empty());
}

#[test]
fn no_dial_while_dialing_or_connected() {
    let mut engine = Bitswap::default();
    let p = peer(1);
    engine.send_have_block(&p, cid(1));
    assert!(engine.dial(&p));
    assert!(!engine.dial(&p));
    engine.inject_connection_established(&p, 0);
    assert_eq!(engine.ledger(&p).unwrap().conn(), ConnState::Connected(None));
    assert!(!engine.dial(&p));
    let sent = expect_message(engine.poll(0), &p);
    assert_eq!(sent.block_presences()[0].typ, BlockPresenceType::Have);
    engine.inject_connection_established(&p, 1);
    assert_eq!(engine.ledger(&p).unwrap().conn(), ConnState::Connected(None));
    engine.inject_connection_closed(&p, 1);
    assert_eq!(engine.ledger(&p).unwrap().conn(), ConnState::Connected(None));
    engine.inject_connection_closed(&p, 0);
    assert_eq!(engine.ledger(&p).unwrap().conn(), ConnState::Disconnected);
}

#[test]
fn coalescing() {
    let mut engine = Bitswap::default();
    let p = peer(1);
    connect(&mut engine, &p, ProtocolId::Bitswap120);
    engine.want_block(cid(0), 1, vec![p.clone()]);
    let first = expect_message(engine.poll(1000), &p);
    assert!(first.wantlist().full());

    engine.want_block(cid(1), 1, vec![p.clone()]);
    assert_eq!(engine.poll(1100), Action::Pending);
    engine.want_block(cid(2), 2, vec![p.clone()]);
    engine.want_block(cid(3), 3, vec![p.clone()]);
    assert_eq!(engine.poll(1249), Action::Pending);
    let message = expect_message(engine.poll(1250), &p);
    assert!(!message.wantlist().full());
    assert_eq!(
        message.wantlist().blocks(),
        vec![(cid(1), 1), (cid(2), 2), (cid(3), 3)]
    );
    assert_eq!(engine.poll(1250), Action::Pending);
    assert_eq!(engine.poll(5000), Action::Pending);
    assert_eq!(engine.ledger(&p).unwrap().last_send(), 1500);
}

#[test]
fn next_deadline_is_the_earliest_waiting_timer() {
    let mut engine = Bitswap::default();
    let (a, b, c) = (peer(1), peer(2), peer(3));
    assert_eq!(engine.next_deadline(0), None);
    connect(&mut engine, &a, ProtocolId::Bitswap120);
    connect(&mut engine, &b, ProtocolId::Bitswap120);
    engine.send_have_block(&a, cid(1));
    engine.send_have_block(&b, cid(2));
    assert_eq!(engine.next_deadline(0), None);
    expect_message(engine.poll(100), &b);
    expect_message(engine.poll(130), &a);
    assert_eq!(engine.poll(130), Action::Pending);
    assert_eq!(engine.next_deadline(130), None);

    engine.send_have_block(&a, cid(3));
    assert_eq!(engine.next_deadline(130), Some(380));
    engine.send_have_block(&b, cid(4));
    assert_eq!(engine.next_deadline(130), Some(350));
    assert_eq!(engine.next_deadline(349), Some(350));
    assert_eq!(engine.next_deadline(350), Some(380));
    assert_eq!(engine.next_deadline(380), None);
    assert_eq!(engine.poll(349), Action::Pending);
    expect_message(engine.poll(350), &b);

    engine.send_have_block(&c, cid(5));
    assert_eq!(engine.next_deadline(350), Some(380));
    engine.inject_connection_closed(&a, 0);
    assert_eq!(engine.next_deadline(350), Some(380));
    engine.inject_dial_failure(Some(c.clone()), DialFailure::ConnectionLimit);
    assert_eq!(engine.next_deadline(350), None);
}

#[test]
fn lru_eviction() {
    let mut engine = engine_with(2, 10);
    let (a, b, c) = (peer(1), peer(2), peer(3));
    engine.want_block(cid(1), 1, vec![a.clone()]);
    engine.send_have_block(&b, cid(2));
    assert_eq!(engine.ledger_peers(), vec![b.clone(), a.clone()]);
    engine.send_block(&c, cid(3), vec![3]);
    assert_eq!(engine.ledger_peers(), vec![c.clone(), b.clone()]);
    assert!(engine.ledger(&a).is_none());
    assert_eq!(engine.known_protocol(&a), Some(None));

    connect(&mut engine, &a, ProtocolId::Bitswap110);
    assert_eq!(engine.ledger_peers(), vec![a.clone(), c.clone()]);
    engine.want_block(cid(4), 4, vec![a.clone()]);
    let message = expect_message(engine.poll(0), &a);
    assert!(message.wantlist().full());
    assert_eq!(message.wantlist().blocks(), vec![(cid(4), 4)]);
    assert_eq!(message.wantlist().len(), 1);
}

#[test]
fn known_peers_are_bounded_and_ordered() {
    let mut engine = engine_with(4, 2);
    engine.add_peer(&peer(1), None);
    engine.add_peer(&peer(2), Some(ProtocolId::Bitswap110));
    assert_eq!(
        engine.known_peers(),
        vec![(peer(2), Some(ProtocolId::Bitswap110)), (peer(1), None)]
    );
    engine.add_peer(&peer(1), Some(ProtocolId::Bitswap120));
    assert_eq!(
        engine.known_peers(),
        vec![
            (peer(1), Some(ProtocolId::Bitswap120)),
            (peer(2), Some(ProtocolId::Bitswap110))
        ]
    );
    engine.add_peer(&peer(3), None);
    assert_eq!(
        engine.known_peers(),
        vec![(peer(3), None), (peer(1), Some(ProtocolId::Bitswap120))]
    );
    assert_eq!(engine.known_protocol(&peer(2)), None);
    assert_eq!(engine.known_protocol(&peer(1)), Some(Some(ProtocolId::Bitswap120)));
}

#[test]
fn poll_walks_ledgers_most_recent_first_and_keeps_their_order() {
    let mut engine = Bitswap::default();
    let (a, b) = (peer(1), peer(2));
    connect(&mut engine, &a, ProtocolId::Bitswap120);
    connect(&mut engine, &b, ProtocolId::Bitswap120);
    engine.send_have_block(&a, cid(1));
    engine.send_have_block(&b, cid(2));
    assert_eq!(engine.ledger_peers(), vec![b.clone(), a.clone()]);
    let first = expect_message(engine.poll(0), &b);
    assert_eq!(first.block_presences()[0].cid, cid(2));
    assert_eq!(engine.ledger_peers(), vec![b.clone(), a.clone()]);
    let second = expect_message(engine.poll(0), &a);
    assert_eq!(second.block_presences()[0].cid, cid(1));
    assert_eq!(engine.poll(0), Action::Pending);
}

#[test]
fn cancel_want_block_drops_want_have_only() {
    let mut engine = Bitswap::default();
    let p = peer(1);
    engine.add_peer(&p, Some(ProtocolId::Bitswap120));
    engine.find_providers(cid(1), 1);
    engine.want_block(cid(2), 2, vec![p.clone()]);
    engine.cancel_want_block(&cid(1));
    engine.cancel_want_block(&cid(2));
    assert_eq!(engine.wantlist().get(&cid(1)), None);
    assert_eq!(pending_want(&engine, &p, &cid(1)), None);
    assert_eq!(
        pending_want(&engine, &p, &cid(2)),
        Some(Want { kind: WantKind::WantBlock, priority: 2 })
    );
    assert_eq!(
        engine.wantlist().get(&cid(2)),
        Some(Want { kind: WantKind::WantBlock, priority: 2 })
    );
    assert!(engine.ledger(&p).unwrap().pending().wantlist().cancels().is_empty());
}

#[test]
fn settings() {
    let config = BitswapConfig::default();
    assert_eq!(config.max_cached_peers, 20_000);
    assert_eq!(config.max_ledgers, 1024);
    assert_eq!(config.idle_timeout, 30_000);
    assert_eq!(
        config.protocol_config.protocol_ids,
        vec![ProtocolId::Bitswap120, ProtocolId::Bitswap110, ProtocolId::Bitswap100]
    );
    assert!(config.is_valid());
    assert_eq!(config.duplicate(), config);
    let engine = Bitswap::new(config.clone());
    assert_eq!(engine.config(), &config);
    assert_eq!(engine.supported_protocols(), &config.protocol_config.protocol_ids[..]);

    let none = BitswapConfig { max_ledgers: 0, ..BitswapConfig::default() };
    assert!(!none.is_valid());
    assert!(Bitswap::try_new(none).is_none());
    let none = BitswapConfig { max_cached_peers: 0, ..BitswapConfig::default() };
    assert!(Bitswap::try_new(none).is_none());
    assert!(Bitswap::try_new(BitswapConfig::default()).is_some());
    assert_eq!(QueryError::Timeout.message(), "timeout");
}
