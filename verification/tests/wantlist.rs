use bitswap_engine::ids::{bytes_copy, bytes_eq, Cid, PeerId};
use bitswap_engine::ledger::{ConnState, Decision, Ledger, LedgerAction, LedgerOp};
use bitswap_engine::message::{BitswapMessage, Block, BlockPresence};
use bitswap_engine::protocol::{
    may_support_have, offers, protocol_from_name, select_protocol, ProtocolConfig, ProtocolId,
};
use bitswap_engine::share::Data;
use bitswap_engine::wantlist::{Want, WantKind, Wantlist};

fn cid(n: u8) -> Cid {
    Cid::from_bytes(vec![18, 32, n])
}

fn block(priority: i32) -> Option<Want> {
    Some(Want { kind: WantKind::WantBlock, priority })
}

fn have(priority: i32) -> Option<Want> {
    Some(Want { kind: WantKind::WantHave, priority })
}

#[test]
fn identifiers() {
    let a = Cid::from_bytes(vec![1, 2, 3]);
    assert_eq!(a.to_bytes(), vec![1, 2, 3]);
    assert!(a.same(&a.clone()));
    assert!(!a.same(&Cid::from_bytes(vec![1, 2])));
    assert!(!a.same(&Cid::from_bytes(vec![1, 2, 4])));
    let p = PeerId::from_bytes(vec![9]);
    assert_eq!(p.to_bytes(), vec![9]);
    assert!(p.same(&p.clone()));
    assert!(!p.same(&PeerId::from_bytes(vec![])));
    assert!(bytes_eq(&vec![], &vec![]));
    assert!(!bytes_eq(&vec![0], &vec![1]));
    assert_eq!(bytes_copy(&vec![5, 6]), vec![5, 6]);
}

#[test]
fn want_block_overwrites() {
    let mut list = Wantlist::new();
    assert!(list.is_empty());
    assert!(!list.full());
    list.want_have_block(&cid(1), 5);
    assert_eq!(list.get(&cid(1)), have(5));
    list.want_block(&cid(1), 7);
    assert_eq!(list.get(&cid(1)), block(7));
    assert_eq!(list.len(), 1);
    list.want_block(&cid(1), 9);
    assert_eq!(list.get(&cid(1)), block(9));
    assert_eq!(list.blocks(), vec![(cid(1), 9)]);
    assert!(list.want_have_blocks().is_empty());
}

#[test]
fn want_have_yields_to_want_block() {
    let mut list = Wantlist::new();
    list.want_block(&cid(1), 7);
    list.want_have_block(&cid(1), 100);
    assert_eq!(list.get(&cid(1)), block(7));
    list.want_have_block(&cid(2), 1);
    list.want_have_block(&cid(2), 2);
    assert_eq!(list.get(&cid(2)), have(2));
    assert_eq!(list.want_have_blocks(), vec![(cid(2), 2)]);
    assert_eq!(list.len(), 2);
}

#[test]
fn cancel_and_remove() {
    let mut list = Wantlist::new();
    list.want_block(&cid(1), 1);
    list.want_have_block(&cid(2), 2);
    list.want_block(&cid(3), 3);
    list.cancel_block(&cid(1));
    list.cancel_block(&cid(4));
    assert_eq!(list.cancels(), vec![cid(1), cid(4)]);
    assert_eq!(list.blocks(), vec![(cid(3), 3)]);
    assert_eq!(list.get(&cid(1)), Some(Want { kind: WantKind::Cancel, priority: 0 }));

    list.remove_want_block(&cid(3));
    assert_eq!(list.get(&cid(3)), block(3));
    list.remove_want_block(&cid(2));
    assert_eq!(list.get(&cid(2)), None);
    list.remove_want_block(&cid(1));
    assert_eq!(list.cancels(), vec![cid(1), cid(4)]);

    list.remove_block(&cid(1));
    list.remove_block(&cid(3));
    list.remove_block(&cid(9));
    assert_eq!(list.cancels(), vec![cid(4)]);
    assert_eq!(list.len(), 1);
    list.want_block(&cid(4), 4);
    assert!(list.cancels().is_empty());
    assert_eq!(list.blocks(), vec![(cid(4), 4)]);
    list.set_full(true);
    assert!(list.full());
    assert_eq!(list.len(), 1);
}

#[test]
fn message_emptiness() {
    let mut message = BitswapMessage::new(true);
    assert!(message.is_empty());
    assert!(message.wantlist().full());
    message.set_full(false);
    assert!(message.is_empty());
    message.add_block_presence(BlockPresence::dont_have(cid(1)));
    assert!(!message.is_empty());
    assert!(!message.block_presences()[0].is_have());

    let mut message = BitswapMessage::new(false);
    message.add_block(Block::new(cid(1), vec![1]));
    assert!(!message.is_empty());
    assert_eq!(message.blocks().len(), 1);

    let mut message = BitswapMessage::new(false);
    message.want_block(&cid(1), 1);
    assert!(!message.is_empty());
    message.remove_block(&cid(1));
    assert!(message.is_empty());
    message.want_have_block(&cid(1), 1);
    message.remove_want_block(&cid(1));
    assert!(message.is_empty());
    message.cancel_block(&cid(1));
    assert!(!message.is_empty());
    let (wantlist, blocks, presences) = message.into_parts();
    assert_eq!(wantlist.cancels(), vec![cid(1)]);
    assert!(blocks.is_empty());
    assert!(presences.is_empty());
}

#[test]
fn ledger_first_message_is_full_and_later_ones_are_not() {
    let peer = PeerId::from_bytes(vec![1]);
    let mut ledger = Ledger::new(peer.clone());
    assert_eq!(ledger.peer_id(), &peer);
    assert_eq!(ledger.conn(), ConnState::Disconnected);
    assert_eq!(ledger.last_send(), 0);
    assert!(ledger.is_empty());
    assert!(ledger.needs_dial());
    assert_eq!(ledger.poll(0, false), LedgerAction::Idle);

    ledger.want_block(&cid(1), 1);
    assert_eq!(ledger.decide(0, false), Decision::Dial);
    assert_eq!(ledger.decide(0, true), Decision::Idle);
    assert_eq!(ledger.poll(0, false), LedgerAction::Dial);
    ledger.apply(LedgerOp::Dial);
    assert_eq!(ledger.conn(), ConnState::Dialing);
    assert_eq!(ledger.poll(0, false), LedgerAction::Idle);
    ledger.apply(LedgerOp::Dial);
    assert_eq!(ledger.conn(), ConnState::Dialing);

    ledger.set_conn(ConnState::Connected(None));
    assert!(ledger.is_connected());
    ledger.apply(LedgerOp::Dial);
    assert_eq!(ledger.conn(), ConnState::Connected(None));
    let first = match ledger.poll(40, true) {
        LedgerAction::Send(message) => message,
        other => panic!("expected a message, got {:?}", other),
    };
    assert!(first.wantlist().full());
    assert_eq!(first.wantlist().blocks(), vec![(cid(1), 1)]);
    assert_eq!(ledger.last_send(), 290);
    assert!(ledger.is_empty());
    assert!(!ledger.pending().wantlist().full());

    ledger.send_block(cid(2), vec![2, 2]);
    ledger.send_have_block(cid(3));
    ledger.want_have_block(&cid(4), 4);
    ledger.cancel_block(&cid(5));
    ledger.want_block(&cid(6), 6);
    ledger.remove_block(&cid(6));
    ledger.want_have_block(&cid(7), 7);
    ledger.remove_want_block(&cid(7));
    assert!(ledger.has_blocks());
    assert_eq!(ledger.poll(289, false), LedgerAction::Idle);
    let second = ledger.send_message(290);
    let mut expected = BitswapMessage::new(false);
    expected.add_block(Block::new(cid(2), vec![2, 2]));
    expected.add_block_presence(BlockPresence::have(cid(3)));
    expected.want_have_block(&cid(4), 4);
    expected.cancel_block(&cid(5));
    assert_eq!(second, expected);
    assert_eq!(ledger.last_send(), 540);

    let spare = Ledger::new(PeerId::from_bytes(vec![2]));
    let previous = ledger.replace(spare);
    assert_eq!(previous.last_send(), 540);
    assert_eq!(ledger.last_send(), 0);
    assert_eq!(ledger.peer_id(), &PeerId::from_bytes(vec![2]));
}

#[test]
fn ledger_ops_have_faithful_copies() {
    let op = LedgerOp::SendBlock { cid: cid(1), data: vec![1, 2, 3] };
    let mut one = Ledger::new(PeerId::from_bytes(vec![1]));
    let mut two = Ledger::new(PeerId::from_bytes(vec![1]));
    one.apply(op.duplicate());
    two.apply(op);
    assert_eq!(one.pending(), two.pending());
    assert_eq!(one.pending().blocks(), &vec![Block::new(cid(1), vec![1, 2, 3])]);
}

#[test]
fn protocol_selection() {
    let all = ProtocolConfig::new().protocol_ids;
    assert_eq!(
        select_protocol(&vec![ProtocolId::Bitswap120], &vec![ProtocolId::Bitswap120]),
        Some(ProtocolId::Bitswap120)
    );
    assert_eq!(select_protocol(&all, &all), Some(ProtocolId::Bitswap120));
    assert_eq!(
        select_protocol(&all, &vec![ProtocolId::Bitswap110, ProtocolId::Bitswap100]),
        Some(ProtocolId::Bitswap110)
    );
    assert_eq!(
        select_protocol(&all, &vec![ProtocolId::Bitswap100]),
        Some(ProtocolId::Bitswap100)
    );
    let with_legacy = vec![
        ProtocolId::Bitswap120,
        ProtocolId::Bitswap110,
        ProtocolId::Bitswap100,
        ProtocolId::Legacy,
    ];
    assert_eq!(
        select_protocol(&with_legacy, &vec![ProtocolId::Legacy]),
        Some(ProtocolId::Legacy)
    );
    assert_eq!(select_protocol(&all, &vec![ProtocolId::Legacy]), None);
    assert_eq!(select_protocol(&vec![], &all), None);
    assert_eq!(
        select_protocol(
            &vec![ProtocolId::Legacy, ProtocolId::Bitswap100, ProtocolId::Bitswap110],
            &vec![ProtocolId::Bitswap100, ProtocolId::Legacy, ProtocolId::Bitswap110],
        ),
        Some(ProtocolId::Bitswap110)
    );
    assert!(offers(&all, ProtocolId::Bitswap110));
    assert!(!offers(&all, ProtocolId::Legacy));
}

#[test]
fn protocol_properties() {
    assert!(ProtocolId::Bitswap120.rank() > ProtocolId::Bitswap110.rank());
    assert!(ProtocolId::Bitswap110.rank() > ProtocolId::Bitswap100.rank());
    assert!(ProtocolId::Bitswap100.rank() > ProtocolId::Legacy.rank());
    assert!(ProtocolId::Bitswap120.supports_have());
    assert!(!ProtocolId::Bitswap110.supports_have());
    assert!(!ProtocolId::Legacy.supports_have());
    assert!(may_support_have(None));
    assert!(may_support_have(Some(ProtocolId::Bitswap120)));
    assert!(!may_support_have(Some(ProtocolId::Bitswap100)));
    assert_eq!(ProtocolId::Bitswap100.protocol_name(), "/ipfs/bitswap/1.0.0");
    assert_eq!(ProtocolId::Bitswap110.protocol_name(), "/ipfs/bitswap/1.1.0");
    assert_eq!(ProtocolId::Bitswap120.protocol_name(), "/ipfs/bitswap/1.2.0");
    assert_eq!(ProtocolId::Legacy.protocol_name(), "/ipfs/bitswap");
    let config = ProtocolConfig::with_protocols(vec![ProtocolId::Legacy]);
    assert_eq!(config.duplicate(), config);
    for p in [
        ProtocolId::Legacy,
        ProtocolId::Bitswap100,
        ProtocolId::Bitswap110,
        ProtocolId::Bitswap120,
    ] {
        assert_eq!(protocol_from_name(p.protocol_name()), Some(p));
    }
    assert_eq!(protocol_from_name("/ipfs/bitswap/1.3.0"), None);
    assert_eq!(protocol_from_name(""), None);
}

#[test]
fn version_gating() {
    let mut message = BitswapMessage::new(true);
    message.want_have_block(&cid(1), 1);
    message.want_block(&cid(2), 2);
    message.cancel_block(&cid(3));
    message.want_have_block(&cid(4), 4);
    message.add_block(Block::new(cid(5), vec![5]));
    message.add_block_presence(BlockPresence::have(cid(6)));

    assert_eq!(message.clone().for_protocol(ProtocolId::Bitswap120), message);
    for p in [ProtocolId::Legacy, ProtocolId::Bitswap100, ProtocolId::Bitswap110] {
        let cut = message.clone().for_protocol(p);
        assert!(cut.wantlist().full());
        assert!(cut.wantlist().want_have_blocks().is_empty());
        assert_eq!(cut.wantlist().blocks(), vec![(cid(2), 2)]);
        assert_eq!(cut.wantlist().cancels(), vec![cid(3)]);
        assert_eq!(cut.wantlist().len(), 2);
        assert_eq!(cut.blocks(), &vec![Block::new(cid(5), vec![5])]);
        assert!(cut.block_presences().is_empty());
    }
    let list = message.wantlist().without_want_have();
    assert_eq!(list.len(), 2);
    assert_eq!(list.get(&cid(1)), None);
    assert_eq!(list.get(&cid(2)), block(2));
}

#[test]
fn data_keeps_name_and_bytes() {
    let data = Data::new("foo.jpg".to_string(), vec![1u8; 5 * 1024]);
    assert_eq!(data.name(), "foo.jpg");
    assert_eq!(data.bytes(), &vec![1u8; 5 * 1024][..]);
}
