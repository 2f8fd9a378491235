//! The engine: the ledgers of all peers, the node's own wantlist, the queue of
//! events for the embedder, and the operations that drive them.
//!
//! The engine does no I/O and keeps no clock. The embedder tells it what
//! happened on the network, polls it with the current instant, and carries
//! out the action that a poll yields.

use std::collections::VecDeque;
use vstd::prelude::*;
use caches::RawLRU;
use crate::assoc::{
    key_index, keys_unique, lemma_delete, lemma_key_index, lemma_key_index_valid,
    lemma_update_value, lookup, Key,
};
use crate::cache::{
    ledger_cache_cap, ledger_cache_entries, ledger_cache_exchange, ledger_cache_keys,
    ledger_cache_new, ledger_cache_peek, ledger_cache_put, ledger_cache_remove, peer_cache_cap,
    peer_cache_entries, peer_cache_list, peer_cache_new, peer_cache_peek, peer_cache_put,
    peer_cache_remove, MAX_CAPACITY,
};
use crate::event::{event_views, BitswapEvent, EventView};
use crate::ids::{Cid, PeerId};
use crate::ledger::{ConnState, Decision, Ledger, LedgerOp, LedgerOpView, MESSAGE_DELAY};
use crate::message::{block_views, presence_views, BitswapMessage, Block, BlockPresence};
use crate::model::{
    eligible, first_active, is_next_deadline, lemma_poll_wf, none_waits, lemma_add_peer_wf,
    lemma_each_ledger_wf, lemma_forget_peer_wf, lemma_operations_wf, lemma_with_ledger_wf,
    lemma_with_ledgers_wf, map_ledgers, request_events, ActionView, BitswapView, DialFailure,
    MAX_PROVIDERS,
};
use crate::protocol::{may_support_have, ProtocolConfig, ProtocolId};
use crate::wantlist::{lemma_wantlist_ops_wf, of_kind, Priority, WantKind, Wantlist};

verus! {

/// The settings of an engine.
#[derive(Clone, Debug, PartialEq, Eq)]
pub struct BitswapConfig {
    /// How many known peers are remembered.
    pub max_cached_peers: usize,
    /// How many ledgers are kept.
    pub max_ledgers: usize,
    /// The time without traffic, in milliseconds, after which the connection
    /// handler lets a connection go.
    pub idle_timeout: u64,
    pub protocol_config: ProtocolConfig,
}

impl BitswapConfig {
    /// Both caches can be made: their capacities are positive and can be allocated.
    pub open spec fn spec_is_valid(&self) -> bool {
        0 < self.max_cached_peers <= MAX_CAPACITY && 0 < self.max_ledgers <= MAX_CAPACITY
    }

    /// Whether an engine can be made with these settings.
    #[verifier::when_used_as_spec(spec_is_valid)]
    pub fn is_valid(&self) -> (valid: bool)
        ensures
            valid == self.spec_is_valid(),
    {
        0 < self.max_cached_peers && self.max_cached_peers <= MAX_CAPACITY && 0 < self.max_ledgers
            && self.max_ledgers <= MAX_CAPACITY
    }

    /// A copy of the settings.
    pub fn duplicate(&self) -> (copy: BitswapConfig)
        ensures
            copy.max_cached_peers == self.max_cached_peers,
            copy.max_ledgers == self.max_ledgers,
            copy.idle_timeout == self.idle_timeout,
            copy.protocol_config.protocol_ids@ == self.protocol_config.protocol_ids@,
    {
        BitswapConfig {
            max_cached_peers: self.max_cached_peers,
            max_ledgers: self.max_ledgers,
            idle_timeout: self.idle_timeout,
            protocol_config: self.protocol_config.duplicate(),
        }
    }
}

impl Default for BitswapConfig {
    fn default() -> (config: Self)
        ensures
            config.max_cached_peers == 20_000,
            config.max_ledgers == 1024,
            config.idle_timeout == 30_000,
            config.protocol_config.protocol_ids@ == seq![
                ProtocolId::Bitswap120,
                ProtocolId::Bitswap110,
                ProtocolId::Bitswap100,
            ],
            config.spec_is_valid(),
    {
        BitswapConfig {
            max_cached_peers: 20_000,
            max_ledgers: 1024,
            idle_timeout: 30_000,
            protocol_config: ProtocolConfig::new(),
        }
    }
}

/// What the connection handler of one peer reports.
#[derive(Clone, Debug, PartialEq, Eq)]
pub enum HandlerEvent {
    /// A stream was upgraded and this protocol version agreed.
    Connected { protocol: ProtocolId },
    /// A message arrived.
    Message { message: BitswapMessage },
}

/// What a poll of the engine asks the embedder to do.
#[derive(Clone, Debug, PartialEq, Eq)]
pub enum Action {
    /// Hand the event on.
    GenerateEvent(BitswapEvent),
    /// Send the message to the peer through its connection handler.
    NotifyHandler { peer_id: PeerId, message: BitswapMessage },
    /// Open a connection to the peer.
    Dial { peer_id: PeerId },
    /// Nothing to do now.
    Pending,
}

impl View for Action {
    type V = ActionView;

    open spec fn view(&self) -> ActionView {
        match self {
            Action::GenerateEvent(event) => ActionView::GenerateEvent { event: event@ },
            Action::NotifyHandler { peer_id, message } => ActionView::NotifyHandler {
                peer: peer_id@,
                message: message@,
            },
            Action::Dial { peer_id } => ActionView::Dial { peer: peer_id@ },
            Action::Pending => ActionView::Pending,
        }
    }
}

/// The views of a list of peers.
pub open spec fn peer_views(peers: Seq<PeerId>) -> Seq<Key> {
    Seq::new(peers.len(), |i: int| peers[i]@)
}

/// The engine.
pub struct Bitswap {
    events: VecDeque<BitswapEvent>,
    config: BitswapConfig,
    known_peers: RawLRU<Vec<u8>, Option<ProtocolId>>,
    ledgers: RawLRU<Vec<u8>, Ledger>,
    wantlist: Wantlist,
    connection_limit: bool,
}

impl View for Bitswap {
    type V = BitswapView;

    closed spec fn view(&self) -> BitswapView {
        BitswapView {
            ledgers: ledger_cache_entries(self.ledgers),
            known_peers: peer_cache_entries(self.known_peers),
            wantlist: self.wantlist@,
            events: event_views(self.events@),
            connection_limit: self.connection_limit,
            max_ledgers: ledger_cache_cap(self.ledgers),
            max_cached_peers: peer_cache_cap(self.known_peers),
        }
    }
}

impl Bitswap {
    /// The settings agree with the capacities that the caches were made with.
    pub closed spec fn config_ok(&self) -> bool {
        &&& self.config.spec_is_valid()
        &&& self@.max_ledgers == self.config.max_ledgers
        &&& self@.max_cached_peers == self.config.max_cached_peers
    }

    /// The settings that the engine was made with.
    pub closed spec fn spec_config(&self) -> BitswapConfig {
        self.config
    }

    /// The invariant of the engine.
    pub open spec fn wf(&self) -> bool {
        self@.wf() && self.config_ok()
    }

    /// An engine never holds more ledgers, nor more known peers, than its
    /// settings allow.
    pub proof fn law_within_bounds(&self)
        requires
            self.wf(),
        ensures
            self@.ledgers.len() <= self.spec_config().max_ledgers,
            self@.known_peers.len() <= self.spec_config().max_cached_peers,
    {
    }

    /// Creates an engine that knows nobody and wants nothing.
    pub fn new(config: BitswapConfig) -> (engine: Bitswap)
        requires
            config.spec_is_valid(),
        ensures
            engine@ == BitswapView::empty(
                config.max_ledgers as int,
                config.max_cached_peers as int,
            ),
            engine.spec_config() == config,
            engine.wf(),
    {
        let known_peers = peer_cache_new(config.max_cached_peers);
        let ledgers = ledger_cache_new(config.max_ledgers);
        let engine = Bitswap {
            config,
            known_peers,
            ledgers,
            events: VecDeque::new(),
            wantlist: Wantlist::new(),
            connection_limit: false,
        };
        assert(engine@.events =~= Seq::empty());
        engine
    }

    /// Creates an engine, unless the settings do not allow one.
    pub fn try_new(config: BitswapConfig) -> (engine: Option<Bitswap>)
        ensures
            engine is Some == config.spec_is_valid(),
            match engine {
                Some(e) => e@ == BitswapView::empty(
                    config.max_ledgers as int,
                    config.max_cached_peers as int,
                ) && e.spec_config() == config && e.wf(),
                None => true,
            },
    {
        if config.is_valid() {
            Some(Bitswap::new(config))
        } else {
            None
        }
    }

    /// The protocol versions that the local side offers, in configured order.
    pub fn supported_protocols(&self) -> (protocols: &[ProtocolId])
        ensures
            protocols@ == self.spec_config().protocol_config.protocol_ids@,
    {
        self.config.protocol_config.protocol_ids.as_slice()
    }

    /// The settings that the engine was made with.
    pub fn config(&self) -> (config: &BitswapConfig)
        ensures
            *config == self.spec_config(),
    {
        &self.config
    }

    /// Whether dials are held back because the transport was full.
    pub fn connection_limit(&self) -> (limit: bool)
        ensures
            limit == self@.connection_limit,
    {
        self.connection_limit
    }

    /// The node's own wantlist.
    pub fn wantlist(&self) -> (list: &Wantlist)
        ensures
            list@ == self@.wantlist,
    {
        &self.wantlist
    }

    /// How many events wait for the embedder.
    pub fn pending_events(&self) -> (n: usize)
        ensures
            n == self@.events.len(),
    {
        self.events.len()
    }

    /// The ledger of `peer`, if the engine holds one. The ledger does not
    /// count as used by this.
    pub fn ledger(&self, peer: &PeerId) -> (found: Option<&Ledger>)
        ensures
            match found {
                Some(ledger) => self@.ledger(peer@) == Some(ledger@),
                None => self@.ledger(peer@) is None,
            },
    {
        ledger_cache_peek(&self.ledgers, &peer.bytes)
    }

    /// The peers that have a ledger, most recently used first.
    pub fn ledger_peers(&self) -> (peers: Vec<PeerId>)
        ensures
            peers@.len() == self@.ledgers.len(),
            forall|i: int| 0 <= i < peers@.len() ==> (#[trigger] peers@[i])@ == self@.ledgers[i].0,
    {
        ledger_cache_keys(&self.ledgers)
    }

    /// The known peers with the protocol last agreed with each, most recently
    /// used first.
    pub fn known_peers(&self) -> (peers: Vec<(PeerId, Option<ProtocolId>)>)
        ensures
            peers@.len() == self@.known_peers.len(),
            forall|i: int|
                0 <= i < peers@.len() ==> (#[trigger] peers@[i]).0@ == self@.known_peers[i].0
                    && peers@[i].1 == self@.known_peers[i].1,
    {
        peer_cache_list(&self.known_peers)
    }

    /// What is recorded of the protocol of `peer`: nothing where the peer is
    /// not known, else the version last agreed, if any.
    pub fn known_protocol(&self, peer: &PeerId) -> (found: Option<Option<ProtocolId>>)
        ensures
            found == lookup(self@.known_peers, peer@),
    {
        peer_cache_peek(&self.known_peers, &peer.bytes)
    }

    /// Records that `peer` speaks the protocol, at the given version where it
    /// is known. The peer becomes the most recently used known peer; nothing
    /// is dialled.
    pub fn add_peer(&mut self, peer: &PeerId, protocol: Option<ProtocolId>)
        requires
            old(self).wf(),
        ensures
            final(self)@ == old(self)@.add_peer(peer@, protocol),
            final(self).wf(),
    {
        proof {
            lemma_add_peer_wf(self@, peer@, protocol);
        }
        peer_cache_put(&mut self.known_peers, peer.to_bytes(), protocol);
    }

    fn with_ledger(&mut self, peer: &PeerId, op: LedgerOp)
        requires
            old(self).wf(),
        ensures
            final(self)@ == old(self)@.with_ledger(peer@, op@),
            final(self).wf(),
    {
        let ghost s = self@;
        proof {
            lemma_with_ledger_wf(s, peer@, op@);
            lemma_delete(s.ledgers, peer@);
        }
        match ledger_cache_remove(&mut self.ledgers, &peer.bytes) {
            Some(found) => {
                let mut ledger = found;
                proof {
                    lemma_key_index_valid(s.ledgers, peer@);
                    assert(s.ledgers[key_index(s.ledgers, peer@)].1.wf());
                }
                ledger.apply(op);
                ledger_cache_put(&mut self.ledgers, peer.to_bytes(), ledger);
                assert(self@.ledgers =~= s.with_ledger(peer@, op@).ledgers);
            },
            None => {
                let mut ledger = Ledger::new(peer.clone());
                ledger.apply(op);
                ledger_cache_put(&mut self.ledgers, peer.to_bytes(), ledger);
                peer_cache_put(&mut self.known_peers, peer.to_bytes(), None);
            },
        }
    }

    fn with_ledgers(&mut self, peers: &Vec<PeerId>, op: &LedgerOp)
        requires
            old(self).wf(),
        ensures
            final(self)@ == old(self)@.with_ledgers(peer_views(peers@), op@, peers@.len() as int),
            final(self).wf(),
    {
        let ghost s = self@;
        let ghost views = peer_views(peers@);
        let mut i: usize = 0;
        while i < peers.len()
            invariant
                i <= peers.len(),
                views == peer_views(peers@),
                s.wf(),
                self.wf(),
                self@ == s.with_ledgers(views, op@, i as int),
            decreases peers.len() - i,
        {
            self.with_ledger(&peers[i], op.duplicate());
            i += 1;
        }
    }

    fn each_ledger(&mut self, sender: Option<&PeerId>, for_sender: &LedgerOp, for_others: &LedgerOp)
        requires
            old(self).wf(),
        ensures
            final(self)@ == old(self)@.each_ledger(
                match sender {
                    Some(p) => Some(p@),
                    None => None,
                },
                for_sender@,
                for_others@,
            ),
            final(self).wf(),
    {
        let ghost s = self@;
        let ghost who: Option<Key> = match sender {
            Some(p) => Some(p@),
            None => None,
        };
        let ghost target = map_ledgers(s.ledgers, who, for_sender@, for_others@);
        proof {
            lemma_each_ledger_wf(s, who, for_sender@, for_others@);
        }
        let keys = ledger_cache_keys(&self.ledgers);
        let mut i: usize = 0;
        while i < keys.len()
            invariant
                i <= keys.len(),
                keys@.len() == s.ledgers.len(),
                forall|j: int| 0 <= j < keys@.len() ==> (#[trigger] keys@[j])@ == s.ledgers[j].0,
                s.wf(),
                self.config_ok(),
                who == match sender {
                    Some(p) => Some(p@),
                    None => None,
                },
                target == map_ledgers(s.ledgers, who, for_sender@, for_others@),
                self@.ledgers.len() == s.ledgers.len(),
                keys_unique(self@.ledgers),
                forall|j: int|
                    0 <= j < s.ledgers.len() ==> #[trigger] self@.ledgers[j] == (if j < i {
                        target[j]
                    } else {
                        s.ledgers[j]
                    }),
                self@ == (BitswapView { ledgers: self@.ledgers, ..s }),
            decreases keys.len() - i,
        {
            let key = &keys[i];
            let ghost cur = self@.ledgers;
            let placeholder = Ledger::new(key.clone());
            proof {
                assert(cur[i as int].0 == key@);
                lemma_key_index(cur, key@, i as int);
                lemma_update_value(cur, i as int, placeholder@);
            }
            match ledger_cache_exchange(&mut self.ledgers, &key.bytes, placeholder) {
                Some(found) => {
                    let mut ledger = found;
                    let is_sender = match sender {
                        Some(p) => p.same(key),
                        None => false,
                    };
                    let op = if is_sender {
                        for_sender.duplicate()
                    } else {
                        for_others.duplicate()
                    };
                    proof {
                        assert(ledger@ == s.ledgers[i as int].1);
                        assert(s.ledgers[i as int].1.wf());
                    }
                    ledger.apply(op);
                    proof {
                        lemma_update_value(self@.ledgers, i as int, ledger@);
                    }
                    let _ = ledger_cache_exchange(&mut self.ledgers, &key.bytes, ledger);
                    assert(self@.ledgers[i as int] == target[i as int]);
                },
                None => {},
            }
            i += 1;
        }
        assert(self@.ledgers =~= target);
    }

    /// Asks the given providers for the block of `cid`. The want is recorded
    /// in the node's own wantlist and, in the order given, in the ledger of
    /// each provider, which is created where it is missing.
    pub fn want_block(&mut self, cid: Cid, priority: Priority, providers: Vec<PeerId>)
        requires
            old(self).wf(),
        ensures
            final(self)@ == old(self)@.want_block(cid@, priority, peer_views(providers@)),
            final(self).wf(),
    {
        proof {
            lemma_wantlist_ops_wf(self@.wantlist, cid@, priority);
            lemma_with_ledgers_wf(
                BitswapView { wantlist: self@.wantlist.want_block(cid@, priority), ..self@ },
                peer_views(providers@),
                (LedgerOpView::WantBlock { cid: cid@, priority }),
                providers@.len() as int,
            );
        }
        self.wantlist.want_block(&cid, priority);
        let op = LedgerOp::WantBlock { cid, priority };
        self.with_ledgers(&providers, &op);
    }

    /// Queues a block for `peer_id`.
    pub fn send_block(&mut self, peer_id: &PeerId, cid: Cid, data: Vec<u8>)
        requires
            old(self).wf(),
        ensures
            final(self)@ == old(self)@.send_block(peer_id@, cid@, data@),
            final(self).wf(),
    {
        self.with_ledger(peer_id, LedgerOp::SendBlock { cid, data });
    }

    /// Queues the announcement for `peer_id` that the local node has `cid`.
    pub fn send_have_block(&mut self, peer_id: &PeerId, cid: Cid)
        requires
            old(self).wf(),
        ensures
            final(self)@ == old(self)@.send_have_block(peer_id@, cid@),
            final(self).wf(),
    {
        self.with_ledger(peer_id, LedgerOp::SendHaveBlock { cid });
    }

    /// The known peers that may honour Want-Have, most recently used first,
    /// at most `MAX_PROVIDERS` of them.
    pub fn candidate_providers(&self) -> (providers: Vec<PeerId>)
        ensures
            peer_views(providers@) == eligible(self@.known_peers, self@.known_peers.len() as int),
    {
        let known = peer_cache_list(&self.known_peers);
        let ghost entries = self@.known_peers;
        let mut providers: Vec<PeerId> = Vec::new();
        let mut i: usize = 0;
        while i < known.len()
            invariant
                i <= known.len(),
                known@.len() == entries.len(),
                forall|j: int|
                    0 <= j < known@.len() ==> (#[trigger] known@[j]).0@ == entries[j].0
                        && known@[j].1 == entries[j].1,
                peer_views(providers@) == eligible(entries, i as int),
            decreases known.len() - i,
        {
            let ghost before = peer_views(providers@);
            if providers.len() < MAX_PROVIDERS && may_support_have(known[i].1) {
                providers.push(known[i].0.clone());
                assert(peer_views(providers@) =~= before.push(entries[i as int].0));
            }
            i += 1;
        }
        providers
    }

    /// Asks around who has `cid`: a Want-Have goes into the ledger of every
    /// known peer that may honour one, and into the node's own wantlist.
    pub fn find_providers(&mut self, cid: Cid, priority: Priority)
        requires
            old(self).wf(),
        ensures
            final(self)@ == old(self)@.find_providers(cid@, priority),
            final(self).wf(),
    {
        let providers = self.candidate_providers();
        proof {
            lemma_with_ledgers_wf(
                self@,
                peer_views(providers@),
                (LedgerOpView::WantHaveBlock { cid: cid@, priority }),
                providers@.len() as int,
            );
            lemma_wantlist_ops_wf(self@.wantlist, cid@, priority);
        }
        let op = LedgerOp::WantHaveBlock { cid: cid.clone(), priority };
        self.with_ledgers(&providers, &op);
        self.wantlist.want_have_block(&cid, priority);
    }

    /// Withdraws the want for `cid`: it leaves the node's own wantlist, and
    /// every ledger records a cancel for it.
    pub fn cancel_block(&mut self, cid: &Cid)
        requires
            old(self).wf(),
        ensures
            final(self)@ == old(self)@.cancel_block(cid@),
            final(self).wf(),
    {
        proof {
            lemma_operations_wf(self@, cid@, cid@, 0);
            lemma_wantlist_ops_wf(self@.wantlist, cid@, 0);
        }
        self.wantlist.remove_block(cid);
        let op = LedgerOp::CancelBlock { cid: cid.clone() };
        self.each_ledger(None, &op, &op);
    }

    /// Drops the Want-Have for `cid` from the node's own wantlist and from
    /// every ledger. No cancel is recorded.
    pub fn cancel_want_block(&mut self, cid: &Cid)
        requires
            old(self).wf(),
        ensures
            final(self)@ == old(self)@.cancel_want_block(cid@),
            final(self).wf(),
    {
        proof {
            lemma_operations_wf(self@, cid@, cid@, 0);
            lemma_wantlist_ops_wf(self@.wantlist, cid@, 0);
        }
        self.wantlist.remove_want_block(cid);
        let op = LedgerOp::RemoveWantBlock { cid: cid.clone() };
        self.each_ledger(None, &op, &op);
    }

    /// Asks for a connection to `peer`. A dial goes out exactly when dials
    /// are not held back and the peer is disconnected; its ledger is then
    /// marked as dialing, so that no second dial goes out before this one has
    /// ended.
    pub fn dial(&mut self, peer: &PeerId) -> (dials: bool)
        requires
            old(self).wf(),
        ensures
            final(self)@ == old(self)@.dial(peer@),
            dials == old(self)@.dials(peer@),
            final(self).wf(),
    {
        if self.connection_limit {
            return false;
        }
        let dials = match ledger_cache_peek(&self.ledgers, &peer.bytes) {
            Some(ledger) => ledger.needs_dial(),
            None => true,
        };
        self.with_ledger(peer, LedgerOp::Dial);
        dials
    }

    /// A connection to `peer_id` was established, beside `other_established`
    /// others to the same peer. The first one marks the peer as known and
    /// connected.
    pub fn inject_connection_established(&mut self, peer_id: &PeerId, other_established: usize)
        requires
            old(self).wf(),
        ensures
            final(self)@ == old(self)@.connection_established(peer_id@, other_established as int),
            final(self).wf(),
    {
        if other_established == 0 {
            self.add_peer(peer_id, None);
            self.with_ledger(peer_id, LedgerOp::SetConn { conn: ConnState::Connected(None) });
        }
    }

    /// A connection to `peer_id` was closed, and `remaining_established`
    /// others to the same peer remain. The last one marks the peer as
    /// disconnected and lets dials go out again.
    pub fn inject_connection_closed(&mut self, peer_id: &PeerId, remaining_established: usize)
        requires
            old(self).wf(),
        ensures
            final(self)@ == old(self)@.connection_closed(peer_id@, remaining_established as int),
            final(self).wf(),
    {
        if remaining_established == 0 {
            self.with_ledger(peer_id, LedgerOp::SetConn { conn: ConnState::Disconnected });
            self.connection_limit = false;
        }
    }

    /// A dial failed. Where the transport was full, dials are held back and
    /// the peer keeps its ledger; where the dial condition no longer held,
    /// nothing changes; after any other failure the peer is forgotten.
    pub fn inject_dial_failure(&mut self, peer_id: Option<PeerId>, error: DialFailure)
        requires
            old(self).wf(),
        ensures
            final(self)@ == old(self)@.dial_failure(
                match peer_id {
                    Some(p) => Some(p@),
                    None => None,
                },
                error,
            ),
            final(self).wf(),
    {
        match peer_id {
            Some(peer) => {
                match error {
                    DialFailure::ConnectionLimit => {
                        self.connection_limit = true;
                        self.with_ledger(
                            &peer,
                            LedgerOp::SetConn { conn: ConnState::Disconnected },
                        );
                    },
                    DialFailure::DialPeerConditionFalse => {},
                    DialFailure::Other => {
                        proof {
                            lemma_forget_peer_wf(self@, peer@);
                        }
                        peer_cache_remove(&mut self.known_peers, &peer.bytes);
                        let _ = ledger_cache_remove(&mut self.ledgers, &peer.bytes);
                    },
                }
            },
            None => {},
        }
    }

    /// The handler of `peer_id` reports the protocol version that was agreed.
    pub fn protocol_agreed(&mut self, peer_id: &PeerId, protocol: ProtocolId)
        requires
            old(self).wf(),
        ensures
            final(self)@ == old(self)@.protocol_agreed(peer_id@, protocol),
            final(self).wf(),
    {
        self.with_ledger(peer_id, LedgerOp::SetConn { conn: ConnState::Connected(Some(protocol)) });
        self.add_peer(peer_id, Some(protocol));
    }

    fn push_event(&mut self, event: BitswapEvent)
        ensures
            final(self)@ == old(self)@.push_event(event@),
            final(self).config_ok() == old(self).config_ok(),
    {
        self.events.push_back(event);
        assert(self@.events =~= old(self)@.events.push(event@));
    }

    /// A block arrived from `sender`.
    pub fn receive_block(&mut self, sender: &PeerId, block: Block)
        requires
            old(self).wf(),
        ensures
            final(self)@ == old(self)@.receive_block(sender@, block@.0, block@.1),
            final(self).wf(),
    {
        proof {
            lemma_operations_wf(self@, sender@, block@.0, 0);
            lemma_wantlist_ops_wf(self@.wantlist, block@.0, 0);
        }
        let Block { cid, data } = block;
        self.wantlist.remove_block(&cid);
        let for_sender = LedgerOp::RemoveBlock { cid: cid.clone() };
        let for_others = LedgerOp::CancelBlock { cid: cid.clone() };
        self.each_ledger(Some(sender), &for_sender, &for_others);
        self.push_event(BitswapEvent::block_received(sender.clone(), cid, data));
    }

    /// A presence arrived from `sender`.
    pub fn receive_presence(&mut self, sender: &PeerId, presence: BlockPresence)
        requires
            old(self).wf(),
        ensures
            final(self)@ == old(self)@.receive_presence(sender@, presence@.0, presence@.1),
            final(self).wf(),
    {
        proof {
            lemma_operations_wf(self@, sender@, presence@.0, 0);
        }
        if presence.is_have() {
            self.cancel_want_block(&presence.cid);
            self.push_event(BitswapEvent::provider_found(presence.cid, sender.clone()));
        }
    }

    /// A message arrived from `sender`. Its blocks are taken in first, then
    /// its presences, each in the order of the message; then the requests of
    /// its wantlist are queued as events: wants for blocks, wants for
    /// presences, cancels.
    pub fn receive_message(&mut self, sender: &PeerId, message: BitswapMessage)
        requires
            old(self).wf(),
        ensures
            final(self)@ == old(self)@.receive_message(sender@, message@),
            final(self).wf(),
    {
        let ghost s = self@;
        let ghost m = message@;
        let (wantlist, blocks, presences) = message.into_parts();
        let mut blocks = blocks;
        let mut presences = presences;
        let mut done: usize = 0;
        let block_count = blocks.len();
        let presence_count = presences.len();
        assert(m.blocks.len() == block_count) by {
            assert(block_views(blocks@).len() == blocks@.len());
        }
        assert(m.presences.len() == presence_count) by {
            assert(presence_views(presences@).len() == presences@.len());
        }
        while blocks.len() > 0
            invariant
                self.wf(),
                m.blocks.len() <= usize::MAX,
                done + blocks@.len() == m.blocks.len(),
                block_views(blocks@) == m.blocks.subrange(done as int, m.blocks.len() as int),
                self@ == s.receive_blocks(sender@, m.blocks, done as int),
            decreases blocks@.len(),
        {
            let ghost before = block_views(blocks@);
            let block = blocks.remove(0);
            assert(block@ == before[0]);
            assert forall|j: int| 0 <= j < blocks@.len() implies block_views(blocks@)[j]
                == m.blocks[done + 1 + j] by {
                assert(block_views(blocks@)[j] == before[j + 1]);
            }
            assert(block_views(blocks@) =~= m.blocks.subrange(
                done as int + 1,
                m.blocks.len() as int,
            ));
            self.receive_block(sender, block);
            done += 1;
        }
        let ghost s1 = self@;
        let mut seen: usize = 0;
        while presences.len() > 0
            invariant
                self.wf(),
                m.presences.len() <= usize::MAX,
                seen + presences@.len() == m.presences.len(),
                presence_views(presences@) == m.presences.subrange(
                    seen as int,
                    m.presences.len() as int,
                ),
                self@ == s1.receive_presences(sender@, m.presences, seen as int),
            decreases presences@.len(),
        {
            let ghost before = presence_views(presences@);
            let presence = presences.remove(0);
            assert(presence@ == before[0]);
            assert forall|j: int| 0 <= j < presences@.len() implies presence_views(presences@)[j]
                == m.presences[seen + 1 + j] by {
                assert(presence_views(presences@)[j] == before[j + 1]);
            }
            assert(presence_views(presences@) =~= m.presences.subrange(
                seen as int + 1,
                m.presences.len() as int,
            ));
            self.receive_presence(sender, presence);
            seen += 1;
        }
        let ghost s2 = self@;
        let ghost wants = of_kind(m.wantlist.entries, WantKind::WantBlock);
        let ghost haves = of_kind(m.wantlist.entries, WantKind::WantHave);
        let ghost gone = of_kind(m.wantlist.entries, WantKind::Cancel);
        let want_blocks = wantlist.blocks();
        let mut i: usize = 0;
        while i < want_blocks.len()
            invariant
                i <= want_blocks.len(),
                want_blocks@.len() == wants.len(),
                forall|j: int|
                    0 <= j < want_blocks@.len() ==> (#[trigger] want_blocks@[j]).0@ == wants[j].0
                        && want_blocks@[j].1 == wants[j].1,
                self.config_ok(),
                self@ == (BitswapView {
                    events: s2.events + Seq::new(
                        i as nat,
                        |j: int|
                            EventView::InboundWant {
                                sender: sender@,
                                cid: wants[j].0,
                                priority: wants[j].1,
                            },
                    ),
                    ..s2
                }),
            decreases want_blocks.len() - i,
        {
            let cid = want_blocks[i].0.clone();
            let priority = want_blocks[i].1;
            self.push_event(BitswapEvent::inbound_want(sender.clone(), cid, priority));
            assert(self@.events =~= s2.events + Seq::new(
                (i + 1) as nat,
                |j: int|
                    EventView::InboundWant {
                        sender: sender@,
                        cid: wants[j].0,
                        priority: wants[j].1,
                    },
            ));
            i += 1;
        }
        let ghost e1 = self@.events;
        let want_haves = wantlist.want_have_blocks();
        let mut i: usize = 0;
        while i < want_haves.len()
            invariant
                i <= want_haves.len(),
                want_haves@.len() == haves.len(),
                forall|j: int|
                    0 <= j < want_haves@.len() ==> (#[trigger] want_haves@[j]).0@ == haves[j].0
                        && want_haves@[j].1 == haves[j].1,
                self.config_ok(),
                self@ == (BitswapView {
                    events: e1 + Seq::new(
                        i as nat,
                        |j: int|
                            EventView::InboundWantHave {
                                sender: sender@,
                                cid: haves[j].0,
                                priority: haves[j].1,
                            },
                    ),
                    ..s2
                }),
            decreases want_haves.len() - i,
        {
            let cid = want_haves[i].0.clone();
            let priority = want_haves[i].1;
            self.push_event(BitswapEvent::inbound_want_have(sender.clone(), cid, priority));
            assert(self@.events =~= e1 + Seq::new(
                (i + 1) as nat,
                |j: int|
                    EventView::InboundWantHave {
                        sender: sender@,
                        cid: haves[j].0,
                        priority: haves[j].1,
                    },
            ));
            i += 1;
        }
        let ghost e2 = self@.events;
        let cancels = wantlist.cancels();
        let mut i: usize = 0;
        while i < cancels.len()
            invariant
                i <= cancels.len(),
                cancels@.len() == gone.len(),
                forall|j: int| 0 <= j < cancels@.len() ==> (#[trigger] cancels@[j])@ == gone[j].0,
                self.config_ok(),
                self@ == (BitswapView {
                    events: e2 + Seq::new(
                        i as nat,
                        |j: int|
                            EventView::InboundCancel {
                                sender: sender@,
                                cid: gone[j].0,
                            },
                    ),
                    ..s2
                }),
            decreases cancels.len() - i,
        {
            let cid = cancels[i].clone();
            self.push_event(BitswapEvent::inbound_cancel(sender.clone(), cid));
            assert(self@.events =~= e2 + Seq::new(
                (i + 1) as nat,
                |j: int| EventView::InboundCancel { sender: sender@, cid: gone[j].0 },
            ));
            i += 1;
        }
        assert(self@.events =~= s2.events + request_events(sender@, m.wantlist.entries));
    }

    /// The connection handler of `peer_id` reports something.
    pub fn inject_event(&mut self, peer_id: PeerId, message: HandlerEvent)
        requires
            old(self).wf(),
        ensures
            final(self)@ == (match message {
                HandlerEvent::Connected { protocol } => old(self)@.protocol_agreed(
                    peer_id@,
                    protocol,
                ),
                HandlerEvent::Message { message } => old(self)@.receive_message(
                    peer_id@,
                    message@,
                ),
            }),
            final(self).wf(),
    {
        match message {
            HandlerEvent::Connected { protocol } => self.protocol_agreed(&peer_id, protocol),
            HandlerEvent::Message { message } => self.receive_message(&peer_id, message),
        }
    }

    /// Polls the engine at the instant `now`, a count of milliseconds that
    /// never goes back. The oldest waiting event comes first. Without one,
    /// the ledgers are asked, most recently used first: the first whose timer
    /// has elapsed and that has something to send hands out its message,
    /// if its peer is connected, or has its peer dialled, if it is disconnected and
    /// dials are not held back.
    pub fn poll(&mut self, now: u64) -> (action: Action)
        requires
            old(self).wf(),
            now + MESSAGE_DELAY <= u64::MAX,
        ensures
            action@ == old(self)@.poll_action(now),
            final(self)@ == old(self)@.poll(now),
            final(self).wf(),
    {
        let ghost s = self@;
        match self.events.pop_front() {
            Some(event) => {
                assert(self@.events =~= s.events.drop_first());
                return Action::GenerateEvent(event);
            },
            None => {},
        }
        assert(self@.events =~= s.events);
        let keys = ledger_cache_keys(&self.ledgers);
        let limit = self.connection_limit;
        let mut i: usize = 0;
        while i < keys.len()
            invariant
                i <= keys.len(),
                keys@.len() == s.ledgers.len(),
                forall|j: int| 0 <= j < keys@.len() ==> (#[trigger] keys@[j])@ == s.ledgers[j].0,
                self.wf(),
                self@ == s,
                s == old(self)@,
                s.events.len() == 0,
                limit == s.connection_limit,
                now + MESSAGE_DELAY <= u64::MAX,
                first_active(s.ledgers, now, limit, 0) == first_active(
                    s.ledgers,
                    now,
                    limit,
                    i as int,
                ),
            decreases keys.len() - i,
        {
            let key = &keys[i];
            proof {
                lemma_key_index(s.ledgers, key@, i as int);
                assert(s.ledgers[i as int].1.wf());
            }
            let decision = match ledger_cache_peek(&self.ledgers, &key.bytes) {
                Some(ledger) => ledger.decide(now, limit),
                None => Decision::Idle,
            };
            assert(decision == s.ledgers[i as int].1.decision(now, limit));
            assert(!(decision is Idle) ==> first_active(s.ledgers, now, limit, i as int) == i);
            match decision {
                Decision::Idle => {},
                Decision::Send => {
                    let placeholder = Ledger::new(key.clone());
                    proof {
                        lemma_update_value(s.ledgers, i as int, placeholder@);
                        lemma_poll_wf(s, now);
                    }
                    match ledger_cache_exchange(&mut self.ledgers, &key.bytes, placeholder) {
                        Some(found) => {
                            let mut ledger = found;
                            let message = ledger.send_message(now);
                            let _ = ledger_cache_exchange(&mut self.ledgers, &key.bytes, ledger);
                            assert(self@.ledgers =~= s.ledgers.update(
                                i as int,
                                (s.ledgers[i as int].0, s.ledgers[i as int].1.sent(now)),
                            ));
                            return Action::NotifyHandler { peer_id: key.clone(), message };
                        },
                        None => {},
                    }
                },
                Decision::Dial => {
                    let _ = self.dial(key);
                    return Action::Dial { peer_id: key.clone() };
                },
            }
            i += 1;
        }
        Action::Pending
    }
}

impl Bitswap {
    /// When to poll again after a poll at `now` that yielded nothing: the
    /// earliest instant at which the timer of a ledger with something to ask
    /// for elapses. Without such a ledger, nothing happens until the
    /// embedder calls the engine again.
    pub fn next_deadline(&self, now: u64) -> (deadline: Option<u64>)
        requires
            self.wf(),
        ensures
            match deadline {
                Some(t) => is_next_deadline(self@.ledgers, now, self@.connection_limit, t),
                None => none_waits(self@.ledgers, now, self@.connection_limit),
            },
    {
        let keys = ledger_cache_keys(&self.ledgers);
        let limit = self.connection_limit;
        let ghost ledgers = self@.ledgers;
        let mut best: Option<u64> = None;
        let mut i: usize = 0;
        while i < keys.len()
            invariant
                i <= keys.len(),
                self.wf(),
                ledgers == self@.ledgers,
                limit == self@.connection_limit,
                keys@.len() == ledgers.len(),
                forall|j: int| 0 <= j < keys@.len() ==> (#[trigger] keys@[j])@ == ledgers[j].0,
                match best {
                    Some(t) => is_next_deadline(ledgers.subrange(0, i as int), now, limit, t),
                    None => none_waits(ledgers.subrange(0, i as int), now, limit),
                },
            decreases keys.len() - i,
        {
            let key = &keys[i];
            let ghost seen = ledgers.subrange(0, i as int);
            let ghost next = ledgers.subrange(0, i as int + 1);
            proof {
                lemma_key_index(ledgers, key@, i as int);
                assert forall|j: int| 0 <= j < seen.len() implies #[trigger] next[j] == seen[j] by {}
                assert(next[i as int] == ledgers[i as int]);
            }
            let due = match ledger_cache_peek(&self.ledgers, &key.bytes) {
                Some(ledger) => if ledger.waits(now, limit) {
                    Some(ledger.last_send())
                } else {
                    None
                },
                None => None,
            };
            match due {
                Some(t) => {
                    let earlier = match best {
                        Some(b) => t < b,
                        None => true,
                    };
                    if earlier {
                        proof {
                            assert(next[i as int].1.waits(now, limit));
                            match best {
                                Some(b) => {
                                    assert forall|j: int|
                                        0 <= j < next.len() && (#[trigger] next[j]).1.waits(
                                            now,
                                            limit,
                                        ) implies t <= next[j].1.last_send by {
                                        if j < seen.len() {
                                            assert(seen[j].1.waits(now, limit));
                                        }
                                    }
                                },
                                None => {
                                    assert forall|j: int|
                                        0 <= j < next.len() && (#[trigger] next[j]).1.waits(
                                            now,
                                            limit,
                                        ) implies t <= next[j].1.last_send by {
                                        if j < seen.len() {
                                            assert(!seen[j].1.waits(now, limit));
                                        }
                                    }
                                },
                            }
                        }
                        best = Some(t);
                    } else {
                        proof {
                            let b = best->0;
                            let w = choose|w: int|
                                0 <= w < seen.len() && (#[trigger] seen[w]).1.waits(now, limit)
                                    && seen[w].1.last_send == b;
                            assert(next[w] == seen[w]);
                            assert forall|j: int|
                                0 <= j < next.len() && (#[trigger] next[j]).1.waits(
                                    now,
                                    limit,
                                ) implies b <= next[j].1.last_send by {
                                if j < seen.len() {
                                    assert(seen[j].1.waits(now, limit));
                                }
                            }
                        }
                    }
                },
                None => {
                    proof {
                        assert(!next[i as int].1.waits(now, limit));
                        match best {
                            Some(b) => {
                                let w = choose|w: int|
                                    0 <= w < seen.len() && (#[trigger] seen[w]).1.waits(now, limit)
                                        && seen[w].1.last_send == b;
                                assert(next[w] == seen[w]);
                                assert forall|j: int|
                                    0 <= j < next.len() && (#[trigger] next[j]).1.waits(
                                        now,
                                        limit,
                                    ) implies b <= next[j].1.last_send by {
                                    if j < seen.len() {
                                        assert(seen[j].1.waits(now, limit));
                                    }
                                }
                            },
                            None => {
                                assert forall|j: int| 0 <= j < next.len() implies !(
                                #[trigger] next[j]).1.waits(now, limit) by {
                                    if j < seen.len() {
                                        assert(!seen[j].1.waits(now, limit));
                                    }
                                }
                            },
                        }
                    }
                },
            }
            i += 1;
        }
        assert(ledgers.subrange(0, i as int) =~= ledgers);
        best
    }
}

impl Default for Bitswap {
    fn default() -> (engine: Self)
        ensures
            engine@ == BitswapView::empty(1024, 20_000),
            engine.wf(),
    {
        Bitswap::new(BitswapConfig::default())
    }
}

} // verus!
