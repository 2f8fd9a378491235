//! The engine as the contracts see it.
//!
//! Every operation of the engine is stated here as a function from one state
//! to the next. The executable engine is proved to follow these functions, and
//! the laws of the engine are proved of them.

use vstd::prelude::*;
use crate::assoc::{
    delete, has_key, key_index, keys_unique, lemma_delete, lemma_key_index_valid, lemma_promote,
    lookup, promote, Key,
};
use crate::event::EventView;
use crate::ledger::{lemma_apply, ConnState, Decision, LedgerOpView, LedgerView};
use crate::message::{BlockPresenceType, MessageView};
use crate::protocol::{spec_may_support_have, ProtocolId};
use crate::wantlist::{lemma_wantlist_ops_wf, of_kind, Priority, Want, WantKind, WantlistView};

verus! {

/// The most peers that one search for providers asks.
pub const MAX_PROVIDERS: usize = 10000;

/// Why a dial failed, as far as the engine cares.
#[derive(Clone, Copy, Debug, PartialEq, Eq, Structural)]
pub enum DialFailure {
    /// The transport has reached its cap on connections.
    ConnectionLimit,
    /// The condition under which the dial was asked for no longer held.
    DialPeerConditionFalse,
    /// Anything else: the peer is taken to be unreachable.
    Other,
}

/// What a poll of the engine yields, as the contracts see it.
pub enum ActionView {
    GenerateEvent { event: EventView },
    NotifyHandler { peer: Key, message: MessageView },
    Dial { peer: Key },
    Pending,
}

/// The state of the engine.
pub struct BitswapView {
    /// The ledgers, most recently used first.
    pub ledgers: Seq<(Key, LedgerView)>,
    /// The known peers with their last agreed protocol, most recently used first.
    pub known_peers: Seq<(Key, Option<ProtocolId>)>,
    /// What the local node wants and has not got yet.
    pub wantlist: WantlistView,
    /// The events that wait for the embedder, oldest first.
    pub events: Seq<EventView>,
    /// Whether dials are held back because the transport was full.
    pub connection_limit: bool,
    pub max_ledgers: int,
    pub max_cached_peers: int,
}

/// The ledgers after each was changed by the operation chosen for its peer.
pub open spec fn map_ledgers(
    ledgers: Seq<(Key, LedgerView)>,
    sender: Option<Key>,
    for_sender: LedgerOpView,
    for_others: LedgerOpView,
) -> Seq<(Key, LedgerView)> {
    Seq::new(
        ledgers.len(),
        |i: int|
            (
                ledgers[i].0,
                ledgers[i].1.apply(
                    if sender == Some(ledgers[i].0) {
                        for_sender
                    } else {
                        for_others
                    },
                ),
            ),
    )
}

/// The first `n` known peers that may honour Want-Have, at most `MAX_PROVIDERS` of them.
pub open spec fn eligible(known: Seq<(Key, Option<ProtocolId>)>, n: int) -> Seq<Key>
    decreases n,
{
    if n <= 0 || n > known.len() {
        Seq::empty()
    } else {
        let before = eligible(known, n - 1);
        if before.len() < MAX_PROVIDERS && spec_may_support_have(known[n - 1].1) {
            before.push(known[n - 1].0)
        } else {
            before
        }
    }
}

/// The position of the first ledger at or after `from` that asks for
/// something at the instant `now`, or -1 where none does.
pub open spec fn first_active(
    ledgers: Seq<(Key, LedgerView)>,
    now: u64,
    connection_limit: bool,
    from: int,
) -> int
    decreases ledgers.len() - from,
{
    if from < 0 || from >= ledgers.len() {
        -1
    } else if !(ledgers[from].1.decision(now, connection_limit) is Idle) {
        from
    } else {
        first_active(ledgers, now, connection_limit, from + 1)
    }
}

/// Whether `t` is the earliest instant at which a ledger that waits for its
/// timer at `now` will have something to ask for.
pub open spec fn is_next_deadline(
    ledgers: Seq<(Key, LedgerView)>,
    now: u64,
    connection_limit: bool,
    t: u64,
) -> bool {
    &&& exists|i: int|
        0 <= i < ledgers.len() && (#[trigger] ledgers[i]).1.waits(now, connection_limit)
            && ledgers[i].1.last_send == t
    &&& forall|j: int|
        0 <= j < ledgers.len() && (#[trigger] ledgers[j]).1.waits(now, connection_limit) ==> t
            <= ledgers[j].1.last_send
}

/// Whether no ledger waits for its timer at `now`.
pub open spec fn none_waits(ledgers: Seq<(Key, LedgerView)>, now: u64, connection_limit: bool) -> bool {
    forall|j: int|
        0 <= j < ledgers.len() ==> !(#[trigger] ledgers[j]).1.waits(now, connection_limit)
}

/// The requests that an inbound wantlist makes, as events: first the wants
/// for blocks, then the wants for presences, then the cancels.
pub open spec fn request_events(sender: Key, entries: Seq<(Key, Want)>) -> Seq<
    EventView,
> {
    let blocks = of_kind(entries, WantKind::WantBlock);
    let haves = of_kind(entries, WantKind::WantHave);
    let cancels = of_kind(entries, WantKind::Cancel);
    Seq::new(
        blocks.len(),
        |i: int| EventView::InboundWant { sender, cid: blocks[i].0, priority: blocks[i].1 },
    ) + Seq::new(
        haves.len(),
        |i: int| EventView::InboundWantHave { sender, cid: haves[i].0, priority: haves[i].1 },
    ) + Seq::new(cancels.len(), |i: int| EventView::InboundCancel { sender, cid: cancels[i].0 })
}

impl BitswapView {
    /// The invariant of the engine: both caches are within their bounds and
    /// hold no peer twice, every ledger sits under its own peer, and no
    /// wantlist holds an identifier twice.
    pub open spec fn wf(self) -> bool {
        &&& 0 < self.max_ledgers
        &&& 0 < self.max_cached_peers
        &&& keys_unique(self.ledgers)
        &&& self.ledgers.len() <= self.max_ledgers
        &&& keys_unique(self.known_peers)
        &&& self.known_peers.len() <= self.max_cached_peers
        &&& self.wantlist.wf()
        &&& forall|i: int|
            0 <= i < self.ledgers.len() ==> (#[trigger] self.ledgers[i]).1.wf()
                && self.ledgers[i].1.peer == self.ledgers[i].0
    }

    /// The engine that knows nobody and wants nothing.
    pub open spec fn empty(max_ledgers: int, max_cached_peers: int) -> BitswapView {
        BitswapView {
            ledgers: Seq::empty(),
            known_peers: Seq::empty(),
            wantlist: WantlistView::empty(false),
            events: Seq::empty(),
            connection_limit: false,
            max_ledgers,
            max_cached_peers,
        }
    }

    /// The ledger of `peer`, if the engine holds one.
    pub open spec fn ledger(self, peer: Key) -> Option<LedgerView> {
        lookup(self.ledgers, peer)
    }

    /// The ledger of `peer`, or the one it would get now.
    pub open spec fn ledger_or_fresh(self, peer: Key) -> LedgerView {
        match lookup(self.ledgers, peer) {
            Some(l) => l,
            None => LedgerView::fresh(peer),
        }
    }

    pub open spec fn add_peer(self, peer: Key, protocol: Option<ProtocolId>) -> BitswapView {
        BitswapView {
            known_peers: promote(self.known_peers, self.max_cached_peers, peer, protocol),
            ..self
        }
    }

    /// Changes the ledger of `peer`, which becomes the most recently used
    /// one. A peer without a ledger gets a fresh one first and is recorded as
    /// known, with no protocol agreed.
    pub open spec fn with_ledger(self, peer: Key, op: LedgerOpView) -> BitswapView {
        let ledgers = promote(
            self.ledgers,
            self.max_ledgers,
            peer,
            self.ledger_or_fresh(peer).apply(op),
        );
        if has_key(self.ledgers, peer) {
            BitswapView { ledgers, ..self }
        } else {
            BitswapView { ledgers, ..self }.add_peer(peer, None)
        }
    }

    /// Changes the ledgers of the first `n` of `peers`, one after the other.
    pub open spec fn with_ledgers(self, peers: Seq<Key>, op: LedgerOpView, n: int) -> BitswapView
        decreases n,
    {
        if n <= 0 || n > peers.len() {
            self
        } else {
            self.with_ledgers(peers, op, n - 1).with_ledger(peers[n - 1], op)
        }
    }

    /// Changes every ledger where it stands.
    pub open spec fn each_ledger(
        self,
        sender: Option<Key>,
        for_sender: LedgerOpView,
        for_others: LedgerOpView,
    ) -> BitswapView {
        BitswapView { ledgers: map_ledgers(self.ledgers, sender, for_sender, for_others), ..self }
    }

    pub open spec fn push_event(self, event: EventView) -> BitswapView {
        BitswapView { events: self.events.push(event), ..self }
    }

    pub open spec fn want_block(self, cid: Key, priority: Priority, providers: Seq<Key>) -> BitswapView {
        BitswapView { wantlist: self.wantlist.want_block(cid, priority), ..self }.with_ledgers(
            providers,
            LedgerOpView::WantBlock { cid, priority },
            providers.len() as int,
        )
    }

    pub open spec fn send_block(self, peer: Key, cid: Key, data: Seq<u8>) -> BitswapView {
        self.with_ledger(peer, LedgerOpView::SendBlock { cid, data })
    }

    pub open spec fn send_have_block(self, peer: Key, cid: Key) -> BitswapView {
        self.with_ledger(peer, LedgerOpView::SendHaveBlock { cid })
    }

    pub open spec fn find_providers(self, cid: Key, priority: Priority) -> BitswapView {
        let providers = eligible(self.known_peers, self.known_peers.len() as int);
        let asked = self.with_ledgers(
            providers,
            LedgerOpView::WantHaveBlock { cid, priority },
            providers.len() as int,
        );
        BitswapView { wantlist: asked.wantlist.want_have_block(cid, priority), ..asked }
    }

    pub open spec fn cancel_block(self, cid: Key) -> BitswapView {
        BitswapView { wantlist: self.wantlist.remove_block(cid), ..self }.each_ledger(
            None,
            LedgerOpView::CancelBlock { cid },
            LedgerOpView::CancelBlock { cid },
        )
    }

    pub open spec fn cancel_want_block(self, cid: Key) -> BitswapView {
        BitswapView { wantlist: self.wantlist.remove_want_block(cid), ..self }.each_ledger(
            None,
            LedgerOpView::RemoveWantBlock { cid },
            LedgerOpView::RemoveWantBlock { cid },
        )
    }

    /// Asks for a connection to `peer`. Whether a dial goes out is `dials`.
    pub open spec fn dial(self, peer: Key) -> BitswapView {
        if self.connection_limit {
            self
        } else {
            self.with_ledger(peer, LedgerOpView::Dial)
        }
    }

    pub open spec fn dials(self, peer: Key) -> bool {
        !self.connection_limit && self.ledger_or_fresh(peer).is_disconnected()
    }

    pub open spec fn connection_established(self, peer: Key, other_established: int) -> BitswapView {
        if other_established == 0 {
            self.add_peer(peer, None).with_ledger(
                peer,
                LedgerOpView::SetConn { conn: ConnState::Connected(None) },
            )
        } else {
            self
        }
    }

    pub open spec fn connection_closed(self, peer: Key, remaining_established: int) -> BitswapView {
        if remaining_established == 0 {
            BitswapView {
                connection_limit: false,
                ..self.with_ledger(peer, LedgerOpView::SetConn { conn: ConnState::Disconnected })
            }
        } else {
            self
        }
    }

    pub open spec fn dial_failure(self, peer: Option<Key>, error: DialFailure) -> BitswapView {
        match peer {
            None => self,
            Some(p) => match error {
                DialFailure::ConnectionLimit => BitswapView {
                    connection_limit: true,
                    ..self
                }.with_ledger(p, LedgerOpView::SetConn { conn: ConnState::Disconnected }),
                DialFailure::DialPeerConditionFalse => self,
                DialFailure::Other => BitswapView {
                    known_peers: delete(self.known_peers, p),
                    ledgers: delete(self.ledgers, p),
                    ..self
                },
            },
        }
    }

    /// The handler reports the protocol version agreed with `peer`.
    pub open spec fn protocol_agreed(self, peer: Key, protocol: ProtocolId) -> BitswapView {
        self.with_ledger(
            peer,
            LedgerOpView::SetConn { conn: ConnState::Connected(Some(protocol)) },
        ).add_peer(peer, Some(protocol))
    }

    /// A block arrived from `sender`: the want is met, the sender's ledger
    /// forgets it without a cancel, every other ledger records a cancel, and
    /// the embedder is told.
    pub open spec fn receive_block(self, sender: Key, cid: Key, data: Seq<u8>) -> BitswapView {
        BitswapView { wantlist: self.wantlist.remove_block(cid), ..self }.each_ledger(
            Some(sender),
            LedgerOpView::RemoveBlock { cid },
            LedgerOpView::CancelBlock { cid },
        ).push_event(EventView::WantOk { sender, cid, data })
    }

    pub open spec fn receive_blocks(self, sender: Key, blocks: Seq<(Key, Seq<u8>)>, n: int) -> BitswapView
        decreases n,
    {
        if n <= 0 || n > blocks.len() {
            self
        } else {
            self.receive_blocks(sender, blocks, n - 1).receive_block(
                sender,
                blocks[n - 1].0,
                blocks[n - 1].1,
            )
        }
    }

    /// A presence arrived from `sender`. A Have meets the Want-Have
    /// everywhere, without a cancel, and the embedder is told; a Dont-Have
    /// changes nothing.
    pub open spec fn receive_presence(self, sender: Key, cid: Key, typ: BlockPresenceType) -> BitswapView {
        if typ == BlockPresenceType::Have {
            self.cancel_want_block(cid).push_event(
                EventView::FindProvidersOk { cid, provider: sender },
            )
        } else {
            self
        }
    }

    pub open spec fn receive_presences(
        self,
        sender: Key,
        presences: Seq<(Key, BlockPresenceType)>,
        n: int,
    ) -> BitswapView
        decreases n,
    {
        if n <= 0 || n > presences.len() {
            self
        } else {
            self.receive_presences(sender, presences, n - 1).receive_presence(
                sender,
                presences[n - 1].0,
                presences[n - 1].1,
            )
        }
    }

    /// A message arrived from `sender`: its blocks are taken in first, then
    /// its presences, then the requests of its wantlist are reported.
    pub open spec fn receive_message(self, sender: Key, message: MessageView) -> BitswapView {
        let after = self.receive_blocks(
            sender,
            message.blocks,
            message.blocks.len() as int,
        ).receive_presences(sender, message.presences, message.presences.len() as int);
        BitswapView {
            events: after.events + request_events(sender, message.wantlist.entries),
            ..after
        }
    }

    /// The state after a poll at the instant `now`.
    pub open spec fn poll(self, now: u64) -> BitswapView {
        if self.events.len() > 0 {
            BitswapView { events: self.events.drop_first(), ..self }
        } else {
            let i = first_active(self.ledgers, now, self.connection_limit, 0);
            if i < 0 {
                self
            } else {
                match self.ledgers[i].1.decision(now, self.connection_limit) {
                    Decision::Send => BitswapView {
                        ledgers: self.ledgers.update(
                            i,
                            (self.ledgers[i].0, self.ledgers[i].1.sent(now)),
                        ),
                        ..self
                    },
                    _ => self.dial(self.ledgers[i].0),
                }
            }
        }
    }

    /// What a poll at the instant `now` yields: the oldest waiting event;
    /// else the request of the first ledger, most recently used first, whose
    /// timer has elapsed and that has something to ask for; else nothing.
    pub open spec fn poll_action(self, now: u64) -> ActionView {
        if self.events.len() > 0 {
            ActionView::GenerateEvent { event: self.events[0] }
        } else {
            let i = first_active(self.ledgers, now, self.connection_limit, 0);
            if i < 0 {
                ActionView::Pending
            } else {
                match self.ledgers[i].1.decision(now, self.connection_limit) {
                    Decision::Send => ActionView::NotifyHandler {
                        peer: self.ledgers[i].0,
                        message: self.ledgers[i].1.msg,
                    },
                    _ => ActionView::Dial { peer: self.ledgers[i].0 },
                }
            }
        }
    }
}

/// Where `first_active` finds a ledger, that ledger asks for something and
/// every ledger before it, from `from` on, asks for nothing.
pub proof fn lemma_first_active(
    ledgers: Seq<(Key, LedgerView)>,
    now: u64,
    connection_limit: bool,
    from: int,
)
    requires
        0 <= from,
    ensures
        ({
            let i = first_active(ledgers, now, connection_limit, from);
            if i < 0 {
                i == -1 && forall|j: int|
                    from <= j < ledgers.len() ==> (#[trigger] ledgers[j]).1.decision(
                        now,
                        connection_limit,
                    ) is Idle
            } else {
                from <= i < ledgers.len() && !(ledgers[i].1.decision(now, connection_limit) is Idle)
                    && forall|j: int|
                    from <= j < i ==> (#[trigger] ledgers[j]).1.decision(now, connection_limit) is Idle
            }
        }),
    decreases ledgers.len() - from,
{
    if from < ledgers.len() && ledgers[from].1.decision(now, connection_limit) is Idle {
        lemma_first_active(ledgers, now, connection_limit, from + 1);
    }
}

pub proof fn lemma_add_peer_wf(s: BitswapView, peer: Key, protocol: Option<ProtocolId>)
    requires
        s.wf(),
    ensures
        s.add_peer(peer, protocol).wf(),
        s.add_peer(peer, protocol).max_ledgers == s.max_ledgers,
        s.add_peer(peer, protocol).max_cached_peers == s.max_cached_peers,
{
    lemma_promote(s.known_peers, s.max_cached_peers, peer, protocol);
}

/// The pairs of `promote(s, ..)` behind the first are pairs of `s`.
pub proof fn lemma_promote_rest<V>(s: Seq<(Key, V)>, cap: int, k: Key, v: V, i: int)
    requires
        keys_unique(s),
        s.len() <= cap,
        cap > 0,
        1 <= i < promote(s, cap, k, v).len(),
    ensures
        exists|j: int| 0 <= j < s.len() && #[trigger] s[j] == promote(s, cap, k, v)[i],
{
    let t = promote(s, cap, k, v);
    if has_key(s, k) {
        let x = key_index(s, k);
        lemma_key_index_valid(s, k);
        let j = if i - 1 < x { i - 1 } else { i };
        assert(s[j] == t[i]);
    } else if s.len() == cap {
        assert(s[i - 1] == t[i]);
    } else {
        assert(s[i - 1] == t[i]);
    }
}

pub proof fn lemma_with_ledger_wf(s: BitswapView, peer: Key, op: LedgerOpView)
    requires
        s.wf(),
    ensures
        s.with_ledger(peer, op).wf(),
        s.with_ledger(peer, op).max_ledgers == s.max_ledgers,
        s.with_ledger(peer, op).max_cached_peers == s.max_cached_peers,
        s.with_ledger(peer, op).ledgers.len() > 0,
        s.with_ledger(peer, op).ledgers[0] == (peer, s.ledger_or_fresh(peer).apply(op)),
        s.with_ledger(peer, op).ledger(peer) == Some(s.ledger_or_fresh(peer).apply(op)),
{
    let l = s.ledger_or_fresh(peer);
    if has_key(s.ledgers, peer) {
        lemma_key_index_valid(s.ledgers, peer);
    }
    lemma_apply(l, op);
    let l2 = l.apply(op);
    lemma_promote(s.ledgers, s.max_ledgers, peer, l2);
    lemma_promote(s.known_peers, s.max_cached_peers, peer, None::<ProtocolId>);
    let t = promote(s.ledgers, s.max_ledgers, peer, l2);
    assert forall|i: int| 0 <= i < t.len() implies (#[trigger] t[i]).1.wf() && t[i].1.peer
        == t[i].0 by {
        if i > 0 {
            lemma_promote_rest(s.ledgers, s.max_ledgers, peer, l2, i);
            let j = choose|j: int| 0 <= j < s.ledgers.len() && #[trigger] s.ledgers[j] == t[i];
            assert(s.ledgers[j].1.wf());
        }
    }
}

pub proof fn lemma_with_ledgers_wf(s: BitswapView, peers: Seq<Key>, op: LedgerOpView, n: int)
    requires
        s.wf(),
    ensures
        s.with_ledgers(peers, op, n).wf(),
        s.with_ledgers(peers, op, n).max_ledgers == s.max_ledgers,
        s.with_ledgers(peers, op, n).max_cached_peers == s.max_cached_peers,
        s.with_ledgers(peers, op, n).wantlist == s.wantlist,
        s.with_ledgers(peers, op, n).events == s.events,
        s.with_ledgers(peers, op, n).connection_limit == s.connection_limit,
    decreases n,
{
    if n <= 0 || n > peers.len() {
    } else {
        lemma_with_ledgers_wf(s, peers, op, n - 1);
        lemma_with_ledger_wf(s.with_ledgers(peers, op, n - 1), peers[n - 1], op);
    }
}

pub proof fn lemma_each_ledger_wf(
    s: BitswapView,
    sender: Option<Key>,
    for_sender: LedgerOpView,
    for_others: LedgerOpView,
)
    requires
        s.wf(),
    ensures
        s.each_ledger(sender, for_sender, for_others).wf(),
{
    let t = map_ledgers(s.ledgers, sender, for_sender, for_others);
    assert forall|i: int| 0 <= i < t.len() implies (#[trigger] t[i]).1.wf() && t[i].1.peer
        == t[i].0 by {
        assert(s.ledgers[i].1.wf());
        lemma_apply(s.ledgers[i].1, for_sender);
        lemma_apply(s.ledgers[i].1, for_others);
    }
    assert forall|i: int, j: int| 0 <= i < j < t.len() implies (#[trigger] t[i]).0 != (
    #[trigger] t[j]).0 by {
        assert(s.ledgers[i].0 != s.ledgers[j].0);
    }
}

pub proof fn lemma_forget_peer_wf(s: BitswapView, peer: Key)
    requires
        s.wf(),
    ensures
        s.dial_failure(Some(peer), DialFailure::Other).wf(),
{
    lemma_delete(s.known_peers, peer);
    lemma_delete(s.ledgers, peer);
    let t = delete(s.ledgers, peer);
    if has_key(s.ledgers, peer) {
        let x = key_index(s.ledgers, peer);
        lemma_key_index_valid(s.ledgers, peer);
        assert forall|i: int| 0 <= i < t.len() implies (#[trigger] t[i]).1.wf() && t[i].1.peer
            == t[i].0 by {
            let j = if i < x { i } else { i + 1 };
            assert(t[i] == s.ledgers[j]);
        }
    }
}

/// Every operation of the engine keeps its invariant.
pub proof fn lemma_operations_wf(s: BitswapView, peer: Key, cid: Key, priority: Priority)
    requires
        s.wf(),
    ensures
        s.cancel_block(cid).wf(),
        s.cancel_want_block(cid).wf(),
        forall|data: Seq<u8>| #[trigger] s.receive_block(peer, cid, data).wf(),
        forall|typ: BlockPresenceType| #[trigger] s.receive_presence(peer, cid, typ).wf(),
        s.dial(peer).wf(),
{
    lemma_wantlist_ops_wf(s.wantlist, cid, priority);
    let c = LedgerOpView::CancelBlock { cid };
    let r = LedgerOpView::RemoveBlock { cid };
    let h = LedgerOpView::RemoveWantBlock { cid };
    lemma_each_ledger_wf(BitswapView { wantlist: s.wantlist.remove_block(cid), ..s }, None, c, c);
    lemma_each_ledger_wf(
        BitswapView { wantlist: s.wantlist.remove_want_block(cid), ..s },
        None,
        h,
        h,
    );
    lemma_each_ledger_wf(
        BitswapView { wantlist: s.wantlist.remove_block(cid), ..s },
        Some(peer),
        r,
        c,
    );
    lemma_with_ledger_wf(s, peer, LedgerOpView::Dial);
}

/// Taking in blocks keeps the invariant of the engine.
pub proof fn lemma_receive_blocks_wf(
    s: BitswapView,
    sender: Key,
    blocks: Seq<(Key, Seq<u8>)>,
    n: int,
)
    requires
        s.wf(),
    ensures
        s.receive_blocks(sender, blocks, n).wf(),
    decreases n,
{
    if n <= 0 || n > blocks.len() {
    } else {
        lemma_receive_blocks_wf(s, sender, blocks, n - 1);
        lemma_operations_wf(s.receive_blocks(sender, blocks, n - 1), sender, blocks[n - 1].0, 0);
    }
}

/// Taking in presences keeps the invariant of the engine.
pub proof fn lemma_receive_presences_wf(
    s: BitswapView,
    sender: Key,
    presences: Seq<(Key, BlockPresenceType)>,
    n: int,
)
    requires
        s.wf(),
    ensures
        s.receive_presences(sender, presences, n).wf(),
    decreases n,
{
    if n <= 0 || n > presences.len() {
    } else {
        lemma_receive_presences_wf(s, sender, presences, n - 1);
        lemma_operations_wf(
            s.receive_presences(sender, presences, n - 1),
            sender,
            presences[n - 1].0,
            0,
        );
    }
}

/// A poll keeps the invariant of the engine.
pub proof fn lemma_poll_wf(s: BitswapView, now: u64)
    requires
        s.wf(),
    ensures
        s.poll(now).wf(),
{
    if s.events.len() == 0 {
        let i = first_active(s.ledgers, now, s.connection_limit, 0);
        lemma_first_active(s.ledgers, now, s.connection_limit, 0);
        if i >= 0 {
            lemma_operations_wf(s, s.ledgers[i].0, s.ledgers[i].0, 0);
            let t = s.ledgers.update(i, (s.ledgers[i].0, s.ledgers[i].1.sent(now)));
            assert forall|a: int, b: int| 0 <= a < b < t.len() implies (#[trigger] t[a]).0 != (
            #[trigger] t[b]).0 by {
                assert(s.ledgers[a].0 != s.ledgers[b].0);
            }
            assert forall|a: int| 0 <= a < t.len() implies (#[trigger] t[a]).1.wf() && t[a].1.peer
                == t[a].0 by {
                assert(s.ledgers[a].1.wf());
            }
        }
    }
}

} // verus!
