//! Laws of the engine.
//!
//! Each law is stated over the model of the engine, which the executable
//! engine is proved to follow, and is proved here.

use vstd::prelude::*;
use crate::assoc::{
    has_key, lemma_delete, lemma_key_index, lemma_key_index_valid, lemma_upsert, lookup, Key,
};
use crate::ledger::{
    lemma_apply, message_after_all, ConnState, LedgerOpView, LedgerView, MESSAGE_DELAY,
};
use crate::message::MessageView;
use crate::model::{
    eligible, first_active, is_next_deadline, lemma_poll_wf, lemma_receive_blocks_wf,
    lemma_receive_presences_wf, none_waits, lemma_add_peer_wf, lemma_first_active,
    lemma_forget_peer_wf, lemma_operations_wf, lemma_with_ledger_wf, lemma_with_ledgers_wf,
    ActionView, BitswapView, DialFailure,
};
use crate::protocol::ProtocolId;
use crate::wantlist::{has_kind, lemma_wantlist_ops_wf, Priority, Want, WantKind};

verus! {

/// The node's own wantlist never holds two entries for one identifier.
pub proof fn law_one_entry_per_cid(s: BitswapView, i: int, j: int)
    requires
        s.wf(),
        0 <= i < s.wantlist.entries.len(),
        0 <= j < s.wantlist.entries.len(),
        i != j,
    ensures
        s.wantlist.entries[i].0 != s.wantlist.entries[j].0,
{
    if i < j {
        assert(s.wantlist.entries[i].0 != s.wantlist.entries[j].0);
    } else {
        assert(s.wantlist.entries[j].0 != s.wantlist.entries[i].0);
    }
}

/// The invariant of the engine holds of the empty engine, and every
/// operation keeps it: in every state that can be reached, no wantlist holds
/// an identifier twice and both caches are within their bounds.
pub proof fn law_invariant_is_kept(
    s: BitswapView,
    peer: Key,
    cid: Key,
    priority: Priority,
    data: Seq<u8>,
    peers: Seq<Key>,
    protocol: Option<ProtocolId>,
    agreed: ProtocolId,
    established: int,
    error: DialFailure,
    message: MessageView,
    now: u64,
)
    requires
        s.wf(),
    ensures
        s.max_ledgers > 0 && s.max_cached_peers > 0 ==> BitswapView::empty(
            s.max_ledgers,
            s.max_cached_peers,
        ).wf(),
        s.add_peer(peer, protocol).wf(),
        s.want_block(cid, priority, peers).wf(),
        s.send_block(peer, cid, data).wf(),
        s.send_have_block(peer, cid).wf(),
        s.find_providers(cid, priority).wf(),
        s.cancel_block(cid).wf(),
        s.cancel_want_block(cid).wf(),
        s.dial(peer).wf(),
        s.connection_established(peer, established).wf(),
        s.connection_closed(peer, established).wf(),
        s.dial_failure(Some(peer), error).wf(),
        s.dial_failure(None, error).wf(),
        s.protocol_agreed(peer, agreed).wf(),
        s.receive_message(peer, message).wf(),
        s.poll(now).wf(),
{
    lemma_add_peer_wf(s, peer, protocol);
    lemma_wantlist_ops_wf(s.wantlist, cid, priority);
    lemma_with_ledgers_wf(
        BitswapView { wantlist: s.wantlist.want_block(cid, priority), ..s },
        peers,
        LedgerOpView::WantBlock { cid, priority },
        peers.len() as int,
    );
    lemma_with_ledger_wf(s, peer, LedgerOpView::SendBlock { cid, data });
    lemma_with_ledger_wf(s, peer, LedgerOpView::SendHaveBlock { cid });
    let providers = eligible(s.known_peers, s.known_peers.len() as int);
    lemma_with_ledgers_wf(
        s,
        providers,
        LedgerOpView::WantHaveBlock { cid, priority },
        providers.len() as int,
    );
    lemma_operations_wf(s, peer, cid, priority);
    lemma_add_peer_wf(s, peer, None);
    lemma_with_ledger_wf(
        s.add_peer(peer, None),
        peer,
        LedgerOpView::SetConn { conn: ConnState::Connected(None) },
    );
    lemma_with_ledger_wf(s, peer, LedgerOpView::SetConn { conn: ConnState::Disconnected });
    lemma_with_ledger_wf(
        BitswapView { connection_limit: true, ..s },
        peer,
        LedgerOpView::SetConn { conn: ConnState::Disconnected },
    );
    lemma_forget_peer_wf(s, peer);
    lemma_with_ledger_wf(
        s,
        peer,
        LedgerOpView::SetConn { conn: ConnState::Connected(Some(agreed)) },
    );
    lemma_add_peer_wf(
        s.with_ledger(peer, LedgerOpView::SetConn { conn: ConnState::Connected(Some(agreed)) }),
        peer,
        Some(agreed),
    );
    lemma_receive_blocks_wf(s, peer, message.blocks, message.blocks.len() as int);
    lemma_receive_presences_wf(
        s.receive_blocks(peer, message.blocks, message.blocks.len() as int),
        peer,
        message.presences,
        message.presences.len() as int,
    );
    lemma_poll_wf(s, now);
}

/// Both caches stay within the bounds that the engine was made with.
pub proof fn law_caches_bounded(s: BitswapView)
    requires
        s.wf(),
    ensures
        s.known_peers.len() <= s.max_cached_peers,
        s.ledgers.len() <= s.max_ledgers,
{
}

/// A poll asks for a dial only to a peer whose ledger says disconnected, and
/// only while dials are not held back; the ledger then says dialing, so a peer
/// that is connected or being dialled is never dialled.
pub proof fn law_dial_only_when_disconnected(s: BitswapView, now: u64)
    requires
        s.wf(),
    ensures
        match s.poll_action(now) {
            ActionView::Dial { peer } => !s.connection_limit && match s.ledger(peer) {
                Some(l) => l.conn is Disconnected && s.poll(now).ledger(peer) == Some(
                    LedgerView { conn: ConnState::Dialing, ..l },
                ),
                None => false,
            },
            _ => true,
        },
{
    if s.events.len() == 0 {
        let i = first_active(s.ledgers, now, s.connection_limit, 0);
        lemma_first_active(s.ledgers, now, s.connection_limit, 0);
        if i >= 0 {
            let peer = s.ledgers[i].0;
            lemma_key_index(s.ledgers, peer, i);
            lemma_with_ledger_wf(s, peer, LedgerOpView::Dial);
        }
    }
}

/// While dials are held back, no poll asks for one.
pub proof fn law_no_dial_under_connection_limit(s: BitswapView, now: u64)
    requires
        s.wf(),
        s.connection_limit,
    ensures
        !(s.poll_action(now) is Dial),
{
    if s.events.len() == 0 {
        lemma_first_active(s.ledgers, now, s.connection_limit, 0);
    }
}

/// After a poll that yielded nothing, every poll before the next deadline
/// yields nothing either, and without a deadline every later poll does, as
/// long as the engine is not called in between: the embedder may sleep until
/// then.
pub proof fn law_nothing_before_deadline(s: BitswapView, now: u64, deadline: Option<u64>, later: u64)
    requires
        s.wf(),
        s.poll_action(now) is Pending,
        now <= later,
        match deadline {
            Some(t) => is_next_deadline(s.ledgers, now, s.connection_limit, t) && later < t,
            None => none_waits(s.ledgers, now, s.connection_limit),
        },
    ensures
        s.poll_action(later) is Pending,
        s.poll(later) == s,
{
    lemma_first_active(s.ledgers, now, s.connection_limit, 0);
    lemma_first_active(s.ledgers, later, s.connection_limit, 0);
    let i = first_active(s.ledgers, later, s.connection_limit, 0);
    if i >= 0 {
        let l = s.ledgers[i].1;
        assert(l.decision(now, s.connection_limit) is Idle);
        if l.waits(now, s.connection_limit) {
            assert(deadline is Some);
        }
        assert(false);
    }
}

/// Changes to a ledger touch neither its timer nor the full flag of its
/// pending message, and its message gathers exactly the changes.
pub proof fn lemma_apply_all(l: LedgerView, ops: Seq<LedgerOpView>, n: int)
    requires
        l.wf(),
    ensures
        l.apply_all(ops, n).wf(),
        l.apply_all(ops, n).last_send == l.last_send,
        l.apply_all(ops, n).peer == l.peer,
        l.apply_all(ops, n).msg.wantlist.full == l.msg.wantlist.full,
        l.apply_all(ops, n).msg == message_after_all(l.msg, ops, n),
    decreases n,
{
    if n <= 0 || n > ops.len() {
    } else {
        lemma_apply_all(l, ops, n - 1);
        lemma_apply(l.apply_all(ops, n - 1), ops[n - 1]);
    }
}

/// Between two messages that one ledger hands out, at least `MESSAGE_DELAY`
/// passes, whatever is done to the ledger in between.
pub proof fn law_message_delay(
    l: LedgerView,
    first: u64,
    first_limit: bool,
    ops: Seq<LedgerOpView>,
    second: u64,
    second_limit: bool,
)
    requires
        l.wf(),
        first + MESSAGE_DELAY <= u64::MAX,
        l.decision(first, first_limit) is Send,
        l.sent(first).apply_all(ops, ops.len() as int).decision(second, second_limit) is Send,
    ensures
        second >= first + MESSAGE_DELAY,
{
    lemma_apply_all(l.sent(first), ops, ops.len() as int);
}

/// A ledger hands out a message only while its peer is connected.
pub proof fn law_send_only_when_connected(l: LedgerView, now: u64, connection_limit: bool)
    requires
        l.decision(now, connection_limit) is Send,
    ensures
        l.conn is Connected,
        !l.msg.is_empty(),
        now >= l.last_send,
{
}

/// After `cancel_block`, the node's own wantlist has no entry for the
/// identifier, and every ledger holds a cancel for it and no want.
pub proof fn law_cancel_reaches_every_ledger(s: BitswapView, cid: Key, i: int)
    requires
        s.wf(),
        0 <= i < s.ledgers.len(),
    ensures
        !has_key(s.cancel_block(cid).wantlist.entries, cid),
        s.cancel_block(cid).ledgers.len() == s.ledgers.len(),
        s.cancel_block(cid).ledgers[i].0 == s.ledgers[i].0,
        has_kind(s.cancel_block(cid).ledgers[i].1.msg.wantlist.entries, cid, WantKind::Cancel),
        !has_kind(s.cancel_block(cid).ledgers[i].1.msg.wantlist.entries, cid, WantKind::WantBlock),
        !has_kind(s.cancel_block(cid).ledgers[i].1.msg.wantlist.entries, cid, WantKind::WantHave),
{
    lemma_delete(s.wantlist.entries, cid);
    assert(s.ledgers[i].1.wf());
    lemma_upsert(
        s.ledgers[i].1.msg.wantlist.entries,
        cid,
        Want { kind: WantKind::Cancel, priority: 0 },
    );
}

/// After a block has arrived from `sender`: the node's own wantlist has no
/// entry for it; the ledger of the sender has neither a want nor a cancel for
/// it; every other ledger holds a cancel for it.
pub proof fn law_block_received(s: BitswapView, sender: Key, cid: Key, data: Seq<u8>, i: int)
    requires
        s.wf(),
        0 <= i < s.ledgers.len(),
    ensures
        !has_key(s.receive_block(sender, cid, data).wantlist.entries, cid),
        s.receive_block(sender, cid, data).ledgers.len() == s.ledgers.len(),
        s.receive_block(sender, cid, data).ledgers[i].0 == s.ledgers[i].0,
        s.ledgers[i].0 == sender ==> !has_key(
            s.receive_block(sender, cid, data).ledgers[i].1.msg.wantlist.entries,
            cid,
        ),
        s.ledgers[i].0 != sender ==> has_kind(
            s.receive_block(sender, cid, data).ledgers[i].1.msg.wantlist.entries,
            cid,
            WantKind::Cancel,
        ),
{
    lemma_delete(s.wantlist.entries, cid);
    assert(s.ledgers[i].1.wf());
    lemma_delete(s.ledgers[i].1.msg.wantlist.entries, cid);
    lemma_upsert(
        s.ledgers[i].1.msg.wantlist.entries,
        cid,
        Want { kind: WantKind::Cancel, priority: 0 },
    );
}

/// The first message of a fresh ledger announces a full wantlist, whatever
/// was done to the ledger before it is sent, and holds what those changes add
/// up to.
pub proof fn law_first_message_is_full(peer: Key, ops: Seq<LedgerOpView>)
    ensures
        LedgerView::fresh(peer).apply_all(ops, ops.len() as int).msg.wantlist.full,
        LedgerView::fresh(peer).apply_all(ops, ops.len() as int).msg == message_after_all(
            MessageView::empty(true),
            ops,
            ops.len() as int,
        ),
{
    assert(LedgerView::fresh(peer).msg.wantlist.entries.len() == 0);
    lemma_apply_all(LedgerView::fresh(peer), ops, ops.len() as int);
}

/// Every message after the first is a delta: once a ledger has handed out a
/// message, the next one does not announce a full wantlist.
pub proof fn law_later_messages_are_deltas(l: LedgerView, now: u64, ops: Seq<LedgerOpView>)
    requires
        l.wf(),
    ensures
        !l.sent(now).apply_all(ops, ops.len() as int).msg.wantlist.full,
{
    assert(l.sent(now).msg.wantlist.entries.len() == 0);
    lemma_apply_all(l.sent(now), ops, ops.len() as int);
}

/// The message that a ledger hands out is what the changes since its last
/// message add up to, starting from nothing.
pub proof fn law_message_accumulates(l: LedgerView, now: u64, ops: Seq<LedgerOpView>)
    requires
        l.wf(),
    ensures
        l.sent(now).apply_all(ops, ops.len() as int).msg == message_after_all(
            MessageView::empty(false),
            ops,
            ops.len() as int,
        ),
{
    assert(l.sent(now).msg.wantlist.entries.len() == 0);
    lemma_apply_all(l.sent(now), ops, ops.len() as int);
}

/// A want for a block from one provider, followed by its cancel, leaves in
/// the provider's ledger a cancel for the identifier and no want; what the
/// ledger held for other identifiers, and its blocks and presences, are as
/// they were.
pub proof fn law_want_then_cancel(
    s: BitswapView,
    cid: Key,
    priority: Priority,
    provider: Key,
    other: Key,
)
    requires
        s.wf(),
        other != cid,
    ensures
        ({
            let before = s.ledger_or_fresh(provider).msg;
            let after = s.want_block(cid, priority, seq![provider]).cancel_block(cid);
            match after.ledger(provider) {
                Some(l) => {
                    &&& has_kind(l.msg.wantlist.entries, cid, WantKind::Cancel)
                    &&& !has_kind(l.msg.wantlist.entries, cid, WantKind::WantBlock)
                    &&& !has_kind(l.msg.wantlist.entries, cid, WantKind::WantHave)
                    &&& lookup(l.msg.wantlist.entries, other) == lookup(
                        before.wantlist.entries,
                        other,
                    )
                    &&& l.msg.blocks == before.blocks
                    &&& l.msg.presences == before.presences
                },
                None => false,
            }
        }),
{
    reveal_with_fuel(BitswapView::with_ledgers, 2);
    let op = LedgerOpView::WantBlock { cid, priority };
    let base = BitswapView { wantlist: s.wantlist.want_block(cid, priority), ..s };
    lemma_wantlist_ops_wf(s.wantlist, cid, priority);
    if has_key(s.ledgers, provider) {
        lemma_key_index_valid(s.ledgers, provider);
    }
    let l0 = s.ledger_or_fresh(provider);
    assert(base.ledger_or_fresh(provider) == l0);
    lemma_with_ledger_wf(base, provider, op);
    let wanted = s.want_block(cid, priority, seq![provider]);
    assert(wanted == base.with_ledger(provider, op));
    let l1 = l0.apply(op);
    assert(wanted.ledgers[0] == (provider, l1));
    lemma_operations_wf(wanted, provider, cid, priority);
    let after = wanted.cancel_block(cid);
    assert(after.ledgers[0].0 == provider);
    lemma_key_index(after.ledgers, provider, 0);
    let e0 = l0.msg.wantlist.entries;
    lemma_upsert(e0, cid, Want { kind: WantKind::WantBlock, priority });
    let e1 = l1.msg.wantlist.entries;
    lemma_upsert(e1, cid, Want { kind: WantKind::Cancel, priority: 0 });
}

} // verus!
