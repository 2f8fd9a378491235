//! The ledger: what the engine holds for one peer.
//!
//! A ledger carries the connection state of its peer, the message that waits
//! for it, and the instant before which nothing is sent to it. Time is a count
//! of milliseconds that the embedder supplies with each poll.

use vstd::prelude::*;
use crate::assoc::Key;
use crate::ids::{bytes_copy, Cid, PeerId};
use crate::message::{
    lemma_message_ops_wf, BitswapMessage, Block, BlockPresence, BlockPresenceType, MessageView,
};
use crate::protocol::ProtocolId;
use crate::wantlist::Priority;

verus! {

/// The least time between two messages to one peer, in milliseconds.
pub const MESSAGE_DELAY: u64 = 250;

/// The state of the connection to a peer.
#[derive(Clone, Copy, Debug, PartialEq, Eq, Structural)]
pub enum ConnState {
    /// Connected; the agreed protocol version once the handler has reported it.
    Connected(Option<ProtocolId>),
    Disconnected,
    /// A dial was asked for and has neither succeeded nor failed yet.
    Dialing,
}

/// A change to one ledger.
#[derive(Debug)]
pub enum LedgerOp {
    WantBlock { cid: Cid, priority: Priority },
    WantHaveBlock { cid: Cid, priority: Priority },
    CancelBlock { cid: Cid },
    RemoveBlock { cid: Cid },
    RemoveWantBlock { cid: Cid },
    SendBlock { cid: Cid, data: Vec<u8> },
    SendHaveBlock { cid: Cid },
    SetConn { conn: ConnState },
    /// Marks a disconnected ledger as dialing; any other ledger stays as it is.
    Dial,
}

/// A change to one ledger as the contracts see it.
pub enum LedgerOpView {
    WantBlock { cid: Key, priority: Priority },
    WantHaveBlock { cid: Key, priority: Priority },
    CancelBlock { cid: Key },
    RemoveBlock { cid: Key },
    RemoveWantBlock { cid: Key },
    SendBlock { cid: Key, data: Seq<u8> },
    SendHaveBlock { cid: Key },
    SetConn { conn: ConnState },
    Dial,
}

impl View for LedgerOp {
    type V = LedgerOpView;

    open spec fn view(&self) -> LedgerOpView {
        match self {
            LedgerOp::WantBlock { cid, priority } => LedgerOpView::WantBlock {
                cid: cid@,
                priority: *priority,
            },
            LedgerOp::WantHaveBlock { cid, priority } => LedgerOpView::WantHaveBlock {
                cid: cid@,
                priority: *priority,
            },
            LedgerOp::CancelBlock { cid } => LedgerOpView::CancelBlock { cid: cid@ },
            LedgerOp::RemoveBlock { cid } => LedgerOpView::RemoveBlock { cid: cid@ },
            LedgerOp::RemoveWantBlock { cid } => LedgerOpView::RemoveWantBlock { cid: cid@ },
            LedgerOp::SendBlock { cid, data } => LedgerOpView::SendBlock { cid: cid@, data: data@ },
            LedgerOp::SendHaveBlock { cid } => LedgerOpView::SendHaveBlock { cid: cid@ },
            LedgerOp::SetConn { conn } => LedgerOpView::SetConn { conn: *conn },
            LedgerOp::Dial => LedgerOpView::Dial,
        }
    }
}

/// A message after one change to the ledger that holds it.
pub open spec fn message_after(m: MessageView, op: LedgerOpView) -> MessageView {
    match op {
        LedgerOpView::WantBlock { cid, priority } => m.want_block(cid, priority),
        LedgerOpView::WantHaveBlock { cid, priority } => m.want_have_block(cid, priority),
        LedgerOpView::CancelBlock { cid } => m.cancel_block(cid),
        LedgerOpView::RemoveBlock { cid } => m.remove_block(cid),
        LedgerOpView::RemoveWantBlock { cid } => m.remove_want_block(cid),
        LedgerOpView::SendBlock { cid, data } => m.add_block(cid, data),
        LedgerOpView::SendHaveBlock { cid } => m.add_block_presence(cid, BlockPresenceType::Have),
        LedgerOpView::SetConn { conn } => m,
        LedgerOpView::Dial => m,
    }
}

/// A message after the first `n` changes of `ops`, in order.
pub open spec fn message_after_all(m: MessageView, ops: Seq<LedgerOpView>, n: int) -> MessageView
    decreases n,
{
    if n <= 0 || n > ops.len() {
        m
    } else {
        message_after(message_after_all(m, ops, n - 1), ops[n - 1])
    }
}

/// What a ledger asks for when it is polled.
#[derive(Clone, Copy, Debug, PartialEq, Eq, Structural)]
pub enum Decision {
    /// Nothing to do now.
    Idle,
    /// Hand the pending message to the connection handler.
    Send,
    /// Ask for a connection to the peer.
    Dial,
}

/// A ledger as the contracts see it.
pub struct LedgerView {
    pub peer: Key,
    pub msg: MessageView,
    /// Nothing is sent before this instant.
    pub last_send: u64,
    pub conn: ConnState,
}

impl LedgerOp {
    /// A copy of the change.
    pub fn duplicate(&self) -> (copy: LedgerOp)
        ensures
            copy@ == self@,
    {
        match self {
            LedgerOp::WantBlock { cid, priority } => LedgerOp::WantBlock {
                cid: cid.clone(),
                priority: *priority,
            },
            LedgerOp::WantHaveBlock { cid, priority } => LedgerOp::WantHaveBlock {
                cid: cid.clone(),
                priority: *priority,
            },
            LedgerOp::CancelBlock { cid } => LedgerOp::CancelBlock { cid: cid.clone() },
            LedgerOp::RemoveBlock { cid } => LedgerOp::RemoveBlock { cid: cid.clone() },
            LedgerOp::RemoveWantBlock { cid } => LedgerOp::RemoveWantBlock { cid: cid.clone() },
            LedgerOp::SendBlock { cid, data } => LedgerOp::SendBlock {
                cid: cid.clone(),
                data: bytes_copy(data),
            },
            LedgerOp::SendHaveBlock { cid } => LedgerOp::SendHaveBlock { cid: cid.clone() },
            LedgerOp::SetConn { conn } => LedgerOp::SetConn { conn: *conn },
            LedgerOp::Dial => LedgerOp::Dial,
        }
    }
}

impl LedgerView {
    pub open spec fn wf(self) -> bool {
        self.msg.wf()
    }

    /// The ledger of a peer that was just referenced for the first time: not
    /// connected, free to send at once, and its first message announces a
    /// full wantlist.
    pub open spec fn fresh(peer: Key) -> LedgerView {
        LedgerView {
            peer,
            msg: MessageView::empty(true),
            last_send: 0,
            conn: ConnState::Disconnected,
        }
    }

    pub open spec fn is_connected(self) -> bool {
        self.conn is Connected
    }

    pub open spec fn is_disconnected(self) -> bool {
        self.conn is Disconnected
    }

    /// The ledger after one change.
    pub open spec fn apply(self, op: LedgerOpView) -> LedgerView {
        match op {
            LedgerOpView::WantBlock { cid, priority } => LedgerView {
                msg: self.msg.want_block(cid, priority),
                ..self
            },
            LedgerOpView::WantHaveBlock { cid, priority } => LedgerView {
                msg: self.msg.want_have_block(cid, priority),
                ..self
            },
            LedgerOpView::CancelBlock { cid } => LedgerView {
                msg: self.msg.cancel_block(cid),
                ..self
            },
            LedgerOpView::RemoveBlock { cid } => LedgerView {
                msg: self.msg.remove_block(cid),
                ..self
            },
            LedgerOpView::RemoveWantBlock { cid } => LedgerView {
                msg: self.msg.remove_want_block(cid),
                ..self
            },
            LedgerOpView::SendBlock { cid, data } => LedgerView {
                msg: self.msg.add_block(cid, data),
                ..self
            },
            LedgerOpView::SendHaveBlock { cid } => LedgerView {
                msg: self.msg.add_block_presence(cid, BlockPresenceType::Have),
                ..self
            },
            LedgerOpView::SetConn { conn } => LedgerView { conn, ..self },
            LedgerOpView::Dial => if self.is_disconnected() {
                LedgerView { conn: ConnState::Dialing, ..self }
            } else {
                self
            },
        }
    }

    /// The ledger after the first `n` changes of `ops`, in order.
    pub open spec fn apply_all(self, ops: Seq<LedgerOpView>, n: int) -> LedgerView
        decreases n,
    {
        if n <= 0 || n > ops.len() {
            self
        } else {
            self.apply_all(ops, n - 1).apply(ops[n - 1])
        }
    }

    /// What the ledger asks for at the instant `now`, given whether the engine
    /// is holding back dials.
    pub open spec fn decision(self, now: u64, connection_limit: bool) -> Decision {
        if now < self.last_send {
            Decision::Idle
        } else if self.is_connected() {
            if self.msg.is_empty() {
                Decision::Idle
            } else {
                Decision::Send
            }
        } else if !self.msg.is_empty() && self.is_disconnected() && !connection_limit {
            Decision::Dial
        } else {
            Decision::Idle
        }
    }

    /// The ledger waits for its timer: nothing is due at `now`, and something
    /// will be once the timer has elapsed.
    pub open spec fn waits(self, now: u64, connection_limit: bool) -> bool {
        now < self.last_send && !(self.decision(self.last_send, connection_limit) is Idle)
    }

    /// The ledger after its pending message left at the instant `now`.
    pub open spec fn sent(self, now: u64) -> LedgerView {
        LedgerView {
            msg: MessageView::empty(false),
            last_send: (now + MESSAGE_DELAY) as u64,
            ..self
        }
    }
}

/// A change keeps a ledger well formed, and touches neither its peer nor its timer.
pub proof fn lemma_apply(l: LedgerView, op: LedgerOpView)
    requires
        l.wf(),
    ensures
        l.apply(op).wf(),
        l.apply(op).peer == l.peer,
        l.apply(op).last_send == l.last_send,
        l.apply(op).msg.wantlist.full == l.msg.wantlist.full,
{
    match op {
        LedgerOpView::WantBlock { cid, priority } => lemma_message_ops_wf(l.msg, cid, priority),
        LedgerOpView::WantHaveBlock { cid, priority } => lemma_message_ops_wf(
            l.msg,
            cid,
            priority,
        ),
        LedgerOpView::CancelBlock { cid } => lemma_message_ops_wf(l.msg, cid, 0),
        LedgerOpView::RemoveBlock { cid } => lemma_message_ops_wf(l.msg, cid, 0),
        LedgerOpView::RemoveWantBlock { cid } => lemma_message_ops_wf(l.msg, cid, 0),
        _ => {},
    }
}

/// What one poll of a ledger yields.
#[derive(Debug, PartialEq, Eq)]
pub enum LedgerAction {
    /// Nothing to do now.
    Idle,
    /// The message to hand to the connection handler.
    Send(BitswapMessage),
    /// The peer should be dialled.
    Dial,
}

/// The state the engine holds for one peer.
#[derive(Debug)]
pub struct Ledger {
    peer_id: PeerId,
    msg: BitswapMessage,
    last_send: u64,
    conn: ConnState,
}

impl View for Ledger {
    type V = LedgerView;

    closed spec fn view(&self) -> LedgerView {
        LedgerView {
            peer: self.peer_id@,
            msg: self.msg@,
            last_send: self.last_send,
            conn: self.conn,
        }
    }
}

impl Ledger {
    pub open spec fn wf(&self) -> bool {
        self@.wf()
    }

    /// The ledger for a peer that is referenced for the first time.
    pub fn new(peer_id: PeerId) -> (ledger: Ledger)
        ensures
            ledger@ == LedgerView::fresh(peer_id@),
            ledger.wf(),
    {
        Ledger {
            peer_id,
            msg: BitswapMessage::new(true),
            last_send: 0,
            conn: ConnState::Disconnected,
        }
    }

    pub fn peer_id(&self) -> (peer: &PeerId)
        ensures
            peer@ == self@.peer,
    {
        &self.peer_id
    }

    /// The connection state.
    pub fn conn(&self) -> (conn: ConnState)
        ensures
            conn == self@.conn,
    {
        self.conn
    }

    /// The message that waits for the peer.
    pub fn pending(&self) -> (msg: &BitswapMessage)
        ensures
            msg@ == self@.msg,
    {
        &self.msg
    }

    /// The instant before which nothing is sent to the peer.
    pub fn last_send(&self) -> (at: u64)
        ensures
            at == self@.last_send,
    {
        self.last_send
    }

    pub fn is_connected(&self) -> (yes: bool)
        ensures
            yes == self@.is_connected(),
    {
        match self.conn {
            ConnState::Connected(_) => true,
            _ => false,
        }
    }

    pub fn is_disconnected(&self) -> (yes: bool)
        ensures
            yes == self@.is_disconnected(),
    {
        match self.conn {
            ConnState::Disconnected => true,
            _ => false,
        }
    }

    /// Whether a dial is needed before anything can be sent.
    pub fn needs_dial(&self) -> (yes: bool)
        ensures
            yes == self@.is_disconnected(),
    {
        self.is_disconnected()
    }

    /// Whether nothing waits for the peer.
    pub fn is_empty(&self) -> (empty: bool)
        ensures
            empty == self@.msg.is_empty(),
    {
        self.msg.is_empty()
    }

    /// Whether block payloads wait for the peer.
    pub fn has_blocks(&self) -> (yes: bool)
        ensures
            yes == (self@.msg.blocks.len() > 0),
    {
        self.msg.blocks().len() != 0
    }

    /// Records a new connection state.
    pub fn set_conn(&mut self, conn: ConnState)
        ensures
            final(self)@ == old(self)@.apply(LedgerOpView::SetConn { conn }),
    {
        self.conn = conn;
    }

    pub fn want_block(&mut self, cid: &Cid, priority: Priority)
        requires
            old(self).wf(),
        ensures
            final(self)@ == old(self)@.apply(LedgerOpView::WantBlock { cid: cid@, priority }),
            final(self).wf(),
    {
        self.msg.want_block(cid, priority);
    }

    pub fn want_have_block(&mut self, cid: &Cid, priority: Priority)
        requires
            old(self).wf(),
        ensures
            final(self)@ == old(self)@.apply(LedgerOpView::WantHaveBlock { cid: cid@, priority }),
            final(self).wf(),
    {
        self.msg.want_have_block(cid, priority);
    }

    pub fn cancel_block(&mut self, cid: &Cid)
        requires
            old(self).wf(),
        ensures
            final(self)@ == old(self)@.apply(LedgerOpView::CancelBlock { cid: cid@ }),
            final(self).wf(),
    {
        self.msg.cancel_block(cid);
    }

    pub fn remove_block(&mut self, cid: &Cid)
        requires
            old(self).wf(),
        ensures
            final(self)@ == old(self)@.apply(LedgerOpView::RemoveBlock { cid: cid@ }),
            final(self).wf(),
    {
        self.msg.remove_block(cid);
    }

    pub fn remove_want_block(&mut self, cid: &Cid)
        requires
            old(self).wf(),
        ensures
            final(self)@ == old(self)@.apply(LedgerOpView::RemoveWantBlock { cid: cid@ }),
            final(self).wf(),
    {
        self.msg.remove_want_block(cid);
    }

    pub fn send_block(&mut self, cid: Cid, data: Vec<u8>)
        ensures
            final(self)@ == old(self)@.apply(LedgerOpView::SendBlock { cid: cid@, data: data@ }),
    {
        self.msg.add_block(Block::new(cid, data));
    }

    pub fn send_have_block(&mut self, cid: Cid)
        ensures
            final(self)@ == old(self)@.apply(LedgerOpView::SendHaveBlock { cid: cid@ }),
    {
        self.msg.add_block_presence(BlockPresence::have(cid));
    }

    /// Puts `other` in the place of this ledger and hands this one out.
    pub fn replace(&mut self, other: Ledger) -> (previous: Ledger)
        ensures
            previous == *old(self),
            *final(self) == other,
    {
        let mut other = other;
        std::mem::swap(self, &mut other);
        other
    }

    /// Makes one change.
    pub fn apply(&mut self, op: LedgerOp)
        requires
            old(self).wf(),
        ensures
            final(self)@ == old(self)@.apply(op@),
            final(self).wf(),
    {
        proof {
            lemma_apply(self@, op@);
        }
        match op {
            LedgerOp::WantBlock { cid, priority } => self.want_block(&cid, priority),
            LedgerOp::WantHaveBlock { cid, priority } => self.want_have_block(&cid, priority),
            LedgerOp::CancelBlock { cid } => self.cancel_block(&cid),
            LedgerOp::RemoveBlock { cid } => self.remove_block(&cid),
            LedgerOp::RemoveWantBlock { cid } => self.remove_want_block(&cid),
            LedgerOp::SendBlock { cid, data } => self.send_block(cid, data),
            LedgerOp::SendHaveBlock { cid } => self.send_have_block(cid),
            LedgerOp::SetConn { conn } => self.set_conn(conn),
            LedgerOp::Dial => {
                if self.needs_dial() {
                    self.set_conn(ConnState::Dialing);
                }
            },
        }
    }

    /// Hands out the pending message and installs an empty one whose full flag
    /// is clear. Nothing more is sent before `now + MESSAGE_DELAY`.
    pub fn send_message(&mut self, now: u64) -> (msg: BitswapMessage)
        requires
            now + MESSAGE_DELAY <= u64::MAX,
        ensures
            msg@ == old(self)@.msg,
            final(self)@ == old(self)@.sent(now),
            final(self).wf(),
    {
        let mut out = BitswapMessage::new(false);
        std::mem::swap(&mut self.msg, &mut out);
        self.last_send = now + MESSAGE_DELAY;
        out
    }

    /// What the ledger asks for at the instant `now`.
    pub fn decide(&self, now: u64, connection_limit: bool) -> (decision: Decision)
        ensures
            decision == self@.decision(now, connection_limit),
    {
        if now < self.last_send {
            Decision::Idle
        } else if self.is_connected() {
            if self.has_blocks() || !self.is_empty() {
                Decision::Send
            } else {
                Decision::Idle
            }
        } else if !self.is_empty() && self.is_disconnected() && !connection_limit {
            Decision::Dial
        } else {
            Decision::Idle
        }
    }

    /// Whether the ledger has something to ask for as soon as its timer has
    /// elapsed, but not yet at the instant `now`.
    pub fn waits(&self, now: u64, connection_limit: bool) -> (waits: bool)
        ensures
            waits == self@.waits(now, connection_limit),
    {
        if now < self.last_send {
            match self.decide(self.last_send, connection_limit) {
                Decision::Idle => false,
                _ => true,
            }
        } else {
            false
        }
    }

    /// Polls the ledger at the instant `now`. Before the timer has elapsed
    /// nothing happens. After it, a connected ledger with a pending message
    /// sends it; a disconnected one with a pending message asks for a dial,
    /// unless the engine is holding dials back.
    pub fn poll(&mut self, now: u64, connection_limit: bool) -> (action: LedgerAction)
        requires
            now + MESSAGE_DELAY <= u64::MAX,
            old(self).wf(),
        ensures
            final(self).wf(),
            match old(self)@.decision(now, connection_limit) {
                Decision::Idle => action is Idle && final(self)@ == old(self)@,
                Decision::Dial => action is Dial && final(self)@ == old(self)@,
                Decision::Send => action is Send && action->Send_0@ == old(self)@.msg
                    && final(self)@ == old(self)@.sent(now),
            },
    {
        match self.decide(now, connection_limit) {
            Decision::Idle => LedgerAction::Idle,
            Decision::Dial => LedgerAction::Dial,
            Decision::Send => LedgerAction::Send(self.send_message(now)),
        }
    }
}

} // verus!
