//! The message that waits for one peer: a wantlist delta, block payloads and
//! block presences.

use vstd::prelude::*;
use crate::assoc::Key;
use crate::ids::Cid;
use crate::protocol::ProtocolId;
use crate::wantlist::{lemma_wantlist_ops_wf, Priority, Wantlist, WantlistView};

verus! {

/// A block: a byte string and the identifier that addresses it.
#[derive(Clone, Debug, PartialEq, Eq)]
pub struct Block {
    pub cid: Cid,
    pub data: Vec<u8>,
}

impl View for Block {
    type V = (Key, Seq<u8>);

    open spec fn view(&self) -> (Key, Seq<u8>) {
        (self.cid@, self.data@)
    }
}

impl Block {
    pub fn new(cid: Cid, data: Vec<u8>) -> (block: Block)
        ensures
            block@ == (cid@, data@),
    {
        Block { cid, data }
    }
}

/// Whether the announcing side has the block.
#[derive(Clone, Copy, Debug, PartialEq, Eq, Structural)]
pub enum BlockPresenceType {
    Have,
    DontHave,
}

/// The announcement that a peer has, or lacks, one block.
#[derive(Clone, Debug, PartialEq, Eq)]
pub struct BlockPresence {
    pub cid: Cid,
    pub typ: BlockPresenceType,
}

impl View for BlockPresence {
    type V = (Key, BlockPresenceType);

    open spec fn view(&self) -> (Key, BlockPresenceType) {
        (self.cid@, self.typ)
    }
}

impl BlockPresence {
    /// The announcement that the block is there.
    pub fn have(cid: Cid) -> (presence: BlockPresence)
        ensures
            presence@ == (cid@, BlockPresenceType::Have),
    {
        BlockPresence { cid, typ: BlockPresenceType::Have }
    }

    /// The announcement that the block is not there.
    pub fn dont_have(cid: Cid) -> (presence: BlockPresence)
        ensures
            presence@ == (cid@, BlockPresenceType::DontHave),
    {
        BlockPresence { cid, typ: BlockPresenceType::DontHave }
    }

    pub fn is_have(&self) -> (have: bool)
        ensures
            have == (self@.1 == BlockPresenceType::Have),
    {
        self.typ == BlockPresenceType::Have
    }
}

/// A message as the contracts see it.
pub struct MessageView {
    pub wantlist: WantlistView,
    pub blocks: Seq<(Key, Seq<u8>)>,
    pub presences: Seq<(Key, BlockPresenceType)>,
}

impl MessageView {
    pub open spec fn wf(self) -> bool {
        self.wantlist.wf()
    }

    /// The message that holds nothing.
    pub open spec fn empty(full: bool) -> MessageView {
        MessageView {
            wantlist: WantlistView::empty(full),
            blocks: Seq::empty(),
            presences: Seq::empty(),
        }
    }

    /// Nothing waits in the message. The full flag does not count.
    pub open spec fn is_empty(self) -> bool {
        self.wantlist.is_empty() && self.blocks.len() == 0 && self.presences.len() == 0
    }

    pub open spec fn want_block(self, cid: Key, priority: Priority) -> MessageView {
        MessageView { wantlist: self.wantlist.want_block(cid, priority), ..self }
    }

    pub open spec fn want_have_block(self, cid: Key, priority: Priority) -> MessageView {
        MessageView { wantlist: self.wantlist.want_have_block(cid, priority), ..self }
    }

    pub open spec fn cancel_block(self, cid: Key) -> MessageView {
        MessageView { wantlist: self.wantlist.cancel_block(cid), ..self }
    }

    pub open spec fn remove_block(self, cid: Key) -> MessageView {
        MessageView { wantlist: self.wantlist.remove_block(cid), ..self }
    }

    pub open spec fn remove_want_block(self, cid: Key) -> MessageView {
        MessageView { wantlist: self.wantlist.remove_want_block(cid), ..self }
    }

    pub open spec fn set_full(self, full: bool) -> MessageView {
        MessageView { wantlist: self.wantlist.set_full(full), ..self }
    }

    /// The message as it may travel under `protocol`: a version that knows
    /// presences carries all of it; any other carries neither presences nor
    /// wants for presences.
    pub open spec fn gated(self, protocol: ProtocolId) -> MessageView {
        if protocol.spec_supports_have() {
            self
        } else {
            MessageView {
                wantlist: self.wantlist.without_want_have(),
                blocks: self.blocks,
                presences: Seq::empty(),
            }
        }
    }

    pub open spec fn add_block(self, cid: Key, data: Seq<u8>) -> MessageView {
        MessageView { blocks: self.blocks.push((cid, data)), ..self }
    }

    pub open spec fn add_block_presence(self, cid: Key, typ: BlockPresenceType) -> MessageView {
        MessageView { presences: self.presences.push((cid, typ)), ..self }
    }
}

/// The views of a list of blocks.
pub open spec fn block_views(blocks: Seq<Block>) -> Seq<(Key, Seq<u8>)> {
    Seq::new(blocks.len(), |i: int| blocks[i]@)
}

/// The views of a list of presences.
pub open spec fn presence_views(presences: Seq<BlockPresence>) -> Seq<(Key, BlockPresenceType)> {
    Seq::new(presences.len(), |i: int| presences[i]@)
}

/// One pending message.
#[derive(Clone, Debug, PartialEq, Eq)]
pub struct BitswapMessage {
    wantlist: Wantlist,
    blocks: Vec<Block>,
    block_presences: Vec<BlockPresence>,
}

impl View for BitswapMessage {
    type V = MessageView;

    closed spec fn view(&self) -> MessageView {
        MessageView {
            wantlist: self.wantlist@,
            blocks: block_views(self.blocks@),
            presences: presence_views(self.block_presences@),
        }
    }
}

impl BitswapMessage {
    pub open spec fn wf(&self) -> bool {
        self@.wf()
    }

    /// A message that holds nothing, with the given full flag on its wantlist.
    pub fn new(full: bool) -> (msg: BitswapMessage)
        ensures
            msg@ == MessageView::empty(full),
            msg.wf(),
    {
        let mut wantlist = Wantlist::new();
        wantlist.set_full(full);
        let msg = BitswapMessage { wantlist, blocks: Vec::new(), block_presences: Vec::new() };
        assert(msg@.blocks =~= Seq::empty());
        assert(msg@.presences =~= Seq::empty());
        msg
    }

    /// Whether nothing waits in the message.
    pub fn is_empty(&self) -> (empty: bool)
        ensures
            empty == self@.is_empty(),
    {
        self.wantlist.is_empty() && self.blocks.len() == 0 && self.block_presences.len() == 0
    }

    /// The wantlist delta.
    pub fn wantlist(&self) -> (list: &Wantlist)
        ensures
            list@ == self@.wantlist,
    {
        &self.wantlist
    }

    /// The block payloads, in the order in which they were added.
    pub fn blocks(&self) -> (blocks: &Vec<Block>)
        ensures
            block_views(blocks@) == self@.blocks,
    {
        &self.blocks
    }

    /// The presences, in the order in which they were added.
    pub fn block_presences(&self) -> (presences: &Vec<BlockPresence>)
        ensures
            presence_views(presences@) == self@.presences,
    {
        &self.block_presences
    }

    /// Takes the message apart.
    pub fn into_parts(self) -> (parts: (Wantlist, Vec<Block>, Vec<BlockPresence>))
        ensures
            parts.0@ == self@.wantlist,
            block_views(parts.1@) == self@.blocks,
            presence_views(parts.2@) == self@.presences,
    {
        (self.wantlist, self.blocks, self.block_presences)
    }

    pub fn set_full(&mut self, full: bool)
        ensures
            final(self)@ == old(self)@.set_full(full),
    {
        self.wantlist.set_full(full);
    }

    pub fn want_block(&mut self, cid: &Cid, priority: Priority)
        requires
            old(self).wf(),
        ensures
            final(self)@ == old(self)@.want_block(cid@, priority),
            final(self).wf(),
    {
        self.wantlist.want_block(cid, priority);
    }

    pub fn want_have_block(&mut self, cid: &Cid, priority: Priority)
        requires
            old(self).wf(),
        ensures
            final(self)@ == old(self)@.want_have_block(cid@, priority),
            final(self).wf(),
    {
        self.wantlist.want_have_block(cid, priority);
    }

    pub fn cancel_block(&mut self, cid: &Cid)
        requires
            old(self).wf(),
        ensures
            final(self)@ == old(self)@.cancel_block(cid@),
            final(self).wf(),
    {
        self.wantlist.cancel_block(cid);
    }

    pub fn remove_block(&mut self, cid: &Cid)
        requires
            old(self).wf(),
        ensures
            final(self)@ == old(self)@.remove_block(cid@),
            final(self).wf(),
    {
        self.wantlist.remove_block(cid);
    }

    pub fn remove_want_block(&mut self, cid: &Cid)
        requires
            old(self).wf(),
        ensures
            final(self)@ == old(self)@.remove_want_block(cid@),
            final(self).wf(),
    {
        self.wantlist.remove_want_block(cid);
    }

    /// Cuts the message down to what may travel under `protocol`.
    pub fn for_protocol(self, protocol: ProtocolId) -> (msg: BitswapMessage)
        requires
            self.wf(),
        ensures
            msg@ == self@.gated(protocol),
            msg.wf(),
    {
        if protocol.supports_have() {
            self
        } else {
            let wantlist = self.wantlist.without_want_have();
            let msg = BitswapMessage { wantlist, blocks: self.blocks, block_presences: Vec::new() };
            assert(msg@.presences =~= Seq::empty());
            msg
        }
    }

    /// Appends a block payload.
    pub fn add_block(&mut self, block: Block)
        ensures
            final(self)@ == old(self)@.add_block(block@.0, block@.1),
    {
        self.blocks.push(block);
        assert(self@.blocks =~= old(self)@.blocks.push(block@));
    }

    /// Appends a presence.
    pub fn add_block_presence(&mut self, presence: BlockPresence)
        ensures
            final(self)@ == old(self)@.add_block_presence(presence@.0, presence@.1),
    {
        self.block_presences.push(presence);
        assert(self@.presences =~= old(self)@.presences.push(presence@));
    }
}

/// Every operation on a message keeps its wantlist free of repeated identifiers.
pub proof fn lemma_message_ops_wf(m: MessageView, cid: Key, priority: Priority)
    requires
        m.wf(),
    ensures
        m.want_block(cid, priority).wf(),
        m.want_have_block(cid, priority).wf(),
        m.cancel_block(cid).wf(),
        m.remove_block(cid).wf(),
        m.remove_want_block(cid).wf(),
{
    lemma_wantlist_ops_wf(m.wantlist, cid, priority);
}

} // verus!
