//! What the engine reports to its embedder.

use vstd::prelude::*;
use crate::assoc::Key;
use crate::ids::{Cid, PeerId};
use crate::wantlist::Priority;

verus! {

/// Why a query came to nothing.
#[derive(Clone, Copy, Debug, PartialEq, Eq, Structural)]
pub enum QueryError {
    /// No answer came in time. The engine arms no timer of its own: this is
    /// for the layer above it.
    Timeout,
}

impl QueryError {
    /// The error in words.
    pub fn message(&self) -> (text: &'static str)
        ensures
            text@ == "timeout"@,
    {
        match self {
            QueryError::Timeout => "timeout",
        }
    }
}

/// How a want ended. `Success` carries the block and the peer that sent it.
#[derive(Clone, Debug, PartialEq, Eq)]
pub enum WantResult {
    Success { sender: PeerId, cid: Cid, data: Vec<u8> },
    Failure { cid: Cid, error: QueryError },
}

#[derive(Clone, Debug, PartialEq, Eq)]
pub enum FindProvidersResult {
    Success { cid: Cid, provider: PeerId },
    Failure { cid: Cid, error: QueryError },
}

#[derive(Clone, Debug, PartialEq, Eq)]
pub enum SendHaveResult {
    Success(Cid),
    Failure { cid: Cid, error: QueryError },
}

#[derive(Clone, Debug, PartialEq, Eq)]
pub enum SendResult {
    Success(Cid),
    Failure { cid: Cid, error: QueryError },
}

#[derive(Clone, Debug, PartialEq, Eq)]
pub enum CancelResult {
    Success(Cid),
    Failure { cid: Cid, error: QueryError },
}

/// How a query of the local node ended.
#[derive(Clone, Debug, PartialEq, Eq)]
pub enum QueryResult {
    Want(WantResult),
    FindProviders(FindProvidersResult),
    Send(SendResult),
    SendHave(SendHaveResult),
    Cancel(CancelResult),
}

/// What a remote peer asks of the local node.
#[derive(Clone, Debug, PartialEq, Eq)]
pub enum InboundRequest {
    Want { sender: PeerId, cid: Cid, priority: Priority },
    WantHave { sender: PeerId, cid: Cid, priority: Priority },
    Cancel { sender: PeerId, cid: Cid },
}

/// An event for the embedder.
#[derive(Clone, Debug, PartialEq, Eq)]
pub enum BitswapEvent {
    OutboundQueryCompleted { result: QueryResult },
    InboundRequest { request: InboundRequest },
}

/// An event as the contracts see it.
pub enum EventView {
    WantOk { sender: Key, cid: Key, data: Seq<u8> },
    WantErr { cid: Key, error: QueryError },
    FindProvidersOk { cid: Key, provider: Key },
    FindProvidersErr { cid: Key, error: QueryError },
    SendOk { cid: Key },
    SendErr { cid: Key, error: QueryError },
    SendHaveOk { cid: Key },
    SendHaveErr { cid: Key, error: QueryError },
    CancelOk { cid: Key },
    CancelErr { cid: Key, error: QueryError },
    InboundWant { sender: Key, cid: Key, priority: Priority },
    InboundWantHave { sender: Key, cid: Key, priority: Priority },
    InboundCancel { sender: Key, cid: Key },
}

impl View for BitswapEvent {
    type V = EventView;

    open spec fn view(&self) -> EventView {
        match self {
            BitswapEvent::OutboundQueryCompleted { result } => match result {
                QueryResult::Want(WantResult::Success { sender, cid, data }) => EventView::WantOk {
                    sender: sender@,
                    cid: cid@,
                    data: data@,
                },
                QueryResult::Want(WantResult::Failure { cid, error }) => EventView::WantErr {
                    cid: cid@,
                    error: *error,
                },
                QueryResult::FindProviders(
                    FindProvidersResult::Success { cid, provider },
                ) => EventView::FindProvidersOk { cid: cid@, provider: provider@ },
                QueryResult::FindProviders(
                    FindProvidersResult::Failure { cid, error },
                ) => EventView::FindProvidersErr { cid: cid@, error: *error },
                QueryResult::Send(SendResult::Success(cid)) => EventView::SendOk { cid: cid@ },
                QueryResult::Send(SendResult::Failure { cid, error }) => EventView::SendErr {
                    cid: cid@,
                    error: *error,
                },
                QueryResult::SendHave(SendHaveResult::Success(cid)) => EventView::SendHaveOk {
                    cid: cid@,
                },
                QueryResult::SendHave(SendHaveResult::Failure { cid, error }) => EventView::SendHaveErr {
                    cid: cid@,
                    error: *error,
                },
                QueryResult::Cancel(CancelResult::Success(cid)) => EventView::CancelOk { cid: cid@ },
                QueryResult::Cancel(CancelResult::Failure { cid, error }) => EventView::CancelErr {
                    cid: cid@,
                    error: *error,
                },
            },
            BitswapEvent::InboundRequest { request } => match request {
                InboundRequest::Want { sender, cid, priority } => EventView::InboundWant {
                    sender: sender@,
                    cid: cid@,
                    priority: *priority,
                },
                InboundRequest::WantHave { sender, cid, priority } => EventView::InboundWantHave {
                    sender: sender@,
                    cid: cid@,
                    priority: *priority,
                },
                InboundRequest::Cancel { sender, cid } => EventView::InboundCancel {
                    sender: sender@,
                    cid: cid@,
                },
            },
        }
    }
}

/// The views of a queue of events.
pub open spec fn event_views(events: Seq<BitswapEvent>) -> Seq<EventView> {
    Seq::new(events.len(), |i: int| events[i]@)
}

impl BitswapEvent {
    /// The event that a wanted block arrived from `sender`.
    pub fn block_received(sender: PeerId, cid: Cid, data: Vec<u8>) -> (event: BitswapEvent)
        ensures
            event@ == (EventView::WantOk { sender: sender@, cid: cid@, data: data@ }),
    {
        BitswapEvent::OutboundQueryCompleted {
            result: QueryResult::Want(WantResult::Success { sender, cid, data }),
        }
    }

    /// The event that `provider` said it has the block.
    pub fn provider_found(cid: Cid, provider: PeerId) -> (event: BitswapEvent)
        ensures
            event@ == (EventView::FindProvidersOk { cid: cid@, provider: provider@ }),
    {
        BitswapEvent::OutboundQueryCompleted {
            result: QueryResult::FindProviders(FindProvidersResult::Success { cid, provider }),
        }
    }

    /// The event that `sender` asks for a block.
    pub fn inbound_want(sender: PeerId, cid: Cid, priority: Priority) -> (event: BitswapEvent)
        ensures
            event@ == (EventView::InboundWant { sender: sender@, cid: cid@, priority }),
    {
        BitswapEvent::InboundRequest { request: InboundRequest::Want { sender, cid, priority } }
    }

    /// The event that `sender` asks whether the local node has a block.
    pub fn inbound_want_have(sender: PeerId, cid: Cid, priority: Priority) -> (event: BitswapEvent)
        ensures
            event@ == (EventView::InboundWantHave { sender: sender@, cid: cid@, priority }),
    {
        BitswapEvent::InboundRequest {
            request: InboundRequest::WantHave { sender, cid, priority },
        }
    }

    /// The event that `sender` withdraws a want.
    pub fn inbound_cancel(sender: PeerId, cid: Cid) -> (event: BitswapEvent)
        ensures
            event@ == (EventView::InboundCancel { sender: sender@, cid: cid@ }),
    {
        BitswapEvent::InboundRequest { request: InboundRequest::Cancel { sender, cid } }
    }
}

} // verus!
