//! Routing classification of peer messages.
//!
//! The wire protocol's payloads — blocks, transactions, signed routed
//! messages — are collaborators' data; what this layer owns is the plain
//! rules over message kinds: which messages go to the client, which to the
//! view client, which routed bodies are important enough to resend, which
//! expect a response, and how a hop spends time-to-live.

use vstd::prelude::*;

verus! {

/// The two encodings a peer message travels in.
#[derive(Clone, Copy, Debug, PartialEq, Eq, Structural, Hash)]
pub enum Encoding {
    Borsh,
    Proto,
}

/// The kind of a routed message's body.  The unused kinds are kept so the
/// classification matches every body a peer can still decode.
#[derive(Clone, Copy, Debug, PartialEq, Eq, Structural, Hash)]
pub enum RoutedMessageBody {
    BlockApproval,
    ForwardTx,
    TxStatusRequest,
    TxStatusResponse,
    _UnusedQueryRequest,
    _UnusedQueryResponse,
    ReceiptOutcomeRequest,
    _UnusedReceiptOutcomeResponse,
    StateRequestHeader,
    StateRequestPart,
    StateResponse,
    PartialEncodedChunkRequest,
    PartialEncodedChunkResponse,
    _UnusedPartialEncodedChunk,
    Ping,
    Pong,
    VersionedPartialEncodedChunk,
    VersionedStateResponse,
    PartialEncodedChunkForward,
}

/// Bodies that are resent along a route to lower the risk of loss: only the
/// two that block production cannot recover by re-requesting.
pub open spec fn spec_is_important(b: RoutedMessageBody) -> bool {
    ||| b is BlockApproval
    ||| b is VersionedPartialEncodedChunk
}

/// Bodies whose sender expects an answer routed back.
pub open spec fn spec_expect_response(b: RoutedMessageBody) -> bool {
    ||| b is Ping
    ||| b is TxStatusRequest
    ||| b is StateRequestHeader
    ||| b is StateRequestPart
    ||| b is PartialEncodedChunkRequest
    ||| b is ReceiptOutcomeRequest
}

impl RoutedMessageBody {
    /// Whether routing resends this body.
    pub fn is_important(&self) -> (r: bool)
        ensures
            r == spec_is_important(*self),
    {
        match self {
            RoutedMessageBody::BlockApproval => true,
            RoutedMessageBody::VersionedPartialEncodedChunk => true,
            _ => false,
        }
    }
}

/// A message travelling the network towards one peer, stripped to what the
/// hop rules read: its remaining time-to-live and its body's kind.
#[derive(Clone, Copy, Debug, PartialEq, Eq, Structural, Hash)]
pub struct RoutedMessage {
    pub ttl: u8,
    pub body: RoutedMessageBody,
}

impl RoutedMessage {
    /// Whether the body asks for a routed-back response.
    pub fn expect_response(&self) -> (r: bool)
        ensures
            r == spec_expect_response(self.body),
    {
        match self.body {
            RoutedMessageBody::Ping => true,
            RoutedMessageBody::TxStatusRequest => true,
            RoutedMessageBody::StateRequestHeader => true,
            RoutedMessageBody::StateRequestPart => true,
            RoutedMessageBody::PartialEncodedChunkRequest => true,
            RoutedMessageBody::ReceiptOutcomeRequest => true,
            _ => false,
        }
    }

    /// Spends one hop: the time-to-live drops by one, stopping at zero, and
    /// the message lives on exactly while it is still positive.
    pub fn decrease_ttl(&mut self) -> (r: bool)
        ensures
            final(self).ttl == if old(self).ttl > 0 {
                (old(self).ttl - 1) as u8
            } else {
                0u8
            },
            final(self).body == old(self).body,
            r == (final(self).ttl > 0),
    {
        self.ttl = if self.ttl > 0 {
            self.ttl - 1
        } else {
            0
        };
        self.ttl > 0
    }
}

/// The kind of a top-level peer message, stripped to what the dispatch
/// rules read; a routed message keeps its hop data.
#[derive(Clone, Copy, Debug, PartialEq, Eq, Structural, Hash)]
pub enum PeerMessage {
    Handshake,
    HandshakeFailure,
    LastEdge,
    SyncRoutingTable,
    RequestUpdateNonce,
    ResponseUpdateNonce,
    SyncAccountsData,
    PeersRequest,
    PeersResponse,
    BlockHeadersRequest,
    BlockHeaders,
    BlockRequest,
    Block,
    Transaction,
    Routed(RoutedMessage),
    Disconnect,
    Challenge,
    EpochSyncRequest,
    EpochSyncResponse,
    EpochSyncFinalizationRequest,
    EpochSyncFinalizationResponse,
}

/// Messages the client actor consumes: blocks, headers, challenges, epoch
/// sync payloads, transactions, and the routed bodies that advance chain
/// state.
pub open spec fn spec_is_client_message(m: PeerMessage) -> bool {
    match m {
        PeerMessage::Block => true,
        PeerMessage::BlockHeaders => true,
        PeerMessage::Challenge => true,
        PeerMessage::EpochSyncFinalizationResponse => true,
        PeerMessage::EpochSyncResponse => true,
        PeerMessage::Transaction => true,
        PeerMessage::Routed(r) => {
            ||| r.body is BlockApproval
            ||| r.body is ForwardTx
            ||| r.body is PartialEncodedChunkForward
            ||| r.body is PartialEncodedChunkRequest
            ||| r.body is PartialEncodedChunkResponse
            ||| r.body is StateResponse
            ||| r.body is VersionedPartialEncodedChunk
            ||| r.body is VersionedStateResponse
        },
        _ => false,
    }
}

/// Messages the view client consumes: the request kinds, and the routed
/// bodies served from non-authoritative state.
pub open spec fn spec_is_view_client_message(m: PeerMessage) -> bool {
    match m {
        PeerMessage::BlockHeadersRequest => true,
        PeerMessage::BlockRequest => true,
        PeerMessage::EpochSyncFinalizationRequest => true,
        PeerMessage::EpochSyncRequest => true,
        PeerMessage::Routed(r) => {
            ||| r.body is ReceiptOutcomeRequest
            ||| r.body is StateRequestHeader
            ||| r.body is StateRequestPart
            ||| r.body is TxStatusRequest
            ||| r.body is TxStatusResponse
        },
        _ => false,
    }
}

impl PeerMessage {
    /// Whether the client actor consumes this message.
    pub fn is_client_message(&self) -> (r: bool)
        ensures
            r == spec_is_client_message(*self),
    {
        match self {
            PeerMessage::Block => true,
            PeerMessage::BlockHeaders => true,
            PeerMessage::Challenge => true,
            PeerMessage::EpochSyncFinalizationResponse => true,
            PeerMessage::EpochSyncResponse => true,
            PeerMessage::Transaction => true,
            PeerMessage::Routed(r) => match r.body {
                RoutedMessageBody::BlockApproval => true,
                RoutedMessageBody::ForwardTx => true,
                RoutedMessageBody::PartialEncodedChunkForward => true,
                RoutedMessageBody::PartialEncodedChunkRequest => true,
                RoutedMessageBody::PartialEncodedChunkResponse => true,
                RoutedMessageBody::StateResponse => true,
                RoutedMessageBody::VersionedPartialEncodedChunk => true,
                RoutedMessageBody::VersionedStateResponse => true,
                _ => false,
            },
            _ => false,
        }
    }

    /// Whether the view client consumes this message.
    pub fn is_view_client_message(&self) -> (r: bool)
        ensures
            r == spec_is_view_client_message(*self),
    {
        match self {
            PeerMessage::BlockHeadersRequest => true,
            PeerMessage::BlockRequest => true,
            PeerMessage::EpochSyncFinalizationRequest => true,
            PeerMessage::EpochSyncRequest => true,
            PeerMessage::Routed(r) => match r.body {
                RoutedMessageBody::ReceiptOutcomeRequest => true,
                RoutedMessageBody::StateRequestHeader => true,
                RoutedMessageBody::StateRequestPart => true,
                RoutedMessageBody::TxStatusRequest => true,
                RoutedMessageBody::TxStatusResponse => true,
                _ => false,
            },
            _ => false,
        }
    }

    /// No message is dispatched to both actors.
    pub proof fn lemma_dispatch_disjoint(m: PeerMessage)
        ensures
            !(spec_is_client_message(m) && spec_is_view_client_message(m)),
    {
    }
}

} // verus!
