use near_store::peer_message::{Encoding, PeerMessage, RoutedMessage, RoutedMessageBody};

#[test]
fn encodings_are_distinct() {
    assert_ne!(Encoding::Borsh, Encoding::Proto);
    assert_eq!(Encoding::Borsh, Encoding::Borsh);
}

#[test]
fn important_bodies_are_resent() {
    assert!(RoutedMessageBody::BlockApproval.is_important());
    assert!(RoutedMessageBody::VersionedPartialEncodedChunk.is_important());
    assert!(!RoutedMessageBody::ForwardTx.is_important());
    assert!(!RoutedMessageBody::Ping.is_important());
}

#[test]
fn requests_expect_responses() {
    let ping = RoutedMessage { ttl: 10, body: RoutedMessageBody::Ping };
    assert!(ping.expect_response());
    let pong = RoutedMessage { ttl: 10, body: RoutedMessageBody::Pong };
    assert!(!pong.expect_response());
    let req = RoutedMessage { ttl: 10, body: RoutedMessageBody::StateRequestPart };
    assert!(req.expect_response());
}

#[test]
fn decrease_ttl_counts_down_and_saturates() {
    let mut msg = RoutedMessage { ttl: 2, body: RoutedMessageBody::Ping };
    assert!(msg.decrease_ttl());
    assert_eq!(msg.ttl, 1);
    assert!(!msg.decrease_ttl());
    assert_eq!(msg.ttl, 0);
    assert!(!msg.decrease_ttl());
    assert_eq!(msg.ttl, 0);
}

#[test]
fn client_and_view_client_dispatch() {
    assert!(PeerMessage::Block.is_client_message());
    assert!(PeerMessage::Transaction.is_client_message());
    assert!(!PeerMessage::Block.is_view_client_message());
    assert!(PeerMessage::BlockRequest.is_view_client_message());
    assert!(!PeerMessage::BlockRequest.is_client_message());
    assert!(!PeerMessage::Disconnect.is_client_message());
    assert!(!PeerMessage::Disconnect.is_view_client_message());
    let approval = PeerMessage::Routed(RoutedMessage {
        ttl: 5,
        body: RoutedMessageBody::BlockApproval,
    });
    assert!(approval.is_client_message());
    assert!(!approval.is_view_client_message());
    let status = PeerMessage::Routed(RoutedMessage {
        ttl: 5,
        body: RoutedMessageBody::TxStatusRequest,
    });
    assert!(status.is_view_client_message());
    assert!(!status.is_client_message());
}
