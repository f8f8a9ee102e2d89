//! The handshakes, the consent bridge and the media session loops, driven
//! with concrete values, ending in the full ring-to-hang-up scenario.

use free_voip::call::CallProtocol;
use free_voip::consent::ConsentBridge;
use free_voip::contacts::{add_contact, ContactsProtocol};
use free_voip::framing::u64_from_be_bytes;
use free_voip::media::CallMedia;
use free_voip::session::{MediaEvent, MediaReceiver, MediaSender, RecvAction, SendEvent};
use free_voip::ticket::{ContactTicket, NodeId};

fn ticket(nickname: &str, fill: u8) -> ContactTicket {
    ContactTicket::new(nickname.to_string(), NodeId::new(vec![fill; 32]).unwrap())
}

#[test]
fn ring_accepts_exactly_the_accept_byte() {
    for byte in 0u8..=255 {
        let mut cp = CallProtocol::new();
        assert_eq!(cp.ring(byte, 1), byte == 1, "response byte {byte}");
    }
}

#[test]
fn ring_sets_handle_only_on_accept() {
    let mut cp = CallProtocol::new();
    assert!(!cp.ring(0, 5));
    assert_eq!(cp.disconnect(), None);
    assert!(cp.ring(1, 5));
    assert_eq!(cp.disconnect(), Some(5));
}

#[test]
fn accept_writes_the_decision_byte() {
    let mut cp = CallProtocol::new();
    assert_eq!(cp.accept(false, 3), 0);
    assert_eq!(cp.disconnect(), None);
    assert_eq!(cp.accept(true, 3), 1);
    assert_eq!(cp.disconnect(), Some(3));
}

#[test]
fn disconnect_is_idempotent_and_safe_without_a_call() {
    let mut cp = CallProtocol::new();
    // Safe with no active call: nothing to close, no panic.
    assert_eq!(cp.disconnect(), None);
    let _ = cp.ring(1, 9);
    // First hang-up closes the one live connection, the second is a no-op.
    assert_eq!(cp.disconnect(), Some(9));
    assert_eq!(cp.disconnect(), None);
    assert_eq!(cp.disconnect(), None);
}

#[test]
fn priming_byte_validates() {
    assert!(CallProtocol::priming_valid(CallProtocol::priming_byte()));
    assert!(!CallProtocol::priming_valid(1));
    assert!(!CallProtocol::priming_valid(255));
}

#[test]
fn send_request_accepts_exactly_the_accept_byte() {
    assert!(ContactsProtocol::send_request(1));
    assert!(!ContactsProtocol::send_request(0));
    assert!(!ContactsProtocol::send_request(2));
    assert!(!ContactsProtocol::send_request(255));
}

#[test]
fn consent_pairs_decision_with_the_waiting_request() {
    let mut bridge = ConsentBridge::new();
    let a = ticket("alice", 1);
    let b = ticket("bob", 2);

    // A enters its window; B arriving meanwhile is refused and must wait.
    assert!(bridge.begin(a.clone()).is_ok());
    let returned = bridge.begin(b.clone());
    assert_eq!(returned, Err(b.clone()));

    // The decision resolves A, never B.
    let (req, decision) = bridge.decide(true).unwrap();
    assert_eq!(req, a);
    assert!(decision);

    // Now the window is free and B can enter; its own decision is its own.
    assert!(bridge.begin(b.clone()).is_ok());
    let (req, decision) = bridge.decide(false).unwrap();
    assert_eq!(req, b);
    assert!(!decision);
}

#[test]
fn consent_decision_without_a_request_is_dropped() {
    let mut bridge = ConsentBridge::new();
    assert_eq!(bridge.decide(true), None);
    // A dropped decision is not saved for the next request.
    assert!(bridge.begin(ticket("alice", 1)).is_ok());
    let (_, decision) = bridge.decide(false).unwrap();
    assert!(!decision);
}

#[test]
fn add_contact_dedups_by_node_id_only() {
    let mut contacts = Vec::new();
    assert_eq!(add_contact(&mut contacts, ticket("alice", 1)), Ok(()));
    assert_eq!(add_contact(&mut contacts, ticket("bob", 2)), Ok(()));
    // Same node identity under another nickname: refused, list unchanged.
    assert_eq!(add_contact(&mut contacts, ticket("impostor", 1)), Err(0));
    assert_eq!(contacts.len(), 2);
    assert_eq!(contacts[0].nickname, "alice");
    // Same nickname under another node identity: a different contact.
    assert_eq!(add_contact(&mut contacts, ticket("alice", 3)), Ok(()));
    assert_eq!(contacts.len(), 3);
}

#[test]
fn receive_loop_delivers_frames_in_order() {
    let a = CallMedia::new_audio("opus".to_string(), 1, None, vec![1]);
    let b = CallMedia::new_audio("opus".to_string(), 2, None, vec![2, 2]);
    let c = CallMedia::new_audio("opus".to_string(), 3, None, vec![3, 3, 3]);
    let mut receiver = MediaReceiver::new();
    let mut delivered = Vec::new();
    for frame in [&a, &b, &c] {
        match receiver.step(MediaEvent::Frame(frame.to_bytes())) {
            RecvAction::Deliver(m) => delivered.push(m),
            other => panic!("expected delivery, got {other:?}"),
        }
    }
    assert_eq!(delivered, vec![a, b, c]);
}

#[test]
fn receive_loop_skips_malformed_frames_and_goes_on() {
    let mut receiver = MediaReceiver::new();
    assert_eq!(receiver.step(MediaEvent::Frame(vec![9, 9, 9])), RecvAction::Skip);
    let m = CallMedia::new_audio("opus".to_string(), 4, None, vec![4]);
    assert_eq!(
        receiver.step(MediaEvent::Frame(m.to_bytes())),
        RecvAction::Deliver(m)
    );
}

#[test]
fn connection_loss_emits_exactly_one_hang_up() {
    let mut receiver = MediaReceiver::new();
    let m = CallMedia::new_audio("opus".to_string(), 5, None, vec![5]);
    assert_eq!(
        receiver.step(MediaEvent::Frame(m.to_bytes())),
        RecvAction::Deliver(m.clone())
    );
    // The loss terminates the loop with one hang-up signal.
    assert_eq!(receiver.step(MediaEvent::ConnectionLost), RecvAction::HangUp);
    // A dead loop emits nothing more: no second hang-up, no deliveries.
    assert_eq!(receiver.step(MediaEvent::ConnectionLost), RecvAction::Skip);
    assert_eq!(receiver.step(MediaEvent::Frame(m.to_bytes())), RecvAction::Skip);
}

#[test]
fn send_loop_hangs_up_once_on_peer_teardown() {
    let mut sender = MediaSender::new();
    assert!(!sender.step(SendEvent::Sent));
    // A non-fatal send failure is logged and the loop goes on.
    assert!(!sender.step(SendEvent::SendFailed));
    assert!(!sender.step(SendEvent::Sent));
    // Peer-driven teardown ends the loop with its one hang-up.
    assert!(sender.step(SendEvent::PeerClosed));
    assert!(!sender.step(SendEvent::PeerClosed));
    assert!(!sender.step(SendEvent::Sent));
}

#[test]
fn scenario_alice_rings_bob() {
    // Alice rings Bob, identifying herself with her ticket.
    let alice_ticket = ticket("alice", 0xA1);
    let wire_ticket = alice_ticket.to_bytes();

    // Bob decodes the caller's ticket and routes it through his consent
    // bridge; his decision is yes.
    let decoded = ContactTicket::from_bytes(&wire_ticket).unwrap();
    assert_eq!(decoded, alice_ticket);
    let mut bob_bridge = ConsentBridge::new();
    assert!(bob_bridge.begin(decoded).is_ok());
    let (request, decision) = bob_bridge.decide(true).unwrap();
    assert_eq!(request, alice_ticket);
    assert!(decision);

    // Bob answers with the accept byte and brings up his media side.
    let mut bob = CallProtocol::new();
    let response = bob.accept(decision, 41);
    assert_eq!(response, 1);

    // Alice reads the byte: the ring succeeded, her media side comes up.
    let mut alice = CallProtocol::new();
    assert!(alice.ring(response, 17));

    // The ringer primes the fresh stream; the receiver validates the byte.
    assert!(CallProtocol::priming_valid(CallProtocol::priming_byte()));

    // Alice sends one audio frame of 1024 bytes; its declared byte length
    // is 1024 by construction.
    let frame = CallMedia::new_audio("opus".to_string(), 1_000, None, vec![0x5A; 1024]);
    let framed = free_voip::session::encode_media_frame(&frame);

    // Bob's receive loop reads the length prefix, then exactly that many
    // bytes, and delivers that exact frame.
    let prefix = framed[..8].to_vec();
    let length = u64_from_be_bytes(&prefix) as usize;
    let payload = framed[8..8 + length].to_vec();
    assert_eq!(framed.len(), 8 + length);
    let mut bob_receiver = MediaReceiver::new();
    match bob_receiver.step(MediaEvent::Frame(payload)) {
        RecvAction::Deliver(received) => assert_eq!(received, frame),
        other => panic!("expected the frame to be delivered, got {other:?}"),
    }

    // Alice hangs up; her side closes its one live connection.
    assert_eq!(alice.disconnect(), Some(17));

    // Bob's receive loop observes the loss and emits exactly one hang-up.
    assert_eq!(bob_receiver.step(MediaEvent::ConnectionLost), RecvAction::HangUp);
    assert_eq!(bob_receiver.step(MediaEvent::ConnectionLost), RecvAction::Skip);
    assert_eq!(bob.disconnect(), Some(41));
}
