//! Wire compatibility with the transport's own identity type: a ticket
//! serialized by the library matches, byte for byte, what the standard
//! serializer produces for a nickname paired with a real transport key.

use free_voip::ticket::{ContactTicket, NodeId};
use iroh::SecretKey;

#[test]
fn ticket_wire_bytes_match_transport_key_encoding() {
    let secret = SecretKey::from_bytes(&[42u8; 32]);
    let public = secret.public();

    let node_id = NodeId::new(public.as_bytes().to_vec()).unwrap();
    let t = ContactTicket::new("alice".to_string(), node_id);

    // In its binary form the transport's public key serializes as its 32
    // raw bytes, so the pair below has exactly the ticket's wire layout.
    let expected = postcard::to_allocvec(&("alice", public)).unwrap();
    assert_eq!(t.to_bytes(), expected);

    // And the library decodes what the standard serializer produced.
    let back = ContactTicket::from_bytes(&expected).unwrap();
    assert_eq!(back, t);
}
