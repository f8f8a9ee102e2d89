//! Contact tickets: the portable `{nickname, node identity}` record that
//! bootstraps both handshakes, together with its binary wire codec.
//!
//! The wire form keeps a stable field order: the nickname as a
//! length-prefixed UTF-8 segment, then the 32 raw bytes of the node
//! identity. Decoding reads that prefix and ignores any trailing bytes.

use vstd::prelude::*;
use vstd::utf8::encode_utf8;

use crate::ProtocolError;
use crate::wire::{
    copy_range, lemma_string_round_trip, push_all, spec_string_dec, spec_string_enc, string_decode,
    string_encode,
};

verus! {

/// Byte length of a node identity: an ed25519 public key.
pub const NODE_ID_LEN: usize = 32;

/// The cryptographic public identity of a peer, as its raw key bytes.
#[derive(Clone, Debug, PartialEq, Eq)]
pub struct NodeId {
    pub bytes: Vec<u8>,
}

impl View for NodeId {
    type V = Seq<u8>;

    open spec fn view(&self) -> Seq<u8> {
        self.bytes@
    }
}

impl NodeId {
    /// A node identity is exactly `NODE_ID_LEN` bytes.
    pub open spec fn wf(&self) -> bool {
        self@.len() == NODE_ID_LEN
    }

    /// Wrap raw key bytes; succeeds exactly on a 32-byte input.
    pub fn new(bytes: Vec<u8>) -> (r: Option<NodeId>)
        ensures
            r is Some <==> bytes@.len() == NODE_ID_LEN,
            r matches Some(n) ==> n@ == bytes@ && n.wf(),
    {
        if bytes.len() == NODE_ID_LEN {
            Some(NodeId { bytes })
        } else {
            None
        }
    }

    /// Whether two identities are the same peer, byte for byte. Contact
    /// identity (and contact-list uniqueness) is decided by this alone.
    pub fn same_peer(&self, other: &NodeId) -> (r: bool)
        ensures
            r == (self@ == other@),
    {
        if self.bytes.len() != other.bytes.len() {
            proof {
                assert(self@ != other@);
            }
            return false;
        }
        let mut i: usize = 0;
        while i < self.bytes.len()
            invariant
                i <= self.bytes@.len() == other.bytes@.len(),
                forall|k: int| 0 <= k < i ==> self.bytes@[k] == other.bytes@[k],
            decreases self.bytes@.len() - i,
        {
            if self.bytes[i] != other.bytes[i] {
                return false;
            }
            i = i + 1;
        }
        proof {
            assert(self@ =~= other@);
        }
        true
    }
}

/// The mathematical value of a ticket: its nickname's characters and the
/// bytes of its node identity.
pub ghost struct TicketView {
    pub nickname: Seq<char>,
    pub node_id: Seq<u8>,
}

/// A well-formed ticket carries a full-length node identity.
pub open spec fn ticket_wf(t: TicketView) -> bool {
    t.node_id.len() == NODE_ID_LEN
}

/// Portable introduction record: who a peer says it is (nickname) and how
/// to reach and authenticate it (node identity). Immutable once created.
#[derive(Clone, Debug, PartialEq, Eq)]
pub struct ContactTicket {
    pub nickname: String,
    pub node_id: NodeId,
}

impl View for ContactTicket {
    type V = TicketView;

    open spec fn view(&self) -> TicketView {
        TicketView { nickname: self.nickname@, node_id: self.node_id@ }
    }
}

/// The wire encoding of a ticket: nickname segment, then node identity.
pub open spec fn spec_serialize_ticket(t: TicketView) -> Seq<u8> {
    spec_string_enc(t.nickname) + t.node_id
}

/// Decode a ticket from the start of `b`: a string segment, then exactly
/// `NODE_ID_LEN` bytes of identity. Trailing bytes are ignored.
pub open spec fn spec_deserialize_ticket(b: Seq<u8>) -> Option<TicketView> {
    match spec_string_dec(b, 0) {
        Option::None => None,
        Option::Some((nick, p)) => if p + NODE_ID_LEN > b.len() {
            None
        } else {
            Some(TicketView { nickname: nick, node_id: b.subrange(p, p + NODE_ID_LEN) })
        },
    }
}

/// Round trip: any well-formed ticket survives serialization unchanged.
pub proof fn lemma_ticket_round_trip(t: TicketView)
    requires
        ticket_wf(t),
        encode_utf8(t.nickname).len() <= u64::MAX,
    ensures
        spec_deserialize_ticket(spec_serialize_ticket(t)) == Some(t),
{
    let b = spec_serialize_ticket(t);
    let e = spec_string_enc(t.nickname);
    assert(b.subrange(0, e.len() as int) =~= e);
    lemma_string_round_trip(b, 0, t.nickname);
    assert(b.subrange(e.len() as int, e.len() + NODE_ID_LEN) =~= t.node_id);
}

impl ContactTicket {
    /// Build the ticket a peer announces itself with, from its chosen
    /// nickname and its own node identity.
    pub fn new(nickname: String, node_id: NodeId) -> (t: ContactTicket)
        requires
            node_id.wf(),
        ensures
            t@ == (TicketView { nickname: nickname@, node_id: node_id@ }),
            ticket_wf(t@),
    {
        ContactTicket { nickname, node_id }
    }

    /// Serialize for the wire; the binary form other peers decode.
    pub fn to_bytes(&self) -> (r: Vec<u8>)
        ensures
            r@ == spec_serialize_ticket(self@),
    {
        let mut out: Vec<u8> = Vec::new();
        string_encode(&self.nickname, &mut out);
        push_all(&mut out, &self.node_id.bytes);
        proof {
            assert(out@ =~= spec_serialize_ticket(self@));
        }
        out
    }

    /// Decode a ticket received on the wire. Fails with a codec error on
    /// any input that does not begin with a valid encoding.
    pub fn from_bytes(bytes: &Vec<u8>) -> (r: Result<ContactTicket, ProtocolError>)
        ensures
            match spec_deserialize_ticket(bytes@) {
                Option::Some(tv) => r matches Ok(t) && t@ == tv && ticket_wf(t@),
                Option::None => r == Err::<ContactTicket, ProtocolError>(ProtocolError::Codec),
            },
    {
        match string_decode(bytes, 0) {
            Option::None => Err(ProtocolError::Codec),
            Option::Some((nickname, p)) => {
                if bytes.len() < NODE_ID_LEN || p > bytes.len() - NODE_ID_LEN {
                    return Err(ProtocolError::Codec);
                }
                let node_bytes = copy_range(bytes, p, p + NODE_ID_LEN);
                Ok(ContactTicket { nickname, node_id: NodeId { bytes: node_bytes } })
            },
        }
    }
}

} // verus!
