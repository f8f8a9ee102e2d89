//! The contacts protocol: the mutual-consent contact introduction
//! handshake, and the node-identity dedup rule of the contact list.
//!
//! An initiator opens a stream tagged for this protocol, writes its
//! serialized ticket (end of stream is the terminator) and reads one
//! response byte. A responder reads the whole ticket, decodes it, routes
//! it through the consent bridge, and writes the byte back. The runner
//! does the transport work; this module owns the decisions.

use vstd::prelude::*;

use crate::consent::ConsentBridge;
use crate::ticket::ContactTicket;
use crate::{response_accepted, RESPONSE_ACCEPT};

verus! {

/// One peer's contacts endpoint: the consent bridge its responder routes
/// inbound requests through. The runner holds the bridge's lock around
/// each publish-then-await window.
#[derive(Debug)]
pub struct ContactsProtocol {
    pub consent: ConsentBridge,
}

impl ContactsProtocol {
    /// A fresh endpoint with nobody awaiting consent.
    pub fn new() -> (p: ContactsProtocol)
        ensures
            p.consent@ is None,
    {
        ContactsProtocol { consent: ConsentBridge::new() }
    }

    /// The initiator's verdict on the single response byte read after its
    /// ticket: true exactly on the accept byte — any other byte is a
    /// decline.
    pub fn send_request(response: u8) -> (accepted: bool)
        ensures
            accepted == (response == RESPONSE_ACCEPT),
    {
        response_accepted(response)
    }
}

/// Add a ticket to a contact list, where identity (and so uniqueness) is
/// decided by the node identity alone, never the nickname. Fails with the
/// position of the duplicate when the peer is already listed, leaving the
/// list unchanged; appends otherwise.
pub fn add_contact(contacts: &mut Vec<ContactTicket>, ticket: ContactTicket) -> (r: Result<
    (),
    usize,
>)
    ensures
        match r {
            Result::Ok(()) => final(contacts)@ == old(contacts)@.push(ticket) && (forall|i: int|
                0 <= i < old(contacts)@.len() ==> (#[trigger] old(contacts)@[i])@.node_id
                    != ticket@.node_id),
            Result::Err(i) => i < old(contacts)@.len() && old(contacts)@[i as int]@.node_id
                == ticket@.node_id && final(contacts)@ == old(contacts)@,
        },
{
    let mut i: usize = 0;
    while i < contacts.len()
        invariant
            i <= contacts@.len(),
            contacts@ == old(contacts)@,
            forall|k: int| 0 <= k < i ==> (#[trigger] contacts@[k])@.node_id != ticket@.node_id,
        decreases contacts@.len() - i,
    {
        if contacts[i].node_id.same_peer(&ticket.node_id) {
            return Err(i);
        }
        i = i + 1;
    }
    contacts.push(ticket);
    Ok(())
}

} // verus!
