//! The call protocol: the ring/accept handshake and the connection handle
//! of the live call it establishes.
//!
//! An attempt runs Idle, then Ringing (control stream open, ticket
//! written), then on the single response byte either the media stage
//! (stream rendezvous, priming byte, then the session loops) or a decline
//! that closes the connection. The runner does the transport work; this
//! module owns the decisions and the active-connection handle, of which
//! there is at most one per protocol instance.

use vstd::prelude::*;

use crate::{response_accepted, RESPONSE_ACCEPT, RESPONSE_DECLINE};

verus! {

/// The single byte the ringer writes on the fresh media stream, and the
/// receiver reads and validates, purely to make a lazily-created stream
/// materialize before real traffic.
pub const PRIMING_BYTE: u8 = 0;

/// What `disconnect` does to the handle: the connection to close (the old
/// handle, if any), and the handle afterwards (always cleared).
pub open spec fn spec_disconnect(active: Option<u64>) -> (Option<u64>, Option<u64>) {
    (None, active)
}

/// Disconnecting is idempotent and safe with no active call: one call
/// clears the handle, and a second one changes nothing and closes nothing.
pub proof fn lemma_disconnect_idempotent(active: Option<u64>)
    ensures
        spec_disconnect(active).0 is None,
        spec_disconnect(spec_disconnect(active).0) == (None::<u64>, None::<u64>),
{
}

/// One peer's call endpoint: the handle of the connection whose call is
/// live, if any. The runner identifies each transport connection by a
/// number of its choosing and keeps this state behind its connection lock.
#[derive(Debug)]
pub struct CallProtocol {
    active: Option<u64>,
}

impl View for CallProtocol {
    type V = Option<u64>;

    closed spec fn view(&self) -> Option<u64> {
        self.active
    }
}

impl CallProtocol {
    /// A fresh endpoint with no live call.
    pub fn new() -> (p: CallProtocol)
        ensures
            p@ is None,
    {
        CallProtocol { active: None }
    }

    /// The ringer's verdict on the single response byte read after its
    /// ticket: true exactly on the accept byte — any other byte is a
    /// decline. On acceptance the media stage begins on `conn` and the
    /// handle is set; otherwise the runner closes `conn` and the handle is
    /// untouched.
    pub fn ring(&mut self, response: u8, conn: u64) -> (accepted: bool)
        ensures
            accepted == (response == RESPONSE_ACCEPT),
            accepted ==> final(self)@ == Some(conn),
            !accepted ==> final(self)@ == old(self)@,
    {
        let accepted = response_accepted(response);
        if accepted {
            self.active = Some(conn);
        }
        accepted
    }

    /// The receiver's side of the handshake: turn the human decision into
    /// the response byte to write back. On acceptance the media stage
    /// begins on `conn` and the handle is set; on decline the handle is
    /// untouched and the runner waits for the peer to close.
    pub fn accept(&mut self, decision: bool, conn: u64) -> (response: u8)
        ensures
            response == if decision {
                RESPONSE_ACCEPT
            } else {
                RESPONSE_DECLINE
            },
            decision ==> final(self)@ == Some(conn),
            !decision ==> final(self)@ == old(self)@,
    {
        if decision {
            self.active = Some(conn);
            RESPONSE_ACCEPT
        } else {
            RESPONSE_DECLINE
        }
    }

    /// Hang up: clear the handle and tell the runner which connection to
    /// close. A no-op (nothing to close) when no call is active, and
    /// therefore idempotent.
    pub fn disconnect(&mut self) -> (closed: Option<u64>)
        ensures
            (final(self)@, closed) == spec_disconnect(old(self)@),
    {
        let closed = self.active;
        self.active = None;
        closed
    }

    /// The priming byte the ringer writes first on the media stream.
    pub fn priming_byte() -> (b: u8)
        ensures
            b == PRIMING_BYTE,
    {
        PRIMING_BYTE
    }

    /// The receiver's validation of the first byte of the media stream.
    pub fn priming_valid(b: u8) -> (ok: bool)
        ensures
            ok == (b == PRIMING_BYTE),
    {
        b == PRIMING_BYTE
    }
}

} // verus!
