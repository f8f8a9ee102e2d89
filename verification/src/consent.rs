//! The consent bridge: turns an inbound network request into a wait for a
//! single human yes/no decision.
//!
//! The decision channel carries no correlation id, so the bridge must
//! serialize consent handling: from publishing a request until its
//! decision arrives, no second request may enter the window. The runner
//! enforces that by holding a lock around the whole publish-then-await
//! window; this module is the state under that lock, and proves that the
//! discipline pairs every decision with the one request that was waiting.

use vstd::prelude::*;

use crate::ticket::{ContactTicket, TicketView};

verus! {

/// One operation on the bridge, at the level of its model: a request
/// entering its wait, or a decision arriving.
pub ghost enum ConsentOp {
    Begin(TicketView),
    Decide(bool),
}

/// How the pending request changes under one operation: a request enters
/// only a free bridge; a decision always clears the window.
pub open spec fn consent_next(pending: Option<TicketView>, op: ConsentOp) -> Option<TicketView> {
    match op {
        ConsentOp::Begin(t) => if pending is None {
            Some(t)
        } else {
            pending
        },
        ConsentOp::Decide(_) => None,
    }
}

/// What one operation hands to a waiting handshake: a decision pairs with
/// exactly the pending request; everything else delivers nothing.
pub open spec fn consent_delivery(pending: Option<TicketView>, op: ConsentOp) -> Option<
    (TicketView, bool),
> {
    match op {
        ConsentOp::Begin(_) => None,
        ConsentOp::Decide(d) => match pending {
            Option::Some(t) => Some((t, d)),
            Option::None => None,
        },
    }
}

/// The pending request just before operation `i` of a trace that starts
/// from an idle bridge.
pub open spec fn consent_state_at(ops: Seq<ConsentOp>, i: int) -> Option<TicketView>
    decreases i,
{
    if i <= 0 {
        None
    } else {
        consent_next(consent_state_at(ops, i - 1), ops[i - 1])
    }
}

/// What operation `j` of a trace delivers.
pub open spec fn consent_delivery_at(ops: Seq<ConsentOp>, j: int) -> Option<(TicketView, bool)> {
    consent_delivery(consent_state_at(ops, j), ops[j])
}

/// While no decision arrives, the pending request does not change: later
/// requests cannot displace it.
pub proof fn lemma_consent_pending_stable(ops: Seq<ConsentOp>, i: int, j: int)
    requires
        0 <= i <= j,
        consent_state_at(ops, i) is Some,
        forall|k: int| i <= k < j ==> !(#[trigger] ops[k] is Decide),
    ensures
        consent_state_at(ops, j) == consent_state_at(ops, i),
    decreases j - i,
{
    if i < j {
        lemma_consent_pending_stable(ops, i, j - 1);
    }
}

/// No interleaving: when request `a` enters a free bridge at step `i` and
/// the next decision of the trace comes at step `j`, that decision is
/// delivered to `a` — never to a request that arrived in between.
pub proof fn lemma_consent_no_interleaving(
    ops: Seq<ConsentOp>,
    i: int,
    j: int,
    a: TicketView,
    d: bool,
)
    requires
        0 <= i < j < ops.len(),
        ops[i] == ConsentOp::Begin(a),
        consent_state_at(ops, i) is None,
        forall|k: int| i < k < j ==> !(#[trigger] ops[k] is Decide),
        ops[j] == ConsentOp::Decide(d),
    ensures
        consent_delivery_at(ops, j) == Some((a, d)),
{
    assert(consent_state_at(ops, i + 1) == Some(a));
    lemma_consent_pending_stable(ops, i + 1, j);
}

/// Serialization: two requests can both enter the bridge only with a
/// decision between them; the second blocks until the first is resolved.
pub proof fn lemma_consent_serialized(ops: Seq<ConsentOp>, i: int, j: int, a: TicketView, b: TicketView)
    requires
        0 <= i < j < ops.len(),
        ops[i] == ConsentOp::Begin(a),
        consent_state_at(ops, i) is None,
        ops[j] == ConsentOp::Begin(b),
        consent_state_at(ops, j) is None,
    ensures
        exists|k: int| i < k < j && #[trigger] ops[k] is Decide,
{
    if forall|k: int| i < k < j ==> !(#[trigger] ops[k] is Decide) {
        assert(consent_state_at(ops, i + 1) == Some(a));
        lemma_consent_pending_stable(ops, i + 1, j);
    }
}

/// The serialized wait for one human decision. The runner keeps one bridge
/// per protocol behind a mutual-exclusion lock and holds that lock from
/// `begin` to `decide`.
#[derive(Debug)]
pub struct ConsentBridge {
    pending: Option<ContactTicket>,
}

impl View for ConsentBridge {
    type V = Option<TicketView>;

    closed spec fn view(&self) -> Option<TicketView> {
        match self.pending {
            Option::Some(t) => Some(t@),
            Option::None => None,
        }
    }
}

impl ConsentBridge {
    /// A fresh bridge with no request waiting.
    pub fn new() -> (b: ConsentBridge)
        ensures
            b@ is None,
    {
        ConsentBridge { pending: None }
    }

    /// A request enters its publish-then-await window. Fails, returning
    /// the request to the caller, when another request is already waiting:
    /// the caller must block until the bridge is free.
    pub fn begin(&mut self, request: ContactTicket) -> (r: Result<(), ContactTicket>)
        ensures
            final(self)@ == consent_next(old(self)@, ConsentOp::Begin(request@)),
            r is Ok <==> old(self)@ is None,
            r matches Err(t) ==> t@ == request@ && final(self)@ == old(self)@,
    {
        if self.pending.is_some() {
            return Err(request);
        }
        self.pending = Some(request);
        Ok(())
    }

    /// A decision arrives: it resolves exactly the waiting request, and
    /// the window closes. Returns nothing when no request waits (the
    /// decision is dropped, never saved for a later request).
    pub fn decide(&mut self, decision: bool) -> (r: Option<(ContactTicket, bool)>)
        ensures
            final(self)@ == consent_next(old(self)@, ConsentOp::Decide(decision)),
            match r {
                Option::Some(p) => consent_delivery(old(self)@, ConsentOp::Decide(decision))
                    == Some((p.0@, p.1)),
                Option::None => consent_delivery(old(self)@, ConsentOp::Decide(decision)) is None,
            },
    {
        let prev = self.pending.take();
        match prev {
            Option::Some(t) => Some((t, decision)),
            Option::None => None,
        }
    }
}

} // verus!
