//! The media session: the two framed-streaming loops of a live call.
//!
//! The runner does the blocking reads and writes; this module holds each
//! loop's decisions. The send side turns one frame into its framed bytes.
//! The receive side is a step function over read events: a complete framed
//! payload is decoded and delivered (malformed ones are skipped, frame
//! loss being acceptable for real-time media), and a connection-level
//! failure ends the loop with exactly one hang-up signal.

use vstd::prelude::*;

use crate::framing::{encode_frame, lemma_frames_round_trip, spec_frame, spec_frames,
    spec_parse_frames};
use crate::media::{
    lemma_media_round_trip, media_bounded, spec_deserialize_media, spec_serialize_media, CallMedia,
    MediaView,
};

verus! {

/// The ghost value of one read event of a receive loop.
pub ghost enum MediaEventView {
    /// One complete framed payload, as handed over by the length-prefixed
    /// read.
    Frame(Seq<u8>),
    /// The transport failed or closed: a blocked read resolved with a
    /// connection-level error, or the stream ended inside a message.
    ConnectionLost,
}

/// One read event of a receive loop.
pub enum MediaEvent {
    Frame(Vec<u8>),
    ConnectionLost,
}

impl View for MediaEvent {
    type V = MediaEventView;

    open spec fn view(&self) -> MediaEventView {
        match *self {
            MediaEvent::Frame(ref b) => MediaEventView::Frame(b@),
            MediaEvent::ConnectionLost => MediaEventView::ConnectionLost,
        }
    }
}

/// The ghost value of what the loop does with one event.
pub ghost enum RecvActionView {
    Deliver(MediaView),
    Skip,
    HangUp,
}

/// What the loop does with one event: hand a decoded frame to the
/// consumer, skip a malformed one, or signal hang-up and stop.
#[derive(Clone, Debug, PartialEq, Eq)]
pub enum RecvAction {
    Deliver(CallMedia),
    Skip,
    HangUp,
}

impl View for RecvAction {
    type V = RecvActionView;

    open spec fn view(&self) -> RecvActionView {
        match *self {
            RecvAction::Deliver(ref m) => RecvActionView::Deliver(m@),
            RecvAction::Skip => RecvActionView::Skip,
            RecvAction::HangUp => RecvActionView::HangUp,
        }
    }
}

/// One step of the receive loop: whether it keeps running, and what it
/// emits. A loop that has ended does nothing; a running loop delivers
/// every decodable frame, skips the rest, and turns connection loss into
/// the one hang-up of its life.
pub open spec fn spec_recv_step(running: bool, ev: MediaEventView) -> (bool, RecvActionView) {
    if !running {
        (false, RecvActionView::Skip)
    } else {
        match ev {
            MediaEventView::Frame(b) => (
                true,
                match spec_deserialize_media(b) {
                    Option::Some(m) => RecvActionView::Deliver(m),
                    Option::None => RecvActionView::Skip,
                },
            ),
            MediaEventView::ConnectionLost => (false, RecvActionView::HangUp),
        }
    }
}

/// The receive loop of one direction of a call, from its start until it
/// observes connection loss.
#[derive(Debug)]
pub struct MediaReceiver {
    running: bool,
}

impl View for MediaReceiver {
    type V = bool;

    closed spec fn view(&self) -> bool {
        self.running
    }
}

impl MediaReceiver {
    /// A loop that has just started on a fresh media stream.
    pub fn new() -> (r: MediaReceiver)
        ensures
            r@ == true,
    {
        MediaReceiver { running: true }
    }

    /// Process one read event.
    pub fn step(&mut self, event: MediaEvent) -> (a: RecvAction)
        ensures
            final(self)@ == spec_recv_step(old(self)@, event@).0,
            a@ == spec_recv_step(old(self)@, event@).1,
    {
        if !self.running {
            return RecvAction::Skip;
        }
        match event {
            MediaEvent::Frame(payload) => match CallMedia::from_bytes(&payload) {
                Result::Ok(m) => RecvAction::Deliver(m),
                Result::Err(_) => RecvAction::Skip,
            },
            MediaEvent::ConnectionLost => {
                self.running = false;
                RecvAction::HangUp
            },
        }
    }
}

/// The actions of a receive loop run from its start over a trace of read
/// events: it processes frames until the connection is lost, emits the
/// hang-up, and stops.
pub open spec fn spec_recv_run(events: Seq<MediaEventView>) -> Seq<RecvActionView>
    decreases events.len(),
{
    if events.len() == 0 {
        Seq::empty()
    } else {
        match events.first() {
            MediaEventView::Frame(b) => seq![spec_recv_step(true, events.first()).1]
                + spec_recv_run(events.drop_first()),
            MediaEventView::ConnectionLost => seq![RecvActionView::HangUp],
        }
    }
}

/// How many hang-up signals a run emitted.
pub open spec fn count_hangups(actions: Seq<RecvActionView>) -> nat
    decreases actions.len(),
{
    if actions.len() == 0 {
        0
    } else {
        (if actions.first() is HangUp {
            1nat
        } else {
            0nat
        }) + count_hangups(actions.drop_first())
    }
}

/// The frames a run handed to the consumer, in order.
pub open spec fn deliveries(actions: Seq<RecvActionView>) -> Seq<MediaView>
    decreases actions.len(),
{
    if actions.len() == 0 {
        Seq::empty()
    } else {
        match actions.first() {
            RecvActionView::Deliver(m) => seq![m] + deliveries(actions.drop_first()),
            _ => deliveries(actions.drop_first()),
        }
    }
}

/// Hang-up comes exactly once: a receive loop whose trace contains a
/// connection loss terminates with a single hang-up signal, as its last
/// action; while the connection lives, no hang-up is emitted.
pub proof fn lemma_hang_up_exactly_once(events: Seq<MediaEventView>)
    ensures
        (exists|i: int| 0 <= i < events.len() && #[trigger] events[i] is ConnectionLost)
            ==> count_hangups(spec_recv_run(events)) == 1 && spec_recv_run(events).last()
            is HangUp,
        (forall|i: int| 0 <= i < events.len() ==> !(#[trigger] events[i] is ConnectionLost))
            ==> count_hangups(spec_recv_run(events)) == 0,
    decreases events.len(),
{
    if events.len() == 0 {
    } else {
        lemma_hang_up_exactly_once(events.drop_first());
        match events.first() {
            MediaEventView::Frame(b) => {
                let tail = events.drop_first();
                let run = spec_recv_run(events);
                assert(run == seq![spec_recv_step(true, events.first()).1] + spec_recv_run(tail));
                assert(!(run.first() is HangUp));
                assert(run.drop_first() =~= spec_recv_run(tail));
                if exists|i: int| 0 <= i < events.len() && #[trigger] events[i] is ConnectionLost {
                    let i = choose|i: int|
                        0 <= i < events.len() && #[trigger] events[i] is ConnectionLost;
                    assert(tail[i - 1] is ConnectionLost);
                    assert(spec_recv_run(tail).len() > 0);
                    assert(run.last() == spec_recv_run(tail).last());
                } else {
                    assert(forall|i: int|
                        0 <= i < tail.len() ==> !(#[trigger] tail[i] is ConnectionLost)) by {
                        assert(forall|i: int| 0 <= i < tail.len() ==> tail[i] == events[i + 1]);
                    }
                }
            },
            MediaEventView::ConnectionLost => {
                let run = seq![RecvActionView::HangUp];
                assert(run.drop_first() =~= Seq::<RecvActionView>::empty());
                assert(count_hangups(Seq::<RecvActionView>::empty()) == 0);
                assert(count_hangups(run) == 1);
            },
        }
    }
}

/// Frames arrive in the order they were sent: a receive loop fed the
/// serialized forms of frames `a, b, c, ...` delivers exactly `a, b, c,
/// ...`, in that order, while the connection stays open.
pub proof fn lemma_delivered_in_order(ms: Seq<MediaView>)
    requires
        forall|i: int| 0 <= i < ms.len() ==> #[trigger] media_bounded(ms[i]),
    ensures
        deliveries(
            spec_recv_run(ms.map_values(|m: MediaView| MediaEventView::Frame(spec_serialize_media(m)))),
        ) == ms,
    decreases ms.len(),
{
    let events = ms.map_values(|m: MediaView| MediaEventView::Frame(spec_serialize_media(m)));
    if ms.len() == 0 {
        assert(deliveries(spec_recv_run(events)) =~= ms);
    } else {
        lemma_media_round_trip(ms.first());
        assert(events.first() == MediaEventView::Frame(spec_serialize_media(ms.first())));
        assert(events.drop_first() =~= ms.drop_first().map_values(
            |m: MediaView| MediaEventView::Frame(spec_serialize_media(m)),
        ));
        lemma_delivered_in_order(ms.drop_first());
        let run = spec_recv_run(events);
        assert(run == seq![RecvActionView::Deliver(ms.first())] + spec_recv_run(
            events.drop_first(),
        ));
        assert(run.first() == RecvActionView::Deliver(ms.first()));
        assert(run.drop_first() =~= spec_recv_run(events.drop_first()));
        assert(deliveries(run) =~= ms);
    }
}

/// End to end over the byte stream: framing the serialized forms of
/// frames `a, b, c, ...` and parsing the stream back gives exactly those
/// payloads, and a receive loop over them delivers the frames in order.
pub proof fn lemma_stream_delivered_in_order(ms: Seq<MediaView>)
    requires
        forall|i: int| 0 <= i < ms.len() ==> #[trigger] media_bounded(ms[i]),
        forall|i: int|
            0 <= i < ms.len() ==> (#[trigger] spec_serialize_media(ms[i])).len() <= u64::MAX,
    ensures
        spec_parse_frames(spec_frames(ms.map_values(|m: MediaView| spec_serialize_media(m))))
            == Some(ms.map_values(|m: MediaView| spec_serialize_media(m))),
        deliveries(
            spec_recv_run(
                ms.map_values(|m: MediaView| spec_serialize_media(m)).map_values(
                    |b: Seq<u8>| MediaEventView::Frame(b),
                ),
            ),
        ) == ms,
{
    let payloads = ms.map_values(|m: MediaView| spec_serialize_media(m));
    assert(forall|i: int| 0 <= i < payloads.len() ==> #[trigger] payloads[i].len() <= u64::MAX);
    lemma_frames_round_trip(payloads);
    assert(payloads.map_values(|b: Seq<u8>| MediaEventView::Frame(b)) =~= ms.map_values(
        |m: MediaView| MediaEventView::Frame(spec_serialize_media(m)),
    ));
    lemma_delivered_in_order(ms);
}

/// The compute half of the send loop: one frame becomes its framed wire
/// bytes, written to the stream as one message.
pub fn encode_media_frame(m: &CallMedia) -> (r: Vec<u8>)
    ensures
        r@ == spec_frame(spec_serialize_media(m@)),
{
    let payload = m.to_bytes();
    encode_frame(&payload)
}

/// What one send attempt of the send loop came to.
#[derive(Clone, Copy, Debug, PartialEq, Eq, Structural)]
pub enum SendEvent {
    /// The framed message went out.
    Sent,
    /// The send failed because the peer tore the connection down.
    PeerClosed,
    /// The send failed for another reason.
    SendFailed,
}

/// One step of the send loop: whether it keeps running, and whether this
/// step emits the hang-up signal. Peer-driven teardown ends the loop with
/// its one hang-up; any other send failure is logged and the loop goes on.
pub open spec fn spec_send_step(running: bool, ev: SendEvent) -> (bool, bool) {
    if !running {
        (false, false)
    } else {
        match ev {
            SendEvent::PeerClosed => (false, true),
            _ => (true, false),
        }
    }
}

/// The send loop of one direction of a call: it pulls outgoing frames
/// until peer-driven teardown.
#[derive(Debug)]
pub struct MediaSender {
    running: bool,
}

impl View for MediaSender {
    type V = bool;

    closed spec fn view(&self) -> bool {
        self.running
    }
}

impl MediaSender {
    /// A loop that has just started on a fresh media stream.
    pub fn new() -> (r: MediaSender)
        ensures
            r@ == true,
    {
        MediaSender { running: true }
    }

    /// Process the outcome of one send attempt; true means this very step
    /// emits the loop's one hang-up signal.
    pub fn step(&mut self, event: SendEvent) -> (hang_up: bool)
        ensures
            final(self)@ == spec_send_step(old(self)@, event).0,
            hang_up == spec_send_step(old(self)@, event).1,
    {
        if !self.running {
            return false;
        }
        match event {
            SendEvent::PeerClosed => {
                self.running = false;
                true
            },
            SendEvent::Sent => false,
            SendEvent::SendFailed => false,
        }
    }
}

} // verus!
