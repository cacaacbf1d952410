//! Per-connection frame pacing, per surface.
//!
//! The browser acks every presented frame; the server sends only while it has
//! credit, and while out of credit it keeps just the newest frame for that
//! surface. In-flight depth is therefore bounded and each client's rate tracks
//! the browser's actual presentation rate rather than running ahead into a
//! growing queue.
//!
//! Everything is keyed by surface. A single pending slot shared by the whole
//! desktop looks right with one window and quietly starves every window but one
//! as soon as there are two.

use crate::protocol::messages::{ClientMessage, ServerMessage};
use std::collections::HashMap;
use vstd::prelude::*;

verus! {

broadcast use vstd::std_specs::hash::group_hash_axioms;

/// How many frames may be in flight to a browser before it must ack. Small, so
/// latency stays low; more than one, so the pipeline does not stall on a single
/// round trip.
pub const INITIAL_CREDIT: i32 = 2;

/// What is left to one connection, surface by surface.
#[derive(Debug)]
pub struct Pacer {
    credit: HashMap<u64, i32>,
    pending: HashMap<u64, ServerMessage>,
}

/// What a [`Pacer`] holds.
#[verifier::ext_equal]
pub struct PacerView {
    pub credit: Map<u64, i32>,
    pub pending: Map<u64, ServerMessage>,
}

/// The surface that a message is a frame of.
pub open spec fn frame_of(message: ServerMessage) -> Option<u64> {
    match message {
        ServerMessage::SurfaceFrame(frame) => Some(frame.id.0),
        _ => None,
    }
}

impl PacerView {
    /// The credit of a surface, which is the initial one until it is spent.
    pub open spec fn credit_of(self, id: u64) -> int {
        if self.credit.contains_key(id) {
            self.credit[id] as int
        } else {
            INITIAL_CREDIT as int
        }
    }

    /// The frame a surface has waiting.
    pub open spec fn waiting(self, id: u64) -> Option<ServerMessage> {
        if self.pending.contains_key(id) {
            Some(self.pending[id])
        } else {
            None
        }
    }

    /// What always holds: no credit is negative, and only a surface without
    /// credit has a frame waiting, which is one of its own.
    pub open spec fn valid(self) -> bool {
        &&& forall|id: u64| #[trigger] self.credit.contains_key(id) ==> self.credit[id] >= 0
        &&& forall|id: u64| #[trigger]
            self.pending.contains_key(id) ==> self.credit_of(id) == 0 && frame_of(
                self.pending[id],
            ) == Some(id)
    }

    /// What is sent when a message arrives: everything but a frame, and a frame
    /// where there is credit for it.
    pub open spec fn sends(self, message: ServerMessage) -> Option<ServerMessage> {
        match frame_of(message) {
            None => Some(message),
            Some(id) => if self.credit_of(id) > 0 {
                Some(message)
            } else {
                None
            },
        }
    }

    /// What is left once a message has arrived.
    pub open spec fn after_frame(self, message: ServerMessage) -> PacerView {
        match frame_of(message) {
            None => self,
            Some(id) => if self.credit_of(id) > 0 {
                PacerView { credit: self.credit.insert(id, (self.credit_of(id) - 1) as i32), ..self }
            } else {
                PacerView {
                    credit: self.credit.insert(id, self.credit_of(id) as i32),
                    pending: self.pending.insert(id, message),
                }
            },
        }
    }

    /// What is left once a frame of a surface has been presented.
    pub open spec fn after_ack(self, id: u64) -> PacerView {
        PacerView {
            credit: self.credit.insert(
                id,
                (if self.pending.contains_key(id) {
                    self.credit_of(id)
                } else {
                    self.credit_of(id) + 1
                }) as i32,
            ),
            pending: self.pending.remove(id),
        }
    }
}

impl Pacer {
    pub closed spec fn view(&self) -> PacerView {
        PacerView { credit: self.credit@, pending: self.pending@ }
    }

    /// A connection that has been sent nothing yet.
    pub fn new() -> (pacer: Self)
        ensures
            pacer@ == (PacerView { credit: Map::empty(), pending: Map::empty() }),
            pacer@.valid(),
    {
        Pacer { credit: HashMap::new(), pending: HashMap::new() }
    }

    /// The credit a surface has left.
    pub fn credit(&self, id: u64) -> (credit: i32)
        ensures
            credit == self@.credit_of(id),
    {
        match self.credit.get(&id) {
            Some(credit) => *credit,
            None => INITIAL_CREDIT,
        }
    }

    /// A frame arrived from the compositor; returns what to send now, if any.
    ///
    /// Only frames are paced. Announcements, titles and destructions are small,
    /// rare, and useless late: a held title is a window captioned with a
    /// placeholder for as long as it stays still.
    pub fn on_frame(&mut self, message: ServerMessage) -> (out: Option<ServerMessage>)
        requires
            old(self)@.valid(),
        ensures
            out == old(self)@.sends(message),
            final(self)@ == old(self)@.after_frame(message),
            final(self)@.valid(),
    {
        let id: u64 = match &message {
            ServerMessage::SurfaceFrame(frame) => frame.id.0,
            _ => {
                return Some(message);
            },
        };
        let credit: i32 = self.credit(id);
        if credit > 0 {
            self.credit.insert(id, credit - 1);
            Some(message)
        } else {
            self.credit.insert(id, credit);
            // Drop this surface's stale frame, keep its newest.
            self.pending.insert(id, message);
            None
        }
    }

    /// The browser presented a frame of `id`; returns the next one to send.
    pub fn on_ack(&mut self, id: u64) -> (out: Option<ServerMessage>)
        requires
            old(self)@.valid(),
            old(self)@.credit_of(id) < i32::MAX,
        ensures
            out == old(self)@.waiting(id),
            final(self)@ == old(self)@.after_ack(id),
            final(self)@.valid(),
    {
        let credit: i32 = self.credit(id);
        let next = self.pending.remove(&id);
        if next.is_some() {
            self.credit.insert(id, credit);
        } else {
            self.credit.insert(id, credit + 1);
        }
        next
    }
}

/// Something that happens on a connection.
pub enum PacerEvent {
    /// A message arrives from the compositor.
    Message(ServerMessage),
    /// The browser presented a frame of this surface.
    Ack(u64),
}

impl PacerView {
    /// What is left after one event.
    pub open spec fn after(self, event: PacerEvent) -> PacerView {
        match event {
            PacerEvent::Message(message) => self.after_frame(message),
            PacerEvent::Ack(id) => self.after_ack(id),
        }
    }

    /// What is sent on one event.
    pub open spec fn sent(self, event: PacerEvent) -> Option<ServerMessage> {
        match event {
            PacerEvent::Message(message) => self.sends(message),
            PacerEvent::Ack(id) => self.waiting(id),
        }
    }

    /// What is left after a run of events.
    pub open spec fn after_all(self, events: Seq<PacerEvent>) -> PacerView
        decreases events.len(),
    {
        if events.len() == 0 {
            self
        } else {
            self.after(events[0]).after_all(events.drop_first())
        }
    }

    /// How many frames of a surface are sent over a run of events, less how many
    /// the browser presents: how many more are in flight.
    pub open spec fn in_flight(self, events: Seq<PacerEvent>, id: u64) -> int
        decreases events.len(),
    {
        if events.len() == 0 {
            0
        } else {
            let sent: int = match self.sent(events[0]) {
                Some(message) => if frame_of(message) == Some(id) {
                    1
                } else {
                    0
                },
                None => 0,
            };
            let presented: int = if events[0] == PacerEvent::Ack(id) {
                1
            } else {
                0
            };
            sent - presented + self.after(events[0]).in_flight(events.drop_first(), id)
        }
    }

    /// No credit ever overflows over a run of events.
    pub open spec fn stays_small(self, events: Seq<PacerEvent>) -> bool
        decreases events.len(),
    {
        events.len() > 0 ==> {
            &&& events[0] matches PacerEvent::Ack(id) ==> self.credit_of(id) < i32::MAX
            &&& self.after(events[0]).stays_small(events.drop_first())
        }
    }
}

/// The frames in flight are bounded: over any run of events, what is in flight
/// and what credit is left always add up to what credit there was. A browser
/// that acknowledges only what it was sent never has more than the initial
/// credit on its way.
pub proof fn frames_in_flight_are_bounded(pacer: PacerView, events: Seq<PacerEvent>, id: u64)
    requires
        pacer.valid(),
        pacer.stays_small(events),
    ensures
        pacer.in_flight(events, id) + pacer.after_all(events).credit_of(id) == pacer.credit_of(id),
        pacer.after_all(events).valid(),
        pacer.in_flight(events, id) <= pacer.credit_of(id),
    decreases events.len(),
{
    if events.len() > 0 {
        let next = pacer.after(events[0]);
        pacer_stays_valid(pacer, events[0]);
        frames_in_flight_are_bounded(next, events.drop_first(), id);
    }
}

proof fn pacer_stays_valid(pacer: PacerView, event: PacerEvent)
    requires
        pacer.valid(),
        event matches PacerEvent::Ack(id) ==> pacer.credit_of(id) < i32::MAX,
    ensures
        pacer.after(event).valid(),
{
}

/// While a surface is out of credit only its newest frame is kept, and the next
/// ack sends exactly that one.
pub proof fn the_newest_frame_is_kept(pacer: PacerView, message: ServerMessage, id: u64)
    requires
        pacer.valid(),
        frame_of(message) == Some(id),
        pacer.credit_of(id) == 0,
    ensures
        pacer.sends(message) is None,
        pacer.after_frame(message).waiting(id) == Some(message),
{
}

/// No surface spends another's credit, nor overwrites what another has waiting.
pub proof fn surfaces_are_independent(pacer: PacerView, event: PacerEvent, other: u64)
    requires
        match event {
            PacerEvent::Message(message) => frame_of(message) != Some(other),
            PacerEvent::Ack(id) => id != other,
        },
    ensures
        pacer.after(event).credit_of(other) == pacer.credit_of(other),
        pacer.after(event).waiting(other) == pacer.waiting(other),
{
}

/// Whatever is no frame goes out at once, and changes nothing.
pub proof fn announcements_bypass_the_pacer(pacer: PacerView, message: ServerMessage)
    requires
        frame_of(message) is None,
    ensures
        pacer.sends(message) == Some(message),
        pacer.after_frame(message) == pacer,
{
}

impl Pacer {
    /// The browser sent something. Everything goes on to the compositor as it is;
    /// an ack also releases the frame its surface has waiting, which is returned.
    pub fn on_client(&mut self, message: &ClientMessage) -> (out: Option<ServerMessage>)
        requires
            old(self)@.valid(),
            message matches ClientMessage::FramePresented { id } ==> old(self)@.credit_of(id.0)
                < i32::MAX,
        ensures
            final(self)@.valid(),
            match message {
                ClientMessage::FramePresented { id } => {
                    &&& out == old(self)@.waiting(id.0)
                    &&& final(self)@ == old(self)@.after_ack(id.0)
                },
                _ => out is None && final(self)@ == old(self)@,
            },
    {
        match message {
            ClientMessage::FramePresented { id } => self.on_ack(id.0),
            _ => None,
        }
    }
}

/// A frame of a surface that has credit goes out at once and costs one; while
/// there is none, frames wait and cost nothing.
pub proof fn a_frame_with_credit_goes_out_at_once(
    pacer: PacerView,
    message: ServerMessage,
    id: u64,
)
    requires
        pacer.valid(),
        frame_of(message) == Some(id),
    ensures
        pacer.credit_of(id) > 0 ==> pacer.sends(message) == Some(message) && pacer.after_frame(
            message,
        ).credit_of(id) == pacer.credit_of(id) - 1 && pacer.after_frame(message).waiting(id)
            == pacer.waiting(id),
        pacer.credit_of(id) == 0 ==> pacer.after_frame(message).credit_of(id) == 0,
{
}

/// An ack sends the frame that waits, if one does, and nothing waits any more; if
/// none does, it is one more frame's worth of credit.
pub proof fn an_ack_releases_what_waits(pacer: PacerView, message: ServerMessage, id: u64)
    requires
        pacer.valid(),
        frame_of(message) == Some(id),
        pacer.credit_of(id) == 0,
    ensures
        ({
            let held = pacer.after_frame(message);
            &&& held.sent(PacerEvent::Ack(id)) == Some(message)
            &&& held.after_ack(id).waiting(id) is None
            &&& held.after_ack(id).credit_of(id) == 0
            &&& pacer.waiting(id) is None ==> pacer.after_ack(id).credit_of(id) == 1
        }),
{
}

/// A surface nobody has heard of may be sent its first frames without an ack.
pub proof fn a_new_surface_has_credit(pacer: PacerView, id: u64)
    requires
        !pacer.credit.contains_key(id),
    ensures
        pacer.credit_of(id) == 2,
{
}

} // verus!
