//! Opening the socket, and what goes over it on the page's own account.

use crate::browser::keyboard::{
    connecting_releases_every_modifier, plugged_in, release_modifiers, seat,
};
use crate::browser::keymap::{modifier_codes, Modifier, MODIFIERS};
use crate::browser::scene::{
    focus_effect, focus_message, nothing, perform, Effect, EffectView,
};
use crate::geometry::Size;
use crate::protocol::messages::{
    ClientMessage, ClientMessageView, ServerMessage, ServerMessageView,
};
use crate::text::same;
use std::collections::HashMap;
use vstd::prelude::*;

verus! {

broadcast use vstd::std_specs::hash::group_hash_axioms;

/// Path the protocol socket is served on, proxied to the backend by whatever is
/// serving the page.
pub const BACKEND_PATH: &'static str = "/ws";

/// How often a hidden surface's frames are acked, in microseconds. Minimized
/// windows and windows on other workspaces are throttled to an idle pace, which
/// keeps their clients from drawing what nobody sees.
pub const HIDDEN_INTERVAL: u64 = 500_000;

/// Where the page was loaded from, as far as it will say.
#[derive(Debug)]
pub struct Location {
    pub protocol: Option<String>,
    pub host: Option<String>,
}

/// The protocol socket's URL, given where the page was loaded from.
pub open spec fn socket_url(location: Option<(Option<Seq<char>>, Option<Seq<char>>)>) -> Seq<char> {
    match location {
        None => "ws://127.0.0.1:9001"@ + "/ws"@,
        Some((protocol, host)) => {
            let scheme = if protocol == Some("https:"@) {
                "wss"@
            } else {
                "ws"@
            };
            let authority = match host {
                Some(name) => name,
                None => "127.0.0.1:3030"@,
            };
            scheme + "://"@ + authority + "/ws"@
        },
    }
}

/// The protocol socket's URL, on the same origin as the page.
///
/// Derived rather than hardcoded so the page works wherever it is served from: a
/// hardcoded loopback is the viewer's own once the browser is on another machine,
/// and `wss` is required on an https page.
pub fn backend(location: &Option<Location>) -> (url: String)
    ensures
        url@ == socket_url(
            match location {
                Some(from) => Some((from.protocol.deep_view(), from.host.deep_view())),
                None => None,
            },
        ),
{
    match location {
        None => {
            let mut url = "ws://127.0.0.1:9001".to_string();
            url.append(BACKEND_PATH);
            url
        },
        Some(from) => {
            let secure = match &from.protocol {
                Some(scheme) => same(scheme.as_str(), "https:"),
                None => false,
            };
            let mut url = if secure {
                "wss".to_string()
            } else {
                "ws".to_string()
            };
            url.append("://");
            match &from.host {
                Some(name) => url.append(name.as_str()),
                None => url.append("127.0.0.1:3030"),
            }
            url.append(BACKEND_PATH);
            url
        },
    }
}

/// What the page tells the compositor first.
pub open spec fn greeting(size: Option<Size>) -> Seq<EffectView> {
    let asks = seq![EffectView::Send(ClientMessageView::RequestKeyframe)] + plugged_in(
        MODIFIERS as int,
    );
    match size {
        Some(wanted) => seq![EffectView::Send(ClientMessageView::Resize { size: wanted })] + asks,
        None => asks,
    }
}

/// Say how big the display is before asking for anything to put on it, so the
/// first frame arrives at the right size rather than at a guess. Frames carry
/// only what changed, so a mid-stream joiner needs one full surface to patch
/// into. And this keyboard holds nothing, which the seat cannot know.
pub fn opened(size: Option<Size>) -> (effects: Vec<Effect>)
    ensures
        effects.deep_view() == greeting(size),
{
    let mut effects = nothing();
    if let Some(wanted) = size {
        perform(&mut effects, Effect::Send(ClientMessage::Resize { size: wanted }));
    }
    perform(&mut effects, Effect::Send(ClientMessage::RequestKeyframe));
    let ghost first = effects.deep_view();
    let mut rest = release_modifiers();
    let ghost more = rest.deep_view();
    effects.append(&mut rest);
    assert(effects.deep_view() =~= first + more);
    assert(effects.deep_view() =~= greeting(size));
    effects
}

/// When frames of hidden surfaces were last acked, in microseconds.
pub struct HiddenAcks {
    last: HashMap<u64, u64>,
}

impl View for HiddenAcks {
    type V = Map<u64, u64>;

    closed spec fn view(&self) -> Map<u64, u64> {
        self.last@
    }
}

/// Whether a presented frame is acked, and what is remembered of it.
pub open spec fn acked(last: Map<u64, u64>, id: u64, visible: bool, now: u64) -> (
    bool,
    Map<u64, u64>,
) {
    if visible {
        (true, last.remove(id))
    } else {
        let before = if last.dom().contains(id) {
            last[id]
        } else {
            0
        };
        if now - before >= HIDDEN_INTERVAL {
            (true, last.insert(id, now))
        } else {
            (false, last)
        }
    }
}

impl HiddenAcks {
    /// Nothing was hidden yet.
    pub fn new() -> (acks: Self)
        ensures
            acks@ == Map::<u64, u64>::empty(),
    {
        HiddenAcks { last: HashMap::new() }
    }

    /// A frame of a surface is on screen, or would be were the surface not
    /// hidden: is it acked? A visible one always is.
    ///
    /// Acks are sent when a frame is on screen, not when one comes off the wire:
    /// the browser drives the frame clock, and it cannot do that by acking work
    /// it has not done.
    pub fn presented(&mut self, id: u64, visible: bool, now: u64) -> (ack: bool)
        ensures
            (ack, final(self)@) == acked(old(self)@, id, visible, now),
    {
        if visible {
            self.last.remove(&id);
            return true;
        }
        let before: u64 = match self.last.get(&id) {
            Some(at) => *at,
            None => 0,
        };
        if now >= before && now - before >= HIDDEN_INTERVAL {
            self.last.insert(id, now);
            return true;
        }
        false
    }
}

/// What the page does about a message before the scene sees it.
#[derive(Debug)]
pub enum Incoming {
    /// Hand the chunk to the player. Audio belongs to the page, not to the
    /// scene: no window owns it and nothing about it is drawn.
    Play(Vec<u8>),
    /// Hand the message to the scene, having done this first; where it is a
    /// frame, show the latency afterwards.
    Scene(ServerMessage, Vec<Effect>, bool),
}

/// A window of its own that has just opened takes the seat.
pub open spec fn arrival(message: ServerMessageView) -> Seq<EffectView> {
    match message {
        ServerMessageView::SurfaceCreated(created) => if created.parent is None {
            seq![focus_message(created.id.0)]
        } else {
            Seq::empty()
        },
        _ => Seq::empty(),
    }
}

/// Route a message from the compositor.
pub fn incoming(message: ServerMessage) -> (route: Incoming)
    ensures
        match route {
            Incoming::Play(payload) => message.deep_view() == (ServerMessageView::Audio {
                payload: payload@,
            }),
            Incoming::Scene(same, effects, is_frame) => message !is Audio && same == message
                && effects.deep_view() == arrival(message.deep_view()) && is_frame
                == message is SurfaceFrame,
        },
{
    let mut effects = nothing();
    let mut is_frame = false;
    match &message {
        ServerMessage::SurfaceCreated(created) => {
            if created.parent.is_none() {
                perform(&mut effects, focus_effect(created.id.0));
                assert(effects.deep_view() =~= arrival(message.deep_view()));
            }
        },
        ServerMessage::SurfaceFrame(_) => {
            is_frame = true;
        },
        _ => {},
    }
    match message {
        ServerMessage::Audio { payload } => Incoming::Play(payload),
        other => Incoming::Scene(other, effects, is_frame),
    }
}

/// A hidden surface is acked no more often than the idle pace: between two acks
/// of it at least the interval has passed. A visible surface is always acked.
pub proof fn hidden_surfaces_are_throttled(last: Map<u64, u64>, id: u64, first: u64, now: u64)
    requires
        acked(last, id, false, first).0,
        acked(acked(last, id, false, first).1, id, false, now).0,
    ensures
        now - first >= HIDDEN_INTERVAL,
        acked(last, id, true, now).0,
{
}

/// Showing or hiding one surface does not change the pace of another.
pub proof fn surfaces_are_throttled_apart(
    last: Map<u64, u64>,
    id: u64,
    other: u64,
    visible: bool,
    now: u64,
    later: u64,
)
    requires
        id != other,
    ensures
        acked(acked(last, id, visible, now).1, other, false, later).0 == acked(
            last,
            other,
            false,
            later,
        ).0,
{
}

/// The socket is on the page's own origin: the page's own host, and encrypted
/// exactly where the page is.
pub proof fn the_socket_is_on_the_pages_origin(protocol: Option<Seq<char>>, host: Seq<char>)
    ensures
        protocol == Some("https:"@) ==> socket_url(Some((protocol, Some(host)))) == "wss"@ + "://"@
            + host + "/ws"@,
        protocol != Some("https:"@) ==> socket_url(Some((protocol, Some(host)))) == "ws"@ + "://"@
            + host + "/ws"@,
{
}

/// A page says how big it is before it asks for anything to put there, asks for
/// everything once, and leaves no modifier held.
pub proof fn a_page_greets_in_order(size: Size, down: Set<u32>, modifier: Modifier, code: u32)
    requires
        modifier_codes(modifier).contains(code),
    ensures
        greeting(Some(size))[0] == EffectView::Send(ClientMessageView::Resize { size }),
        greeting(Some(size))[1] == EffectView::Send(ClientMessageView::RequestKeyframe),
        greeting(None)[0] == EffectView::Send(ClientMessageView::RequestKeyframe),
        greeting(Some(size)).skip(1) == greeting(None),
        greeting(None).skip(1) == plugged_in(MODIFIERS as int),
        !seat(down, greeting(None).skip(1)).contains(code),
{
    assert(greeting(Some(size)).skip(1) =~= greeting(None));
    assert(greeting(None).skip(1) =~= plugged_in(MODIFIERS as int));
    connecting_releases_every_modifier(down, modifier, code);
}

/// A hidden surface is acked again once the interval is over, so that it does not
/// stand still for good; showing it acks it at once and forgets that it was
/// hidden.
pub proof fn a_hidden_surface_is_not_forgotten(last: Map<u64, u64>, id: u64, now: u64, later: u64)
    requires
        acked(last, id, false, now).0,
        later >= now + 500_000,
    ensures
        acked(acked(last, id, false, now).1, id, false, later).0,
        acked(last, id, true, now) == (true, last.remove(id)),
{
}

/// A window that opens takes the seat, by its own id; a popup does not, and
/// nothing else does.
pub proof fn a_window_that_opens_takes_the_seat(message: ServerMessageView)
    ensures
        message matches ServerMessageView::SurfaceCreated(created) ==> (if created.parent is None {
            arrival(message) == seq![
                EffectView::Send(ClientMessageView::Focus { id: created.id }),
            ]
        } else {
            arrival(message).len() == 0
        }),
        message !is SurfaceCreated ==> arrival(message).len() == 0,
{
}

/// Sound is played and everything else reaches the scene as it came; the latency is
/// shown behind frames and nothing else.
pub proof fn a_message_goes_where_it_belongs(message: ServerMessage, route: Incoming)
    requires
        call_ensures(incoming, (message,), route),
    ensures
        message is Audio <==> route is Play,
        route matches Incoming::Play(payload) ==> message matches ServerMessage::Audio {
            payload: sound,
        } && sound@ == payload@,
        route matches Incoming::Scene(same, _, is_frame) ==> same == message && (is_frame
            <==> message is SurfaceFrame),
{
}

} // verus!
