//! Pointer input while the browser still routes it, and the wheel.
//!
//! The shell forwards what landed on a canvas and leaves its own chrome to the
//! page. Every motion and every turn of the wheel names its surface, because the
//! window under the cursor is not always the focused one.

use crate::browser::keymap::{button_code, evdev_button};
use crate::browser::scene::{
    button_effect, button_message, nothing, perform, Effect, EffectView, WindowState, WindowView,
};
use crate::geometry::{Point, SurfaceId};
use crate::protocol::messages::{ClientMessage, ClientMessageView, InputEvent, Press};
use vstd::prelude::*;

verus! {

/// A motion over a surface.
pub open spec fn motion_message(id: u64, position: Point) -> EffectView {
    EffectView::Send(
        ClientMessageView::Input(InputEvent::PointerMotion { id: SurfaceId(id), position }),
    )
}

/// What moving over a canvas sends, where it has a surface and a place on it.
pub open spec fn hovered(surface: Option<u64>, position: Option<Point>) -> Seq<EffectView> {
    match (surface, position) {
        (Some(id), Some(place)) => seq![motion_message(id, place)],
        _ => Seq::empty(),
    }
}

/// The pointer moved over a canvas.
pub fn hover(surface: Option<u64>, position: Option<Point>) -> (effects: Vec<Effect>)
    ensures
        effects.deep_view() == hovered(surface, position),
{
    let mut effects = nothing();
    if let Some(id) = surface {
        if let Some(place) = position {
            perform(
                &mut effects,
                Effect::Send(
                    ClientMessage::Input(
                        InputEvent::PointerMotion { id: SurfaceId(id), position: place },
                    ),
                ),
            );
        }
    }
    assert(effects.deep_view() =~= hovered(surface, position));
    effects
}

/// What forwarding a button does: a press is timed.
pub open spec fn button_forwarded(button: i16, press: Press) -> Seq<EffectView> {
    match button_code(button) {
        Some(code) => if press == Press::Down {
            seq![EffectView::InputSent, button_message(code, press)]
        } else {
            seq![button_message(code, press)]
        },
        None => Seq::empty(),
    }
}

/// Forward a button to the client the pointer is over.
pub fn forward_button(button: i16, press: Press) -> (effects: Vec<Effect>)
    ensures
        effects.deep_view() == button_forwarded(button, press),
{
    let mut effects = nothing();
    if let Some(code) = evdev_button(button) {
        if press == Press::Down {
            perform(&mut effects, Effect::InputSent);
        }
        perform(&mut effects, button_effect(code, press));
    }
    assert(effects.deep_view() =~= button_forwarded(button, press));
    effects
}

/// Does a client hold the pointer for its own camera?
pub open spec fn grabbed(windows: Seq<WindowView>) -> bool {
    exists|i: int|
        0 <= i < windows.len() && (#[trigger] windows[i]).pointer_locked && !windows[i].minimized
}

/// Is a client holding the pointer for its own camera?
pub fn grabbed_by_client(windows: &Vec<WindowState>) -> (held: bool)
    ensures
        held == grabbed(windows.deep_view()),
{
    let ghost all = windows.deep_view();
    let mut i: usize = 0;
    while i < windows.len()
        invariant
            all == windows.deep_view(),
            i <= windows@.len(),
            forall|j: int|
                0 <= j < i ==> !((#[trigger] all[j]).pointer_locked && !all[j].minimized),
        decreases windows@.len() - i,
    {
        assert(all[i as int] == windows@[i as int].deep_view());
        if windows[i].pointer_locked && !windows[i].minimized {
            return true;
        }
        i += 1;
    }
    false
}

/// Who a mouse button belongs to.
#[derive(Debug, Clone, Copy, PartialEq, Eq, Structural)]
pub enum ButtonRoute {
    /// The client, as it is.
    Client,
    /// The shell, which hit-tests it against the virtual cursor.
    Shell,
    /// Neither: the page's own elements see it.
    Page,
}

/// Who a mouse button belongs to. With the pointer locked, a client that holds
/// it for its own camera gets the button raw; nothing of the shell is reachable
/// while it does. Unlocked, what landed on a canvas is the client's.
pub fn route_button(locked: bool, windows: &Vec<WindowState>, on_canvas: bool) -> (route:
    ButtonRoute)
    ensures
        route == (if locked {
            if grabbed(windows.deep_view()) {
                ButtonRoute::Client
            } else {
                ButtonRoute::Shell
            }
        } else if on_canvas {
            ButtonRoute::Client
        } else {
            ButtonRoute::Page
        }),
{
    if locked {
        if grabbed_by_client(windows) {
            ButtonRoute::Client
        } else {
            ButtonRoute::Shell
        }
    } else if on_canvas {
        ButtonRoute::Client
    } else {
        ButtonRoute::Page
    }
}

/// What turning the wheel over a surface sends. The page must not scroll as well.
pub open spec fn scrolled(surface: Option<u64>, dx: u64, dy: u64) -> Seq<EffectView> {
    match surface {
        Some(id) => seq![
            EffectView::PreventDefault,
            EffectView::Send(
                ClientMessageView::Input(
                    InputEvent::PointerScroll { id: SurfaceId(id), dx, dy },
                ),
            ),
        ],
        None => Seq::empty(),
    }
}

/// The wheel was turned over a surface, by this many pixels.
pub fn scroll(surface: Option<u64>, dx: u64, dy: u64) -> (effects: Vec<Effect>)
    ensures
        effects.deep_view() == scrolled(surface, dx, dy),
{
    let mut effects = nothing();
    if let Some(id) = surface {
        perform(&mut effects, Effect::PreventDefault);
        perform(
            &mut effects,
            Effect::Send(
                ClientMessage::Input(InputEvent::PointerScroll { id: SurfaceId(id), dx, dy }),
            ),
        );
    }
    assert(effects.deep_view() =~= scrolled(surface, dx, dy));
    effects
}

/// How many pixels one unit of a wheel event stands for. Browsers report pixels,
/// lines or pages; a line is about one line of text, a page about a screen of
/// them.
pub fn wheel_scale(mode: u32) -> (pixels: u32)
    ensures
        pixels == (if mode == 1 {
            16
        } else if mode == 2 {
            400
        } else {
            1int
        }),
{
    if mode == 1 {
        16
    } else if mode == 2 {
        400
    } else {
        1
    }
}

/// Moving over a surface sends one motion, that surface's, to that place; off
/// every surface nothing is sent.
pub proof fn a_motion_names_its_surface(id: u64, place: Point)
    ensures
        hovered(Some(id), Some(place)) == seq![
            EffectView::Send(
                ClientMessageView::Input(
                    InputEvent::PointerMotion { id: SurfaceId(id), position: place },
                ),
            ),
        ],
        hovered(None, Some(place)).len() == 0,
        hovered(Some(id), None).len() == 0,
{
}

/// The buttons that are down at the compositor once it has taken these effects.
pub open spec fn buttons(down: Set<u32>, effects: Seq<EffectView>) -> Set<u32>
    decreases effects.len(),
{
    if effects.len() == 0 {
        down
    } else {
        let before = buttons(down, effects.drop_last());
        match effects.last() {
            EffectView::Send(
                ClientMessageView::Input(InputEvent::PointerButton { button, state }),
            ) => {
                if state == Press::Down {
                    before.insert(button)
                } else {
                    before.remove(button)
                }
            },
            _ => before,
        }
    }
}

/// A button that is forwarded is down at the client exactly where it was pressed,
/// and no other moves; left, right and middle stay what they are, and no two of
/// them are the same. Only a press is timed.
pub proof fn a_button_is_forwarded_as_it_happened(
    button: i16,
    press: Press,
    down: Set<u32>,
    other: u32,
)
    ensures
        0 <= button <= 2 ==> button_code(button) is Some && ({
            let code = button_code(button)->0;
            let after = buttons(down, button_forwarded(button, press));
            &&& after.contains(code) <==> press == Press::Down
            &&& other != code ==> after.contains(other) == down.contains(other)
        }),
        !(0 <= button <= 2) ==> button_forwarded(button, press).len() == 0,
        button_forwarded(button, press).contains(EffectView::InputSent) <==> 0 <= button <= 2
            && press == Press::Down,
        forall|one: i16, two: i16|
            one != two && #[trigger] button_code(one) is Some ==> button_code(one)
                != #[trigger] button_code(two),
{
    let effects = button_forwarded(button, press);
    reveal_with_fuel(buttons, 3);
    if 0 <= button <= 2 {
        if press == Press::Down {
            assert(effects[0] == EffectView::InputSent);
            assert(effects.drop_last().last() == EffectView::InputSent);
        } else {
            assert(effects.len() == 1);
            assert(effects[0] != EffectView::InputSent);
        }
    }
}

/// The wheel turns the surface it is over, as far as it was turned each way, and
/// the page does not scroll as well; over none it is the page's.
pub proof fn the_wheel_turns_what_it_is_over(id: u64, dx: u64, dy: u64)
    ensures
        scrolled(Some(id), dx, dy).len() == 2,
        scrolled(Some(id), dx, dy)[0] == EffectView::PreventDefault,
        scrolled(Some(id), dx, dy)[1] == EffectView::Send(
            ClientMessageView::Input(InputEvent::PointerScroll { id: SurfaceId(id), dx, dy }),
        ),
        scrolled(None, dx, dy).len() == 0,
{
}

/// A client holds the pointer as long as one of the windows it is locked to can
/// be seen.
pub proof fn a_hidden_window_holds_nothing(windows: Seq<WindowView>, i: int)
    requires
        0 <= i < windows.len(),
    ensures
        windows[i].pointer_locked && !windows[i].minimized ==> grabbed(windows),
        (forall|j: int|
            0 <= j < windows.len() ==> !(#[trigger] windows[j]).pointer_locked
                || windows[j].minimized) ==> !grabbed(windows),
{
}

/// Who a button belongs to depends on the lock: locked, on whether a client holds
/// the pointer, wherever it landed; otherwise on where it landed, whoever holds
/// the pointer.
pub proof fn a_button_has_one_owner(
    locked: bool,
    windows: &Vec<WindowState>,
    on_canvas: bool,
    route: ButtonRoute,
)
    requires
        call_ensures(route_button, (locked, windows, on_canvas), route),
    ensures
        route == ButtonRoute::Client <==> (locked && grabbed(windows.deep_view())) || (!locked
            && on_canvas),
        route == ButtonRoute::Shell <==> locked && !grabbed(windows.deep_view()),
        route == ButtonRoute::Page <==> !locked && !on_canvas,
{
}

/// A line is as many pixels as a line of text, a page as many as a screen of
/// them, and a pixel is one.
pub proof fn a_page_is_more_than_a_line(mode: u32, pixels: u32)
    requires
        call_ensures(wheel_scale, (mode,), pixels),
    ensures
        mode == 0 ==> pixels == 1,
        mode == 1 ==> pixels == 16,
        mode == 2 ==> pixels == 400,
{
}

} // verus!
