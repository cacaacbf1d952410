//! Injecting browser-originated input into the seat.

use crate::compositor::tracking::contains;
use crate::geometry::{Point, SurfaceId};
use crate::protocol::messages::{InputEvent, Press};
use vstd::prelude::*;

verus! {

/// What the seat is told, one step at a time, always about one surface.
#[derive(Debug, Clone, Copy, PartialEq, Eq)]
pub enum SeatStep {
    /// Point at a pixel of the streamed image. The client is owed a point in its
    /// own surface, which differs by wherever the image was cut from; how far the
    /// pointer came from where it was goes along as relative motion, where it
    /// moved at all.
    PointTo { position: Point },
    /// Move the pointer by this much, and say so as relative motion too.
    MoveBy { dx: u64, dy: u64 },
    /// Relative motion alone: the pointer is locked and stays where it is.
    Relative { dx: u64, dy: u64 },
    /// Take the pointer's focus, at the place it already has.
    TakePointer,
    /// A pointer button.
    Button { button: u32, state: Press },
    /// A wheel, in pixels: both the continuous value and the notches.
    Scroll { dx: u64, dy: u64 },
    /// A key, by its xkb code.
    Key { code: u32, state: Press },
    /// The end of a group of pointer steps.
    Frame,
}

/// What the distance is between an evdev code and an xkb one.
pub const XKB_OFFSET: u32 = 8;

/// Whether a key event says nothing new: the key is already where it says.
pub open spec fn is_repeat(down: bool, state: Press) -> bool {
    down == (state == Press::Down)
}

/// What an event tells the seat.
///
/// `locked` is whether the surface holds an active pointer lock, `focused`
/// whether the pointer's focus is already on the surface, and `pressed` the xkb
/// codes of the keys that are down.
pub open spec fn seat_steps(
    event: InputEvent,
    locked: bool,
    focused: bool,
    pressed: Seq<u32>,
) -> Seq<SeatStep> {
    match event {
        InputEvent::PointerMotion { position, .. } => seq![
            SeatStep::PointTo { position },
            SeatStep::Frame,
        ],
        InputEvent::PointerMotionRelative { dx, dy } => if locked {
            seq![SeatStep::Relative { dx, dy }, SeatStep::Frame]
        } else {
            seq![SeatStep::MoveBy { dx, dy }, SeatStep::Frame]
        },
        InputEvent::PointerButton { button, state } => seq![
            SeatStep::Button { button, state },
            SeatStep::Frame,
        ],
        InputEvent::PointerScroll { dx, dy, .. } => if focused {
            seq![SeatStep::Scroll { dx, dy }, SeatStep::Frame]
        } else {
            seq![SeatStep::TakePointer, SeatStep::Scroll { dx, dy }, SeatStep::Frame]
        },
        InputEvent::Key { keycode, state } => {
            let code = (keycode + XKB_OFFSET) as u32;
            if is_repeat(pressed.contains(code), state) {
                seq![]
            } else {
                seq![SeatStep::Key { code, state }]
            }
        },
    }
}

/// What one browser-originated input event tells the seat.
///
/// A key is only passed on when it actually changes. xkb counts a modifier's
/// presses, so a second press of a key already held would leave the modifier set
/// after the matching release, with no pressed key left to show for it. Such
/// duplicates are ordinary: the browser auto-repeats a held key.
///
/// A wheel has no surface of its own: it goes wherever the pointer's focus is,
/// so the focus is taken first where it is elsewhere.
pub fn inject_input(event: InputEvent, locked: bool, focused: bool, pressed: &Vec<u32>) -> (steps:
    Vec<SeatStep>)
    requires
        event matches InputEvent::Key { keycode, .. } ==> keycode <= u32::MAX - XKB_OFFSET,
    ensures
        steps@ == seat_steps(event, locked, focused, pressed@),
{
    let mut steps: Vec<SeatStep> = Vec::new();
    match event {
        InputEvent::PointerMotion { id: _, position } => {
            steps.push(SeatStep::PointTo { position });
            steps.push(SeatStep::Frame);
        },
        InputEvent::PointerMotionRelative { dx, dy } => {
            if locked {
                steps.push(SeatStep::Relative { dx, dy });
            } else {
                steps.push(SeatStep::MoveBy { dx, dy });
            }
            steps.push(SeatStep::Frame);
        },
        InputEvent::PointerButton { button, state } => {
            steps.push(SeatStep::Button { button, state });
            steps.push(SeatStep::Frame);
        },
        InputEvent::Key { keycode, state } => {
            let code: u32 = keycode + XKB_OFFSET;
            if contains(pressed, code) != (state == Press::Down) {
                steps.push(SeatStep::Key { code, state });
            }
        },
        InputEvent::PointerScroll { id: _, dx, dy } => {
            if !focused {
                steps.push(SeatStep::TakePointer);
            }
            steps.push(SeatStep::Scroll { dx, dy });
            steps.push(SeatStep::Frame);
        },
    }
    assert(steps@ =~= seat_steps(event, locked, focused, pressed@));
    steps
}

/// A key event: an xkb code and whether it goes down.
pub struct KeyEvent {
    pub code: u32,
    pub state: Press,
}

/// The keys that are down after a key event.
pub open spec fn pressed_after(pressed: Set<u32>, event: KeyEvent) -> Set<u32> {
    if event.state == Press::Down {
        pressed.insert(event.code)
    } else {
        pressed.remove(event.code)
    }
}

/// How often a key was passed on as pressed more than as released, over a run of
/// events of which the repeats are left out.
pub open spec fn held_count(pressed: Set<u32>, events: Seq<KeyEvent>, code: u32) -> int
    decreases events.len(),
{
    if events.len() == 0 {
        0
    } else {
        let event = events[0];
        let repeat = is_repeat(pressed.contains(event.code), event.state);
        let here: int = if repeat || event.code != code {
            0
        } else if event.state == Press::Down {
            1
        } else {
            -1
        };
        here + held_count(pressed_after(pressed, event), events.drop_first(), code)
    }
}

/// The keys that are down after a run of events.
pub open spec fn pressed_after_all(pressed: Set<u32>, events: Seq<KeyEvent>) -> Set<u32>
    decreases events.len(),
{
    if events.len() == 0 {
        pressed
    } else {
        pressed_after_all(pressed_after(pressed, events[0]), events.drop_first())
    }
}

/// Presses never pile up: whatever the browser repeats, every key has been
/// pressed exactly once more than released where it is down, and exactly as
/// often where it is up. So no modifier can be left on.
pub proof fn presses_never_pile_up(pressed: Set<u32>, events: Seq<KeyEvent>, code: u32)
    ensures
        held_count(pressed, events, code) == (if pressed_after_all(pressed, events).contains(code) {
            1int
        } else {
            0
        }) - (if pressed.contains(code) {
            1int
        } else {
            0
        }),
    decreases events.len(),
{
    if events.len() > 0 {
        presses_never_pile_up(pressed_after(pressed, events[0]), events.drop_first(), code);
    }
}

/// The keys that are down once the seat has taken these steps.
pub open spec fn typed(pressed: Set<u32>, steps: Seq<SeatStep>) -> Set<u32>
    decreases steps.len(),
{
    if steps.len() == 0 {
        pressed
    } else {
        let before = typed(pressed, steps.drop_last());
        match steps.last() {
            SeatStep::Key { code, state } => pressed_after(before, KeyEvent { code, state }),
            _ => before,
        }
    }
}

/// A key event leaves its own key where it says, under the code that xkb counts
/// eight above the kernel's, and moves no other; the seat is told only where
/// that changes anything.
pub proof fn a_key_event_moves_its_own_key(
    keycode: u32,
    state: Press,
    locked: bool,
    focused: bool,
    pressed: Seq<u32>,
    other: u32,
)
    requires
        keycode <= u32::MAX - 8,
    ensures
        ({
            let steps = seat_steps(InputEvent::Key { keycode, state }, locked, focused, pressed);
            let after = typed(pressed.to_set(), steps);
            let code = (keycode + 8) as u32;
            &&& after.contains(code) <==> state == Press::Down
            &&& other != code ==> after.contains(other) == pressed.contains(other)
            &&& steps.len() == 0 <==> pressed.contains(code) == (state == Press::Down)
            &&& steps.len() <= 1
        }),
{
    let steps = seat_steps(InputEvent::Key { keycode, state }, locked, focused, pressed);
    reveal_with_fuel(typed, 2);
    if steps.len() > 0 {
        assert(steps.drop_last() =~= Seq::empty());
    }
}

/// Is this a step that ends a group of pointer steps, the last of its list and
/// the only one of its kind there?
pub open spec fn ends_with_a_frame(steps: Seq<SeatStep>) -> bool {
    &&& steps.len() > 0
    &&& steps.last() == SeatStep::Frame
    &&& forall|i: int| 0 <= i < steps.len() - 1 ==> #[trigger] steps[i] != SeatStep::Frame
}

/// What the pointer does reaches the seat as it happened: a motion points where
/// it says, a button is that button in that state, a wheel turns as far as it
/// says and takes the pointer's focus first where that is elsewhere; each ends
/// its group and moves no key. Motion without a place moves the pointer, unless
/// the pointer is locked, which leaves it where it is.
pub proof fn the_pointer_reaches_the_seat_as_it_moved(
    id: SurfaceId,
    position: Point,
    button: u32,
    state: Press,
    dx: u64,
    dy: u64,
    locked: bool,
    focused: bool,
    pressed: Seq<u32>,
)
    ensures
        ({
            let motion = seat_steps(
                InputEvent::PointerMotion { id, position },
                locked,
                focused,
                pressed,
            );
            let press = seat_steps(
                InputEvent::PointerButton { button, state },
                locked,
                focused,
                pressed,
            );
            let wheel = seat_steps(
                InputEvent::PointerScroll { id, dx, dy },
                locked,
                focused,
                pressed,
            );
            let drift = seat_steps(
                InputEvent::PointerMotionRelative { dx, dy },
                locked,
                focused,
                pressed,
            );
            &&& ends_with_a_frame(motion) && motion.len() == 2 && motion[0] == (SeatStep::PointTo {
                position,
            })
            &&& ends_with_a_frame(press) && press.len() == 2 && press[0] == (SeatStep::Button {
                button,
                state,
            })
            &&& ends_with_a_frame(wheel) && wheel[wheel.len() - 2] == (SeatStep::Scroll { dx, dy })
            &&& wheel.contains(SeatStep::TakePointer) <==> !focused
            &&& !focused ==> wheel[0] == SeatStep::TakePointer && wheel.len() == 3
            &&& focused ==> wheel.len() == 2
            &&& ends_with_a_frame(drift) && drift.len() == 2
            &&& locked ==> drift[0] == (SeatStep::Relative { dx, dy })
            &&& !locked ==> drift[0] == (SeatStep::MoveBy { dx, dy })
        }),
{
    let wheel = seat_steps(InputEvent::PointerScroll { id, dx, dy }, locked, focused, pressed);
    if !focused {
        assert(wheel[0] == SeatStep::TakePointer);
    } else {
        assert(wheel[0] == (SeatStep::Scroll { dx, dy }));
        assert(wheel[1] == SeatStep::Frame);
    }
}

} // verus!
