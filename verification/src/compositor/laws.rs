//! What holds of a session, whatever it is asked for: where input ends up, what
//! a client has been told once everything asked of it was done, and what is
//! left on the screen.

use crate::compositor::popups::{
    ancestry_of, dismissed, focus_elsewhere_closes_every_popup, Popup,
};
use crate::compositor::session::{entries_taking, x11_window, BatchView};
use crate::compositor::state::{
    activated, activation, at_least_one, each, streamed, surface_of, visible, Action, WeblandView,
    X11Window,
};
use crate::compositor::tracking::{
    distinct, holds_id, holds_object, known_id, named_object, StreamedView,
};
use crate::geometry::{Size, SurfaceId};
use crate::protocol::messages::{ClientMessageView, InputEvent};
use vstd::prelude::*;

verus! {

/// Is an object on the screen: as a window, as an open popup, or as what an X
/// window draws into?
pub open spec fn on_screen(state: WeblandView, object: u32) -> bool {
    ||| exists|i: int| 0 <= i < state.toplevels.len() && #[trigger] state.toplevels[i] == object
    ||| exists|i: int|
        0 <= i < state.popups.len() && (#[trigger] state.popups[i]).object == object
    ||| exists|i: int|
        0 <= i < state.x11.len() && (#[trigger] state.x11[i]).surface == Some(object)
}

proof fn x11_surfaces(x11: Seq<X11Window>, object: u32)
    ensures
        each(x11, |window: X11Window| surface_of(window)).contains(object) <==> exists|i: int|
            0 <= i < x11.len() && (#[trigger] x11[i]).surface == Some(object),
    decreases x11.len(),
{
    let surface = |window: X11Window| surface_of(window);
    if x11.len() > 0 {
        let front = x11.drop_last();
        x11_surfaces(front, object);
        let head = each(front, surface);
        let tail = surface_of(x11.last());
        assert(each(x11, surface) == head + tail);
        if head.contains(object) {
            let k = choose|k: int| 0 <= k < head.len() && head[k] == object;
            assert((head + tail)[k] == object);
            let i = choose|i: int|
                0 <= i < front.len() && (#[trigger] front[i]).surface == Some(object);
            assert(x11[i].surface == Some(object));
        } else if x11.last().surface == Some(object) {
            assert((head + tail)[head.len() as int] == object);
            assert(x11[x11.len() - 1].surface == Some(object));
        } else {
            assert forall|i: int| 0 <= i < x11.len() implies (#[trigger] x11[i]).surface != Some(
                object,
            ) by {
                if i < front.len() {
                    assert(front[i].surface != Some(object));
                }
            }
            assert forall|k: int| 0 <= k < (head + tail).len() implies (head + tail)[k]
                != object by {
                if k < head.len() {
                    assert(head[k] != object);
                }
            }
        }
    }
}

/// The browser is shown everything that is on the screen and nothing else, the
/// windows before anything that opens over them.
pub proof fn everything_on_the_screen_is_streamed(state: WeblandView, object: u32)
    ensures
        streamed(state.toplevels, state.popups, state.x11).contains(object) <==> on_screen(
            state,
            object,
        ),
        state.toplevels.is_prefix_of(streamed(state.toplevels, state.popups, state.x11)),
{
    let menus = state.popups.map_values(|popup: Popup| popup.object);
    let others = each(state.x11, |window: X11Window| surface_of(window));
    let all = streamed(state.toplevels, state.popups, state.x11);
    let n = state.toplevels.len();
    let m = menus.len();
    assert(all == state.toplevels + menus + others);
    assert(all.take(n as int) =~= state.toplevels);
    x11_surfaces(state.x11, object);
    if all.contains(object) {
        let k = choose|k: int| 0 <= k < all.len() && all[k] == object;
        if k < n {
            assert(state.toplevels[k] == object);
        } else if k < n + m {
            assert(menus[k - n] == object);
            assert(state.popups[k - n].object == object);
        } else {
            assert(others[k - n - m] == object);
        }
    }
    if exists|i: int| 0 <= i < n && #[trigger] state.toplevels[i] == object {
        let i = choose|i: int| 0 <= i < n && #[trigger] state.toplevels[i] == object;
        assert(all[i] == object);
    }
    if exists|i: int| 0 <= i < state.popups.len() && (#[trigger] state.popups[i]).object == object {
        let i = choose|i: int|
            0 <= i < state.popups.len() && (#[trigger] state.popups[i]).object == object;
        assert(menus[i] == object);
        assert(all[n + i] == object);
    }
    if others.contains(object) {
        let i = choose|i: int| 0 <= i < others.len() && others[i] == object;
        assert(all[n + m + i] == object);
    }
}

/// An entry's id names its object, and its object goes by that id; an id that no
/// entry has names nothing.
pub proof fn an_entry_is_found_by_its_id(entries: Seq<StreamedView>, next: u64, i: int)
    requires
        distinct(entries, next),
        0 <= i < entries.len(),
    ensures
        named_object(entries, entries[i].id) == Some(entries[i].object),
        known_id(entries, entries[i].object) == Some(entries[i].id),
        forall|id: SurfaceId|
            (forall|j: int| 0 <= j < entries.len() ==> (#[trigger] entries[j]).id != id)
                ==> #[trigger] named_object(entries, id) is None,
{
    let id = entries[i].id;
    let object = entries[i].object;
    assert(holds_id(entries, id, i));
    assert(holds_object(entries, object, i));
    let j = choose|j: int| holds_id(entries, id, j);
    let k = choose|k: int| holds_object(entries, object, k);
    assert(entries[j].id == entries[i].id);
    assert(entries[k].object == entries[i].object);
    assert(j == i);
    assert(k == i);
}

proof fn unnamed(entries: Seq<StreamedView>, id: SurfaceId)
    requires
        forall|j: int| 0 <= j < entries.len() ==> (#[trigger] entries[j]).id != id,
    ensures
        named_object(entries, id) is None,
{
}

/// Where an event belongs. The pointer follows the cursor: a motion and a wheel
/// belong to the surface they name, where the browser's id for it is known and
/// it is on the screen, and otherwise nowhere. Everything else belongs to the
/// target.
pub open spec fn belongs_to(
    state: WeblandView,
    entries: Seq<StreamedView>,
    target: Option<u32>,
    event: InputEvent,
    place: Option<u32>,
) -> bool {
    match event {
        InputEvent::PointerMotion { id, .. } => stands_for(state, entries, id, place),
        InputEvent::PointerScroll { id, .. } => stands_for(state, entries, id, place),
        InputEvent::PointerMotionRelative { .. } => place == target,
        InputEvent::PointerButton { .. } => place == target,
        InputEvent::Key { .. } => place == target,
    }
}

/// Does an id stand for this object on the screen, or for none at all?
pub open spec fn stands_for(
    state: WeblandView,
    entries: Seq<StreamedView>,
    id: SurfaceId,
    place: Option<u32>,
) -> bool {
    match place {
        Some(object) => on_screen(state, object) && exists|i: int|
            0 <= i < entries.len() && (#[trigger] entries[i]).id == id && entries[i].object
                == object,
        None => forall|i: int|
            0 <= i < entries.len() && (#[trigger] entries[i]).id == id ==> !on_screen(
                state,
                entries[i].object,
            ),
    }
}

/// An event that belongs to a surface is put into the seat there, exactly once
/// and as it is; one that belongs nowhere is not put in at all.
pub proof fn an_event_reaches_the_surface_it_belongs_to(
    state: WeblandView,
    entries: Seq<StreamedView>,
    next: u64,
    target: Option<u32>,
    event: InputEvent,
    place: Option<u32>,
)
    requires
        distinct(entries, next),
        belongs_to(state, entries, target, event, place),
    ensures
        match place {
            Some(object) => state.deliver(entries, target, event) == seq![
                Action::Inject { object, event },
            ],
            None => state.deliver(entries, target, event).len() == 0,
        },
{
    let named = match event {
        InputEvent::PointerMotion { id, .. } => Some(id),
        InputEvent::PointerScroll { id, .. } => Some(id),
        _ => None,
    };
    if let Some(id) = named {
        if let Some(object) = place {
            let i = choose|i: int|
                0 <= i < entries.len() && (#[trigger] entries[i]).id == id && entries[i].object
                    == object;
            an_entry_is_found_by_its_id(entries, next, i);
            everything_on_the_screen_is_streamed(state, object);
        } else if exists|i: int| 0 <= i < entries.len() && (#[trigger] entries[i]).id == id {
            let i = choose|i: int| 0 <= i < entries.len() && (#[trigger] entries[i]).id == id;
            an_entry_is_found_by_its_id(entries, next, i);
            everything_on_the_screen_is_streamed(state, entries[i].object);
        } else {
            unnamed(entries, id);
        }
    }
}

/// Input goes to the surface the browser raised, as long as that is on the
/// screen. Otherwise it goes to something that is, the first window before
/// anything else; only an empty screen leaves it with nowhere to go.
pub proof fn input_goes_to_what_was_raised(
    state: WeblandView,
    entries: Seq<StreamedView>,
    next: u64,
    i: int,
)
    requires
        distinct(entries, next),
    ensures
        0 <= i < entries.len() && state.focus == Some(entries[i].id) && on_screen(
            state,
            entries[i].object,
        ) ==> state.target(entries) == Some(entries[i].object),
        state.target(entries) matches Some(object) ==> on_screen(state, object),
        state.target(entries) is None ==> forall|object: u32| !on_screen(state, object),
        state.focus is None && state.toplevels.len() > 0 ==> state.target(entries) == Some(
            state.toplevels[0],
        ),
{
    let all = streamed(state.toplevels, state.popups, state.x11);
    if 0 <= i < entries.len() {
        an_entry_is_found_by_its_id(entries, next, i);
        everything_on_the_screen_is_streamed(state, entries[i].object);
    }
    if let Some(object) = state.target(entries) {
        if all.len() > 0 {
            assert(all.contains(all[0]));
        }
        everything_on_the_screen_is_streamed(state, object);
    } else {
        assert forall|object: u32| !on_screen(state, object) by {
            everything_on_the_screen_is_streamed(state, object);
        }
    }
    everything_on_the_screen_is_streamed(state, 0);
    if state.toplevels.len() > 0 {
        assert(all[0] == state.toplevels[0]);
    }
}

/// What actions put into the seat, each event with its surface, in order.
pub open spec fn injected(actions: Seq<Action>) -> Seq<(u32, InputEvent)>
    decreases actions.len(),
{
    if actions.len() == 0 {
        Seq::empty()
    } else {
        let before = injected(actions.drop_last());
        match actions.last() {
            Action::Inject { object, event } => before.push((object, event)),
            _ => before,
        }
    }
}

/// Which surface has the keyboard once actions are done.
pub open spec fn keyboard_after(keyboard: Option<u32>, actions: Seq<Action>) -> Option<u32>
    decreases actions.len(),
{
    if actions.len() == 0 {
        keyboard
    } else {
        match actions.last() {
            Action::FocusKeyboard { object } => Some(object),
            _ => keyboard_after(keyboard, actions.drop_last()),
        }
    }
}

proof fn injected_splits(one: Seq<Action>, other: Seq<Action>)
    ensures
        injected(one + other) == injected(one) + injected(other),
    decreases other.len(),
{
    if other.len() == 0 {
        assert(one + other =~= one);
        assert(injected(one) + injected(other) =~= injected(one));
    } else {
        injected_splits(one, other.drop_last());
        assert((one + other).drop_last() =~= one + other.drop_last());
        assert((one + other).last() == other.last());
        assert(injected(one + other) =~= injected(one) + injected(other));
    }
}

proof fn keyboard_splits(keyboard: Option<u32>, one: Seq<Action>, other: Seq<Action>)
    ensures
        keyboard_after(keyboard, one + other) == keyboard_after(
            keyboard_after(keyboard, one),
            other,
        ),
    decreases other.len(),
{
    if other.len() == 0 {
        assert(one + other =~= one);
    } else {
        keyboard_splits(keyboard, one, other.drop_last());
        assert((one + other).drop_last() =~= one + other.drop_last());
        assert((one + other).last() == other.last());
    }
}

/// Does nothing for the seat.
spec fn leaves_the_seat(actions: Seq<Action>) -> bool {
    forall|i: int|
        0 <= i < actions.len() ==> !(#[trigger] actions[i] is Inject) && !(actions[i] is
            FocusKeyboard)
}

proof fn nothing_for_the_seat(actions: Seq<Action>, keyboard: Option<u32>)
    requires
        leaves_the_seat(actions),
    ensures
        injected(actions).len() == 0,
        keyboard_after(keyboard, actions) == keyboard,
    decreases actions.len(),
{
    if actions.len() > 0 {
        let front = actions.drop_last();
        assert forall|i: int| 0 <= i < front.len() implies !(#[trigger] front[i] is Inject) && !(
        front[i] is FocusKeyboard) by {
            assert(front[i] == actions[i]);
        }
        assert(actions.last() == actions[actions.len() - 1]);
        nothing_for_the_seat(front, keyboard);
    }
}

proof fn each_leaves_the_seat<T>(items: Seq<T>, step: spec_fn(T) -> Seq<Action>)
    requires
        forall|item: T| leaves_the_seat(#[trigger] step(item)),
    ensures
        leaves_the_seat(each(items, step)),
    decreases items.len(),
{
    if items.len() > 0 {
        each_leaves_the_seat(items.drop_last(), step);
        let head = each(items.drop_last(), step);
        let tail = step(items.last());
        assert(leaves_the_seat(tail));
        assert forall|i: int| 0 <= i < (head + tail).len() implies !(#[trigger] (head + tail)[i]
            is Inject) && !((head + tail)[i] is FocusKeyboard) by {
            if i < head.len() {
                assert((head + tail)[i] == head[i]);
            } else {
                assert((head + tail)[i] == tail[i - head.len()]);
            }
        }
    }
}

/// Delivering gives nobody the keyboard.
proof fn deliveries_keep_the_keyboard(
    state: WeblandView,
    entries: Seq<StreamedView>,
    target: Option<u32>,
    events: Seq<InputEvent>,
    keyboard: Option<u32>,
)
    ensures
        keyboard_after(
            keyboard,
            each(events, |event: InputEvent| state.deliver(entries, target, event)),
        ) == keyboard,
    decreases events.len(),
{
    let step = |event: InputEvent| state.deliver(entries, target, event);
    if events.len() > 0 {
        deliveries_keep_the_keyboard(state, entries, target, events.drop_last(), keyboard);
        let tail = step(events.last());
        keyboard_splits(keyboard, each(events.drop_last(), step), tail);
        assert(keyboard_after(keyboard, tail) == keyboard) by {
            reveal_with_fuel(keyboard_after, 2);
        }
    }
}

/// Giving the target the focus changes nothing that is on the screen.
proof fn adopting_keeps_the_screen(state: WeblandView, entries: Seq<StreamedView>, object: u32)
    ensures
        on_screen(state.adopted(entries), object) <==> on_screen(state, object),
{
    let after = state.adopted(entries);
    assert(after.toplevels == state.toplevels && after.popups == state.popups);
    assert(after.x11.len() == state.x11.len());
    assert(forall|i: int|
        0 <= i < state.x11.len() ==> (#[trigger] after.x11[i]).surface == state.x11[i].surface);
    if exists|i: int| 0 <= i < state.x11.len() && (#[trigger] state.x11[i]).surface == Some(object) {
        let i = choose|i: int|
            0 <= i < state.x11.len() && (#[trigger] state.x11[i]).surface == Some(object);
        assert(after.x11[i].surface == Some(object));
    }
}

/// One more event is one more delivery, after all the others, and changes none
/// of them: nothing is lost, doubled or put out of order.
pub proof fn one_more_event_is_one_more_delivery(
    state: WeblandView,
    entries: Seq<StreamedView>,
    next: u64,
    events: Seq<InputEvent>,
    event: InputEvent,
    keyboard: Option<u32>,
    place: Option<u32>,
)
    requires
        distinct(entries, next),
        belongs_to(state, entries, state.target(entries), event, place),
    ensures
        injected(state.input(entries, Seq::empty(), keyboard)).len() == 0,
        injected(state.input(entries, events.push(event), keyboard)) == (match place {
            Some(object) => injected(state.input(entries, events, keyboard)).push((object, event)),
            None => injected(state.input(entries, events, keyboard)),
        }),
{
    let target = state.target(entries);
    let after = state.adopted(entries);
    let step = |event: InputEvent| after.deliver(entries, target, event);
    let more = events.push(event);
    assert(more.drop_last() =~= events);
    assert(belongs_to(after, entries, target, event, place)) by {
        assert forall|object: u32| on_screen(after, object) <==> on_screen(state, object) by {
            adopting_keeps_the_screen(state, entries, object);
        }
    }
    an_event_reaches_the_surface_it_belongs_to(after, entries, next, target, event, place);
    injected_of_input(state, entries, Seq::empty(), keyboard);
    injected_of_input(state, entries, events, keyboard);
    injected_of_input(state, entries, more, keyboard);
    injected_splits(each(events, step), step(event));
    assert(each(more, step) == each(events, step) + step(event));
    assert(injected(step(event)) =~= (match place {
        Some(object) => seq![(object, event)],
        None => Seq::empty(),
    })) by {
        reveal_with_fuel(injected, 2);
    }
    assert(injected(each(more, step)) =~= (match place {
        Some(object) => injected(each(events, step)).push((object, event)),
        None => injected(each(events, step)),
    }));
}

/// Only the deliveries put anything into the seat.
proof fn injected_of_input(
    state: WeblandView,
    entries: Seq<StreamedView>,
    events: Seq<InputEvent>,
    keyboard: Option<u32>,
)
    ensures
        injected(state.input(entries, events, keyboard)) == injected(
            each(
                events,
                |event: InputEvent|
                    state.adopted(entries).deliver(entries, state.target(entries), event),
            ),
        ),
{
    let target = state.target(entries);
    let tell = |window: X11Window| activation(window, target);
    let step = |event: InputEvent| state.adopted(entries).deliver(entries, target, event);
    each_leaves_the_seat(state.x11, tell);
    let adopt = if state.adopts(entries) {
        each(state.x11, tell)
    } else {
        seq![]
    };
    let focus = if events.len() > 0 && target is Some && keyboard != target {
        seq![Action::FocusKeyboard { object: target->0 }]
    } else {
        seq![]
    };
    nothing_for_the_seat(adopt, keyboard);
    assert(injected(focus).len() == 0) by {
        reveal_with_fuel(injected, 2);
    }
    injected_splits(adopt, focus);
    injected_splits(adopt + focus, each(events, step));
    assert(state.input(entries, events, keyboard) == adopt + focus + each(events, step));
    assert(injected(adopt + focus) + injected(each(events, step)) =~= injected(each(events, step)));
}

/// The keyboard is with the target by the time the first event goes in and stays
/// there; without events it is left where it was.
pub proof fn the_keyboard_is_with_the_target(
    state: WeblandView,
    entries: Seq<StreamedView>,
    events: Seq<InputEvent>,
    keyboard: Option<u32>,
)
    ensures
        ({
            let actions = state.input(entries, events, keyboard);
            let target = state.target(entries);
            &&& events.len() > 0 && target is Some ==> keyboard_after(keyboard, actions) == target
            &&& events.len() == 0 || target is None ==> keyboard_after(keyboard, actions)
                == keyboard
            &&& forall|m: int, n: int|
                0 <= m < n < actions.len() && #[trigger] actions[m] is Inject ==> !(
                #[trigger] actions[n] is FocusKeyboard)
        }),
{
    let actions = state.input(entries, events, keyboard);
    let target = state.target(entries);
    let after = state.adopted(entries);
    let tell = |window: X11Window| activation(window, target);
    let step = |event: InputEvent| after.deliver(entries, target, event);
    each_leaves_the_seat(state.x11, tell);
    let adopt = if state.adopts(entries) {
        each(state.x11, tell)
    } else {
        seq![]
    };
    let focus = if events.len() > 0 && target is Some && keyboard != target {
        seq![Action::FocusKeyboard { object: target->0 }]
    } else {
        seq![]
    };
    let rest = each(events, step);
    assert(actions == adopt + focus + rest);
    nothing_for_the_seat(adopt, keyboard);
    keyboard_splits(keyboard, adopt, focus);
    let held = keyboard_after(keyboard, adopt + focus);
    assert(held == keyboard_after(keyboard, focus));
    assert(held == (if events.len() > 0 && target is Some {
        target
    } else {
        keyboard
    })) by {
        reveal_with_fuel(keyboard_after, 2);
    }
    keyboard_splits(keyboard, adopt + focus, rest);
    deliveries_keep_the_keyboard(after, entries, target, events, held);
    only_injects(after, entries, target, events);
    assert forall|m: int, n: int|
        0 <= m < n < actions.len() && #[trigger] actions[m] is Inject implies !(
    #[trigger] actions[n] is FocusKeyboard) by {
        if m < adopt.len() {
            assert(actions[m] == adopt[m]);
        } else if m < (adopt + focus).len() {
            assert(actions[m] == focus[m - adopt.len()]);
        } else {
            assert(actions[n] == rest[n - (adopt + focus).len()]);
        }
    }
}

/// Is every action one that puts an event into the seat?
spec fn puts_in_events(actions: Seq<Action>) -> bool {
    forall|i: int| 0 <= i < actions.len() ==> #[trigger] actions[i] is Inject
}

proof fn only_injects(
    state: WeblandView,
    entries: Seq<StreamedView>,
    target: Option<u32>,
    events: Seq<InputEvent>,
)
    ensures
        puts_in_events(each(events, |event: InputEvent| state.deliver(entries, target, event))),
    decreases events.len(),
{
    let step = |event: InputEvent| state.deliver(entries, target, event);
    if events.len() > 0 {
        only_injects(state, entries, target, events.drop_last());
        let head = each(events.drop_last(), step);
        let tail = step(events.last());
        assert forall|i: int| 0 <= i < (head + tail).len() implies #[trigger] (head + tail)[i]
            is Inject by {
            if i < head.len() {
                assert((head + tail)[i] == head[i]);
            } else {
                assert((head + tail)[i] == tail[i - head.len()]);
            }
        }
    }
}

/// Where nobody has the focus and something known is on the screen, settling
/// input gives it to the surface that the input goes to.
pub proof fn input_gives_a_lone_target_the_focus(
    state: WeblandView,
    entries: Seq<StreamedView>,
    next: u64,
    i: int,
)
    requires
        distinct(entries, next),
        0 <= i < entries.len(),
        state.target(entries) == Some(entries[i].object),
    ensures
        state.focus is None ==> state.adopted(entries).focus == Some(entries[i].id),
        state.focus is Some ==> state.adopted(entries) == state,
{
    an_entry_is_found_by_its_id(entries, next, i);
}

/// What a window of a Wayland client goes by.
pub struct Told {
    /// The size it is to take; none leaves it to the client.
    pub size: Option<(i32, i32)>,
    pub maximized: bool,
}

/// What a window goes by once actions are done.
pub open spec fn told(window: Told, object: u32, actions: Seq<Action>) -> Told
    decreases actions.len(),
{
    if actions.len() == 0 {
        window
    } else {
        let before = told(window, object, actions.drop_last());
        match actions.last() {
            Action::ConfigureToplevel { object: named, size, maximized } => if named == object {
                Told {
                    size,
                    maximized: match maximized {
                        Some(on) => on,
                        None => before.maximized,
                    },
                }
            } else {
                before
            },
            _ => before,
        }
    }
}

/// The size an X window is at once actions are done.
pub open spec fn placed(size: (i32, i32), window: u32, actions: Seq<Action>) -> (i32, i32)
    decreases actions.len(),
{
    if actions.len() == 0 {
        size
    } else {
        let before = placed(size, window, actions.drop_last());
        match actions.last() {
            Action::ConfigureX11 { window: named, size } => if named == window {
                size
            } else {
                before
            },
            _ => before,
        }
    }
}

/// The size of the output once actions are done.
pub open spec fn output(size: (i32, i32), actions: Seq<Action>) -> (i32, i32)
    decreases actions.len(),
{
    if actions.len() == 0 {
        size
    } else {
        match actions.last() {
            Action::SetOutputMode { size } => size,
            _ => output(size, actions.drop_last()),
        }
    }
}

proof fn told_splits(window: Told, object: u32, one: Seq<Action>, other: Seq<Action>)
    ensures
        told(window, object, one + other) == told(told(window, object, one), object, other),
    decreases other.len(),
{
    if other.len() == 0 {
        assert(one + other =~= one);
    } else {
        told_splits(window, object, one, other.drop_last());
        assert((one + other).drop_last() =~= one + other.drop_last());
        assert((one + other).last() == other.last());
    }
}

proof fn placed_splits(size: (i32, i32), window: u32, one: Seq<Action>, other: Seq<Action>)
    ensures
        placed(size, window, one + other) == placed(placed(size, window, one), window, other),
    decreases other.len(),
{
    if other.len() == 0 {
        assert(one + other =~= one);
    } else {
        placed_splits(size, window, one, other.drop_last());
        assert((one + other).drop_last() =~= one + other.drop_last());
        assert((one + other).last() == other.last());
    }
}

proof fn output_splits(size: (i32, i32), one: Seq<Action>, other: Seq<Action>)
    ensures
        output(size, one + other) == output(output(size, one), other),
    decreases other.len(),
{
    if other.len() == 0 {
        assert(one + other =~= one);
    } else {
        output_splits(size, one, other.drop_last());
        assert((one + other).drop_last() =~= one + other.drop_last());
        assert((one + other).last() == other.last());
    }
}

/// A size that clients can be configured at as it is.
pub open spec fn configurable(size: Size) -> bool {
    1 <= size.width <= i32::MAX && 1 <= size.height <= i32::MAX
}

/// A size in the pixels that clients are configured in.
pub open spec fn pixels(size: Size) -> (i32, i32) {
    (size.width as i32, size.height as i32)
}

/// Maximizing a window to a size gives it that size and the state; restoring it
/// takes the state off and leaves the size to the client, whatever it went by
/// before. No other window hears of either.
pub proof fn maximizing_sets_the_state_and_restoring_takes_it_off(
    state: WeblandView,
    entries: Seq<StreamedView>,
    next: u64,
    i: int,
    size: Size,
    window: Told,
    other: u32,
)
    requires
        distinct(entries, next),
        0 <= i < entries.len(),
        state.toplevels.contains(entries[i].object),
        configurable(size),
    ensures
        ({
            let id = entries[i].id;
            let object = entries[i].object;
            let on = state.maximize(entries, id, Some(size));
            let off = state.maximize(entries, id, None);
            &&& told(window, object, on) == (Told { size: Some(pixels(size)), maximized: true })
            &&& told(window, object, off) == (Told { size: None, maximized: false })
            &&& told(window, object, on + off) == (Told { size: None, maximized: false })
            &&& other != object ==> told(window, other, on) == window && told(window, other, off)
                == window
            &&& on.len() == 1 && off.len() == 1
        }),
{
    an_entry_is_found_by_its_id(entries, next, i);
    reveal_with_fuel(told, 2);
    let object = entries[i].object;
    let on = state.maximize(entries, entries[i].id, Some(size));
    let off = state.maximize(entries, entries[i].id, None);
    told_splits(window, object, on, off);
    assert(size.width as i32 == size.width && size.height as i32 == size.height);
}

/// Letting go of a resize grip gives a window the size it was dragged to, at
/// least one pixel each way, and takes the maximized state off: a window dragged
/// to a size of its own is not maximized any more.
pub proof fn a_dragged_window_takes_its_size(
    state: WeblandView,
    entries: Seq<StreamedView>,
    next: u64,
    i: int,
    size: Size,
    window: Told,
    other: u32,
)
    requires
        distinct(entries, next),
        0 <= i < entries.len(),
        state.toplevels.contains(entries[i].object),
        size.width <= i32::MAX && size.height <= i32::MAX,
    ensures
        ({
            let object = entries[i].object;
            let actions = state.resize(entries, entries[i].id, size);
            let after = told(window, object, actions);
            &&& !after.maximized
            &&& after.size matches Some((width, height))
            &&& width >= 1 && height >= 1
            &&& size.width >= 1 ==> width == size.width
            &&& size.height >= 1 ==> height == size.height
            &&& other != object ==> told(window, other, actions) == window
            &&& actions.len() == 1
        }),
{
    an_entry_is_found_by_its_id(entries, next, i);
    reveal_with_fuel(told, 2);
}

/// Does an X window draw into a surface, and no window before it?
pub open spec fn draws_into(x11: Seq<X11Window>, k: int, object: u32) -> bool {
    &&& 0 <= k < x11.len()
    &&& x11[k].surface == Some(object)
    &&& forall|j: int| 0 <= j < k ==> (#[trigger] x11[j]).surface != Some(object)
}

proof fn x11_is_found(x11: Seq<X11Window>, k: int, object: u32)
    requires
        draws_into(x11, k, object),
    ensures
        x11_window(x11, object) == Some(x11[k].window),
    decreases x11.len(),
{
    if k > 0 {
        let rest = x11.drop_first();
        assert forall|j: int| 0 <= j < k - 1 implies (#[trigger] rest[j]).surface != Some(object) by {
            assert(x11[j + 1].surface != Some(object));
        }
        assert(x11[0].surface != Some(object));
        x11_is_found(rest, k - 1, object);
    }
}

/// An X window knows nothing but its size: maximizing and dragging put it at the
/// size that was asked for, restoring puts it back at the size of the desktop,
/// and asking it to close asks that window and nothing else.
pub proof fn an_x_window_is_only_ever_sized(
    state: WeblandView,
    entries: Seq<StreamedView>,
    next: u64,
    i: int,
    k: int,
    size: Size,
    before: (i32, i32),
)
    requires
        distinct(entries, next),
        0 <= i < entries.len(),
        !state.toplevels.contains(entries[i].object),
        draws_into(state.x11, k, entries[i].object),
        configurable(size),
    ensures
        ({
            let id = entries[i].id;
            let window = state.x11[k].window;
            &&& placed(before, window, state.maximize(entries, id, Some(size))) == pixels(size)
            &&& placed(before, window, state.maximize(entries, id, None)) == state.size
            &&& placed(before, window, state.resize(entries, id, size)) == pixels(size)
            &&& state.close(entries, id) == seq![Action::CloseX11 { window }]
        }),
{
    an_entry_is_found_by_its_id(entries, next, i);
    x11_is_found(state.x11, k, entries[i].object);
    reveal_with_fuel(placed, 2);
}

/// Nothing is asked of a surface that is gone, or that is neither a window nor
/// drawn by X: it is not closed, maximized or sized, and nor is another for it.
pub proof fn nothing_is_asked_of_what_is_gone(
    state: WeblandView,
    entries: Seq<StreamedView>,
    next: u64,
    id: SurfaceId,
    size: Size,
    asked: Option<Size>,
)
    requires
        distinct(entries, next),
        forall|j: int|
            0 <= j < entries.len() && (#[trigger] entries[j]).id == id ==> !state.toplevels.contains(
                entries[j].object,
            ) && forall|k: int|
                0 <= k < state.x11.len() ==> (#[trigger] state.x11[k]).surface != Some(
                    entries[j].object,
                ),
    ensures
        state.close(entries, id).len() == 0,
        state.maximize(entries, id, asked).len() == 0,
        state.resize(entries, id, size).len() == 0,
{
    if exists|j: int| 0 <= j < entries.len() && (#[trigger] entries[j]).id == id {
        let j = choose|j: int| 0 <= j < entries.len() && (#[trigger] entries[j]).id == id;
        an_entry_is_found_by_its_id(entries, next, j);
        x11_is_not_found(state.x11, entries[j].object);
    } else {
        unnamed(entries, id);
    }
}

proof fn x11_is_not_found(x11: Seq<X11Window>, object: u32)
    requires
        forall|k: int| 0 <= k < x11.len() ==> (#[trigger] x11[k]).surface != Some(object),
    ensures
        x11_window(x11, object) is None,
    decreases x11.len(),
{
    if x11.len() > 0 {
        assert(x11[0].surface != Some(object));
        let rest = x11.drop_first();
        assert forall|k: int| 0 <= k < rest.len() implies (#[trigger] rest[k]).surface != Some(
            object,
        ) by {
            assert(x11[k + 1].surface != Some(object));
        }
        x11_is_not_found(rest, object);
    }
}

/// Asks for an application to be started.
pub open spec fn starts() -> spec_fn(Action) -> bool {
    |action: Action| action is Launch
}

/// Asks a window to close.
pub open spec fn closes() -> spec_fn(Action) -> bool {
    |action: Action| action is CloseToplevel || action is CloseX11
}

/// Has nothing of a kind in it.
spec fn without(actions: Seq<Action>, kind: spec_fn(Action) -> bool) -> bool {
    forall|i: int| 0 <= i < actions.len() ==> !kind(#[trigger] actions[i])
}

proof fn without_is_empty(actions: Seq<Action>, kind: spec_fn(Action) -> bool)
    requires
        without(actions, kind),
    ensures
        actions.filter(kind) == Seq::<Action>::empty(),
    decreases actions.len(),
{
    reveal(Seq::filter);
    if actions.len() > 0 {
        let front = actions.drop_last();
        assert forall|i: int| 0 <= i < front.len() implies !kind(#[trigger] front[i]) by {
            assert(front[i] == actions[i]);
        }
        assert(actions.last() == actions[actions.len() - 1]);
        without_is_empty(front, kind);
    }
}

proof fn each_is_without<T>(
    items: Seq<T>,
    step: spec_fn(T) -> Seq<Action>,
    kind: spec_fn(Action) -> bool,
)
    requires
        forall|item: T| without(#[trigger] step(item), kind),
    ensures
        without(each(items, step), kind),
    decreases items.len(),
{
    if items.len() > 0 {
        each_is_without(items.drop_last(), step, kind);
        let head = each(items.drop_last(), step);
        let tail = step(items.last());
        assert(without(tail, kind));
        assert forall|i: int| 0 <= i < (head + tail).len() implies !kind(
            #[trigger] (head + tail)[i],
        ) by {
            if i < head.len() {
                assert((head + tail)[i] == head[i]);
            } else {
                assert((head + tail)[i] == tail[i - head.len()]);
            }
        }
    }
}

/// What of a kind is in the parts of what a batch asks for.
proof fn kinds_of_arranging(
    state: WeblandView,
    entries: Seq<StreamedView>,
    batch: BatchView,
    kind: spec_fn(Action) -> bool,
)
    requires
        kind == starts() || kind == closes(),
    ensures
        ({
            let now = state.refocused(entries, batch.focus_changed);
            state.arrange(entries, batch).filter(kind) == batch.launching.map_values(
                |id: u32| Action::Launch { id },
            ).filter(kind) + each(
                batch.closing,
                |id: SurfaceId| now.close(entries, id),
            ).filter(kind)
        }),
{
    let now = state.refocused(entries, batch.focus_changed);
    let focus = state.refocus(entries, batch.focus_changed);
    let launch = batch.launching.map_values(|id: u32| Action::Launch { id });
    let close = each(batch.closing, |id: SurfaceId| now.close(entries, id));
    let big = |item: (SurfaceId, Option<Size>)| now.maximize(entries, item.0, item.1);
    let drag = |item: (SurfaceId, Size)| now.resize(entries, item.0, item.1);
    let maximize = each(batch.maximizing, big);
    let size = each(batch.sizing, drag);
    let desktop = now.resized(batch.resize);
    each_is_without(batch.maximizing, big, kind);
    each_is_without(batch.sizing, drag, kind);
    desktop_is_without(now, batch.resize, kind);
    focus_is_without(state, entries, batch.focus_changed, kind);
    without_is_empty(focus, kind);
    without_is_empty(maximize, kind);
    without_is_empty(size, kind);
    without_is_empty(desktop, kind);
    Seq::filter_distributes_over_add(focus, launch, kind);
    Seq::filter_distributes_over_add(focus + launch, close, kind);
    Seq::filter_distributes_over_add(focus + launch + close, maximize, kind);
    Seq::filter_distributes_over_add(focus + launch + close + maximize, size, kind);
    Seq::filter_distributes_over_add(focus + launch + close + maximize + size, desktop, kind);
    let all = focus + launch + close + maximize + size + desktop;
    assert(state.arrange(entries, batch) == all);
    assert(all.filter(kind) =~= launch.filter(kind) + close.filter(kind));
}

proof fn desktop_is_without(
    state: WeblandView,
    resize: Option<Size>,
    kind: spec_fn(Action) -> bool,
)
    requires
        kind == starts() || kind == closes(),
    ensures
        without(state.resized(resize), kind),
{
    if let Some(size) = resize {
        let wanted = visible(size);
        let at = (
            at_least_one(wanted.0),
            at_least_one(wanted.1),
        );
        let put = |window: X11Window|
            seq![
                Action::ConfigureX11 {
                    window: window.window,
                    size: (
                        at_least_one(wanted.0),
                        at_least_one(wanted.1),
                    ),
                },
            ];
        let tell = |object: u32|
            seq![Action::ConfigureToplevel { object, size: Some(wanted), maximized: None }];
        each_is_without(state.x11, put, kind);
        each_is_without(state.toplevels, tell, kind);
        let head = seq![Action::SetOutputMode { size: wanted }];
        let one = each(state.x11, put);
        let two = each(state.toplevels, tell);
        assert(state.reconfigure(wanted) == head + one + two);
        assert forall|i: int| 0 <= i < (head + one + two).len() implies !kind(
            #[trigger] (head + one + two)[i],
        ) by {
            if i == 0 {
                assert((head + one + two)[i] == head[0]);
            } else if i < 1 + one.len() {
                assert((head + one + two)[i] == one[i - 1]);
            } else {
                assert((head + one + two)[i] == two[i - 1 - one.len()]);
            }
        }
    }
}

proof fn focus_is_without(
    state: WeblandView,
    entries: Seq<StreamedView>,
    changed: bool,
    kind: spec_fn(Action) -> bool,
)
    requires
        kind == starts() || kind == closes(),
    ensures
        without(state.refocus(entries, changed), kind),
{
    if changed {
        let focused = state.raised(entries);
        let tell = |window: X11Window| activation(window, focused);
        each_is_without(state.x11, tell, kind);
        let two = each(state.x11, tell);
        let all = state.refocus(entries, changed);
        let n = all.len() - two.len();
        assert forall|i: int| 0 <= i < all.len() implies !kind(#[trigger] all[i]) by {
            if i < n {
                assert(all[i] is PopupDone);
            } else {
                assert(all[i] == two[i - n]);
            }
        }
    }
}

/// The actions of a kind among those that a batch asks for.
#[verifier::opaque]
pub open spec fn asked(
    state: WeblandView,
    entries: Seq<StreamedView>,
    batch: BatchView,
    kind: spec_fn(Action) -> bool,
) -> Seq<Action> {
    state.arrange(entries, batch).filter(kind)
}

/// What is started is what was asked for, in order.
proof fn what_is_started(state: WeblandView, entries: Seq<StreamedView>, batch: BatchView)
    ensures
        asked(state, entries, batch, starts()) == batch.launching.map_values(
            |id: u32| Action::Launch { id },
        ),
{
    reveal(asked);
    let now = state.refocused(entries, batch.focus_changed);
    let shut = |id: SurfaceId| now.close(entries, id);
    let launch = batch.launching.map_values(|id: u32| Action::Launch { id });
    kinds_of_arranging(state, entries, batch, starts());
    each_is_without(batch.closing, shut, starts());
    without_is_empty(each(batch.closing, shut), starts());
    all_are(launch, starts());
    assert(launch + Seq::<Action>::empty() =~= launch);
}

/// What is closed is what was asked to, in order.
proof fn what_is_closed(state: WeblandView, entries: Seq<StreamedView>, batch: BatchView)
    ensures
        asked(state, entries, batch, closes()) == each(
            batch.closing,
            |id: SurfaceId| state.refocused(entries, batch.focus_changed).close(entries, id),
        ),
{
    reveal(asked);
    let now = state.refocused(entries, batch.focus_changed);
    let shut = |id: SurfaceId| now.close(entries, id);
    let launch = batch.launching.map_values(|id: u32| Action::Launch { id });
    let close = each(batch.closing, shut);
    kinds_of_arranging(state, entries, batch, closes());
    assert(without(launch, closes()));
    without_is_empty(launch, closes());
    only_closes(now, entries, batch.closing);
    all_are(close, closes());
    assert(Seq::<Action>::empty() + close =~= close);
}

proof fn only_closes(state: WeblandView, entries: Seq<StreamedView>, closing: Seq<SurfaceId>)
    ensures
        ({
            let all = each(closing, |id: SurfaceId| state.close(entries, id));
            forall|i: int| 0 <= i < all.len() ==> closes()(#[trigger] all[i])
        }),
    decreases closing.len(),
{
    let shut = |id: SurfaceId| state.close(entries, id);
    if closing.len() > 0 {
        let front = closing.drop_last();
        only_closes(state, entries, front);
        let head = each(front, shut);
        let all = each(closing, shut);
        assert forall|i: int| 0 <= i < all.len() implies closes()(#[trigger] all[i]) by {
            if i < head.len() {
                assert(all[i] == head[i]);
            } else {
                assert(all[i] == shut(closing.last())[i - head.len()]);
            }
        }
    }
}

proof fn all_are(actions: Seq<Action>, kind: spec_fn(Action) -> bool)
    requires
        forall|i: int| 0 <= i < actions.len() ==> kind(#[trigger] actions[i]),
    ensures
        actions.filter(kind) == actions,
    decreases actions.len(),
{
    reveal(Seq::filter);
    if actions.len() > 0 {
        let front = actions.drop_last();
        assert forall|i: int| 0 <= i < front.len() implies kind(#[trigger] front[i]) by {
            assert(front[i] == actions[i]);
        }
        assert(actions.last() == actions[actions.len() - 1]);
        all_are(front, kind);
        assert(actions =~= front.push(actions.last()));
    } else {
        assert(actions.filter(kind) =~= actions);
    }
}

/// Asking for one more application starts one more, and that one; asking for
/// nothing starts nothing.
pub proof fn a_launch_starts_that_application(
    state: WeblandView,
    entries: Seq<StreamedView>,
    batch: BatchView,
    id: u32,
)
    ensures
        batch.launching.len() == 0 ==> asked(state, entries, batch, starts()).len() == 0,
        asked(state, entries, batch.with(ClientMessageView::Launch { id }), starts())
            == asked(state, entries, batch, starts()).push(Action::Launch { id }),
        asked(state, entries, batch.with(ClientMessageView::Launch { id }), closes())
            == asked(state, entries, batch, closes()),
{
    let more = batch.with(ClientMessageView::Launch { id });
    let launch = |id: u32| Action::Launch { id };
    what_is_started(state, entries, batch);
    what_is_started(state, entries, more);
    what_is_closed(state, entries, batch);
    what_is_closed(state, entries, more);
    assert(more.launching.map_values(launch) =~= batch.launching.map_values(launch).push(
        Action::Launch { id },
    ));
}

/// Asking a window to close asks that window once more, after everything that
/// was asked to close before, and asks no other.
pub proof fn a_close_asks_that_window(
    state: WeblandView,
    entries: Seq<StreamedView>,
    next: u64,
    batch: BatchView,
    i: int,
)
    requires
        distinct(entries, next),
        0 <= i < entries.len(),
        state.toplevels.contains(entries[i].object),
    ensures
        batch.closing.len() == 0 ==> asked(state, entries, batch, closes()).len() == 0,
        asked(
            state,
            entries,
            batch.with(ClientMessageView::CloseSurface { id: entries[i].id }),
            closes(),
        ) == asked(state, entries, batch, closes()).push(
            Action::CloseToplevel { object: entries[i].object },
        ),
        asked(
            state,
            entries,
            batch.with(ClientMessageView::CloseSurface { id: entries[i].id }),
            starts(),
        ) == asked(state, entries, batch, starts()),
{
    let id = entries[i].id;
    let more = batch.with(ClientMessageView::CloseSurface { id });
    let now = state.refocused(entries, batch.focus_changed);
    let shut = |id: SurfaceId| now.close(entries, id);
    what_is_started(state, entries, batch);
    what_is_started(state, entries, more);
    what_is_closed(state, entries, batch);
    what_is_closed(state, entries, more);
    assert(more.closing.drop_last() =~= batch.closing);
    assert(each(more.closing, shut) == each(batch.closing, shut) + shut(id));
    an_entry_is_found_by_its_id(entries, next, i);
    assert(now.toplevels == state.toplevels);
    assert(shut(id) == seq![Action::CloseToplevel { object: entries[i].object }]);
    assert(each(more.closing, shut) =~= each(batch.closing, shut).push(
        Action::CloseToplevel { object: entries[i].object },
    ));
}

/// Of everything a batch asks of a window, the last word counts: a request to
/// maximize or to restore it decides whether it is maximized, unless a grip or
/// the desktop itself changed its size in the same batch.
pub proof fn a_maximize_request_is_carried_out(
    state: WeblandView,
    entries: Seq<StreamedView>,
    next: u64,
    batch: BatchView,
    i: int,
    size: Option<Size>,
    window: Told,
)
    requires
        distinct(entries, next),
        0 <= i < entries.len(),
        state.toplevels.contains(entries[i].object),
        size matches Some(s) ==> configurable(s),
        batch.sizing.len() == 0,
        batch.resize is None,
    ensures
        told(
            window,
            entries[i].object,
            state.arrange(
                entries,
                batch.with(ClientMessageView::SetMaximized { id: entries[i].id, size }),
            ),
        ) == (match size {
            Some(s) => Told { size: Some(pixels(s)), maximized: true },
            None => Told { size: None, maximized: false },
        }),
{
    let id = entries[i].id;
    let object = entries[i].object;
    let more = batch.with(ClientMessageView::SetMaximized { id, size });
    let now = state.refocused(entries, batch.focus_changed);
    let big = |item: (SurfaceId, Option<Size>)| now.maximize(entries, item.0, item.1);
    let head = state.refocus(entries, batch.focus_changed) + batch.launching.map_values(
        |id: u32| Action::Launch { id },
    ) + each(batch.closing, |id: SurfaceId| now.close(entries, id));
    let old_part = each(batch.maximizing, big);
    let last = now.maximize(entries, id, size);
    assert(more.maximizing.drop_last() =~= batch.maximizing);
    assert(each(more.maximizing, big) == old_part + last);
    let all = state.arrange(entries, more);
    assert(all =~= head + old_part + last);
    told_splits(window, object, head + old_part, last);
    let s = match size {
        Some(s) => s,
        None => Size { width: 1, height: 1 },
    };
    maximizing_sets_the_state_and_restoring_takes_it_off(
        now,
        entries,
        next,
        i,
        s,
        told(window, object, head + old_part),
        object,
    );
}

/// The last word on a window's size is that of the grip it was dragged by,
/// unless the desktop itself changed its size in the same batch.
pub proof fn a_grip_is_carried_out(
    state: WeblandView,
    entries: Seq<StreamedView>,
    next: u64,
    batch: BatchView,
    i: int,
    size: Size,
    window: Told,
)
    requires
        distinct(entries, next),
        0 <= i < entries.len(),
        state.toplevels.contains(entries[i].object),
        configurable(size),
        batch.resize is None,
    ensures
        told(
            window,
            entries[i].object,
            state.arrange(
                entries,
                batch.with(ClientMessageView::SetSize { id: entries[i].id, size }),
            ),
        ) == (Told { size: Some(pixels(size)), maximized: false }),
{
    let id = entries[i].id;
    let object = entries[i].object;
    let more = batch.with(ClientMessageView::SetSize { id, size });
    let now = state.refocused(entries, batch.focus_changed);
    let big = |item: (SurfaceId, Option<Size>)| now.maximize(entries, item.0, item.1);
    let drag = |item: (SurfaceId, Size)| now.resize(entries, item.0, item.1);
    let head = state.refocus(entries, batch.focus_changed) + batch.launching.map_values(
        |id: u32| Action::Launch { id },
    ) + each(batch.closing, |id: SurfaceId| now.close(entries, id)) + each(batch.maximizing, big);
    let old_part = each(batch.sizing, drag);
    let last = now.resize(entries, id, size);
    assert(more.sizing.drop_last() =~= batch.sizing);
    assert(each(more.sizing, drag) == old_part + last);
    assert(state.arrange(entries, more) =~= head + old_part + last);
    told_splits(window, object, head + old_part, last);
    a_dragged_window_takes_its_size(
        now,
        entries,
        next,
        i,
        size,
        told(window, object, head + old_part),
        object,
    );
}

proof fn told_each(
    toplevels: Seq<u32>,
    wanted: (i32, i32),
    object: u32,
    window: Told,
)
    ensures
        told(
            window,
            object,
            each(
                toplevels,
                |object: u32|
                    seq![
                        Action::ConfigureToplevel { object, size: Some(wanted), maximized: None },
                    ],
            ),
        ) == (if toplevels.contains(object) {
            Told { size: Some(wanted), maximized: window.maximized }
        } else {
            window
        }),
    decreases toplevels.len(),
{
    let tell = |object: u32|
        seq![Action::ConfigureToplevel { object, size: Some(wanted), maximized: None }];
    if toplevels.len() > 0 {
        let front = toplevels.drop_last();
        told_each(front, wanted, object, window);
        let one = tell(toplevels.last());
        told_splits(window, object, each(front, tell), one);
        reveal_with_fuel(told, 2);
        assert(toplevels =~= front.push(toplevels.last()));
        if front.contains(object) {
            let k = choose|k: int| 0 <= k < front.len() && front[k] == object;
            assert(toplevels[k] == object);
        }
        if toplevels.contains(object) && !front.contains(object) {
            let k = choose|k: int| 0 <= k < toplevels.len() && toplevels[k] == object;
            if k < front.len() {
                assert(front[k] == object);
            }
            assert(toplevels.last() == object);
        }
        if toplevels.last() == object {
            assert(toplevels[toplevels.len() - 1] == object);
        }
    }
}

proof fn told_nothing(actions: Seq<Action>, object: u32, window: Told)
    requires
        forall|i: int| 0 <= i < actions.len() ==> !(#[trigger] actions[i] is ConfigureToplevel),
    ensures
        told(window, object, actions) == window,
    decreases actions.len(),
{
    if actions.len() > 0 {
        let front = actions.drop_last();
        assert forall|i: int| 0 <= i < front.len() implies !(#[trigger] front[i] is
            ConfigureToplevel) by {
            assert(front[i] == actions[i]);
        }
        assert(actions.last() == actions[actions.len() - 1]);
        told_nothing(front, object, window);
    }
}

proof fn placed_nowhere(actions: Seq<Action>, window: u32, size: (i32, i32))
    requires
        forall|i: int| 0 <= i < actions.len() ==> !(#[trigger] actions[i] is ConfigureX11),
    ensures
        placed(size, window, actions) == size,
    decreases actions.len(),
{
    if actions.len() > 0 {
        let front = actions.drop_last();
        assert forall|i: int| 0 <= i < front.len() implies !(#[trigger] front[i] is
            ConfigureX11) by {
            assert(front[i] == actions[i]);
        }
        assert(actions.last() == actions[actions.len() - 1]);
        placed_nowhere(front, window, size);
    }
}

proof fn output_stays(actions: Seq<Action>, size: (i32, i32))
    requires
        forall|i: int| 0 <= i < actions.len() ==> !(#[trigger] actions[i] is SetOutputMode),
    ensures
        output(size, actions) == size,
    decreases actions.len(),
{
    if actions.len() > 0 {
        let front = actions.drop_last();
        assert forall|i: int| 0 <= i < front.len() implies !(#[trigger] front[i] is
            SetOutputMode) by {
            assert(front[i] == actions[i]);
        }
        assert(actions.last() == actions[actions.len() - 1]);
        output_stays(front, size);
    }
}

proof fn placed_each(x11: Seq<X11Window>, at: (i32, i32), window: u32, before: (i32, i32))
    ensures
        ({
            let all = each(
                x11,
                |window: X11Window| seq![Action::ConfigureX11 { window: window.window, size: at }],
            );
            &&& (exists|k: int| 0 <= k < x11.len() && (#[trigger] x11[k]).window == window)
                ==> placed(before, window, all) == at
            &&& forall|i: int| 0 <= i < all.len() ==> #[trigger] all[i] is ConfigureX11
        }),
    decreases x11.len(),
{
    let put = |window: X11Window| seq![Action::ConfigureX11 { window: window.window, size: at }];
    if x11.len() > 0 {
        let front = x11.drop_last();
        placed_each(front, at, window, before);
        let one = put(x11.last());
        placed_splits(before, window, each(front, put), one);
        reveal_with_fuel(placed, 2);
        if exists|k: int| 0 <= k < x11.len() && (#[trigger] x11[k]).window == window {
            let k = choose|k: int| 0 <= k < x11.len() && (#[trigger] x11[k]).window == window;
            if k < front.len() {
                assert(front[k].window == window);
            }
        }
        let all = each(x11, put);
        assert forall|i: int| 0 <= i < all.len() implies #[trigger] all[i] is ConfigureX11 by {
            if i < each(front, put).len() {
                assert(all[i] == each(front, put)[i]);
            } else {
                assert(all[i] == one[0]);
            }
        }
    }
}

proof fn only_tells(toplevels: Seq<u32>, wanted: (i32, i32))
    ensures
        ({
            let all = each(
                toplevels,
                |object: u32|
                    seq![
                        Action::ConfigureToplevel { object, size: Some(wanted), maximized: None },
                    ],
            );
            forall|i: int| 0 <= i < all.len() ==> #[trigger] all[i] is ConfigureToplevel
        }),
    decreases toplevels.len(),
{
    let tell = |object: u32|
        seq![Action::ConfigureToplevel { object, size: Some(wanted), maximized: None }];
    if toplevels.len() > 0 {
        let front = toplevels.drop_last();
        only_tells(front, wanted);
        let all = each(toplevels, tell);
        assert forall|i: int| 0 <= i < all.len() implies #[trigger] all[i] is
            ConfigureToplevel by {
            if i < each(front, tell).len() {
                assert(all[i] == each(front, tell)[i]);
            }
        }
    }
}

/// When the browser's window changes size, the output takes that size, every
/// window is told it and keeps whatever maximized state it had, and every X
/// window is put at it; a size that is no news asks for nothing at all.
pub proof fn the_desktop_follows_the_browser(
    state: WeblandView,
    size: Size,
    object: u32,
    window: Told,
    k: int,
    before: (i32, i32),
)
    requires
        configurable(size),
    ensures
        state.resized(None).len() == 0,
        state.size == pixels(size) ==> state.resized(Some(size)).len() == 0,
        state.size != pixels(size) ==> {
            let actions = state.resized(Some(size));
            &&& output(before, actions) == pixels(size)
            &&& state.toplevels.contains(object) ==> told(window, object, actions) == (Told {
                size: Some(pixels(size)),
                maximized: window.maximized,
            })
            &&& 0 <= k < state.x11.len() ==> placed(before, state.x11[k].window, actions)
                == pixels(size)
        },
{
    let wanted = pixels(size);
    assert(visible(size) == wanted);
    let put = |window: X11Window|
        seq![
            Action::ConfigureX11 {
                window: window.window,
                size: (
                    at_least_one(wanted.0),
                    at_least_one(wanted.1),
                ),
            },
        ];
    let same = |window: X11Window| seq![Action::ConfigureX11 { window: window.window, size: wanted }];
    assert(put =~= same);
    let tell = |object: u32|
        seq![Action::ConfigureToplevel { object, size: Some(wanted), maximized: None }];
    if state.size != wanted {
        let head = seq![Action::SetOutputMode { size: wanted }];
        let one = each(state.x11, put);
        let two = each(state.toplevels, tell);
        let actions = state.resized(Some(size));
        assert(actions == head + one + two);
        only_tells(state.toplevels, wanted);
        placed_each(state.x11, wanted, 0, before);
        output_splits(before, head + one, two);
        output_splits(before, head, one);
        output_stays(one, wanted);
        output_stays(two, wanted);
        assert(output(before, head) == wanted) by {
            reveal_with_fuel(output, 2);
        }
        told_splits(window, object, head + one, two);
        told_splits(window, object, head, one);
        told_nothing(head, object, window);
        told_nothing(one, object, window);
        told_each(state.toplevels, wanted, object, window);
        if 0 <= k < state.x11.len() {
            let x = state.x11[k].window;
            placed_splits(before, x, head + one, two);
            placed_splits(before, x, head, one);
            placed_nowhere(head, x, before);
            placed_each(state.x11, wanted, x, before);
            placed_nowhere(two, x, wanted);
        }
    }
}

/// Whether an X window takes itself to be focused once actions are done.
pub open spec fn believes(active: bool, window: u32, actions: Seq<Action>) -> bool
    decreases actions.len(),
{
    if actions.len() == 0 {
        active
    } else {
        let before = believes(active, window, actions.drop_last());
        match actions.last() {
            Action::ActivateX11 { window: named, active } => if named == window {
                active
            } else {
                before
            },
            _ => before,
        }
    }
}

proof fn believes_splits(active: bool, window: u32, one: Seq<Action>, other: Seq<Action>)
    ensures
        believes(active, window, one + other) == believes(
            believes(active, window, one),
            window,
            other,
        ),
    decreases other.len(),
{
    if other.len() == 0 {
        assert(one + other =~= one);
    } else {
        believes_splits(active, window, one, other.drop_last());
        assert((one + other).drop_last() =~= one + other.drop_last());
        assert((one + other).last() == other.last());
    }
}

/// No two X windows are the same.
pub open spec fn x11_apart(x11: Seq<X11Window>) -> bool {
    forall|i: int, j: int|
        0 <= i < j < x11.len() ==> (#[trigger] x11[i]).window != (#[trigger] x11[j]).window
}

/// Once the focus has moved, each X window takes itself to be focused exactly
/// where it draws into the surface that is, and that is also what is remembered
/// of it; a window for which nothing changes is told nothing.
pub proof fn x_windows_know_which_is_focused(
    x11: Seq<X11Window>,
    focused: Option<u32>,
    k: int,
)
    requires
        x11_apart(x11),
        0 <= k < x11.len(),
    ensures
        ({
            let actions = each(x11, |window: X11Window| activation(window, focused));
            let after = x11.map_values(|window: X11Window| activated(window, focused));
            &&& believes(x11[k].activated, x11[k].window, actions) == (x11[k].surface == focused)
            &&& after[k] == (X11Window { activated: x11[k].surface == focused, ..x11[k] })
            &&& x11[k].activated == (x11[k].surface == focused) ==> forall|i: int|
                0 <= i < actions.len() ==> !(#[trigger] actions[i] matches Action::ActivateX11 {
                    window,
                    ..
                } && window == x11[k].window)
        }),
{
    x11_belief(x11, focused, k, x11.len() as int);
    assert(x11.take(x11.len() as int) =~= x11);
}

proof fn x11_belief(x11: Seq<X11Window>, focused: Option<u32>, k: int, n: int)
    requires
        x11_apart(x11),
        0 <= k < x11.len(),
        0 <= n <= x11.len(),
    ensures
        ({
            let actions = each(x11.take(n), |window: X11Window| activation(window, focused));
            &&& believes(x11[k].activated, x11[k].window, actions) == (if k < n {
                x11[k].surface == focused
            } else {
                x11[k].activated
            })
            &&& x11[k].activated == (x11[k].surface == focused) ==> forall|i: int|
                0 <= i < actions.len() ==> !(#[trigger] actions[i] matches Action::ActivateX11 {
                    window,
                    ..
                } && window == x11[k].window)
        }),
    decreases n,
{
    let tell = |window: X11Window| activation(window, focused);
    if n > 0 {
        x11_belief(x11, focused, k, n - 1);
        assert(x11.take(n).drop_last() =~= x11.take(n - 1));
        let head = each(x11.take(n - 1), tell);
        let one = tell(x11[n - 1]);
        assert(each(x11.take(n), tell) == head + one);
        believes_splits(x11[k].activated, x11[k].window, head, one);
        reveal_with_fuel(believes, 2);
        if k != n - 1 {
            if k < n - 1 {
                assert(x11[k].window != x11[n - 1].window);
            } else {
                assert(x11[n - 1].window != x11[k].window);
            }
        }
        let actions = head + one;
        if x11[k].activated == (x11[k].surface == focused) {
            assert forall|i: int| 0 <= i < actions.len() implies !(#[trigger] actions[i] matches
                Action::ActivateX11 { window, .. } && window == x11[k].window) by {
                if i < head.len() {
                    assert(actions[i] == head[i]);
                } else {
                    assert(actions[i] == one[i - head.len()]);
                }
            }
        }
    }
}

/// Raising a window sends it the input of the same batch, whatever else the
/// batch asks for, and the focus stays with it.
pub proof fn a_raised_window_gets_the_input(
    state: WeblandView,
    entries: Seq<StreamedView>,
    next: u64,
    batch: BatchView,
    i: int,
)
    requires
        distinct(entries, next),
        0 <= i < entries.len(),
        state.toplevels.contains(entries[i].object),
    ensures
        ({
            let raise = ClientMessageView::Focus { id: entries[i].id };
            let after = state.taking(raise).arranged(entries, batch.with(raise));
            &&& after.target(entries) == Some(entries[i].object)
            &&& state.taking(raise).settled(entries, batch.with(raise)).focus == Some(
                entries[i].id,
            )
        }),
{
    let raise = ClientMessageView::Focus { id: entries[i].id };
    let after = state.taking(raise).arranged(entries, batch.with(raise));
    assert(after.toplevels == state.toplevels);
    let k = choose|k: int|
        0 <= k < state.toplevels.len() && state.toplevels[k] == entries[i].object;
    assert(after.toplevels[k] == entries[i].object);
    assert(on_screen(after, entries[i].object));
    input_goes_to_what_was_raised(after, entries, next, i);
}

/// Raising a window closes every popup and tells each of them so.
pub proof fn a_raised_window_closes_the_menus(
    state: WeblandView,
    entries: Seq<StreamedView>,
    next: u64,
    i: int,
    k: int,
)
    requires
        distinct(entries, next),
        0 <= i < entries.len(),
        state.focus == Some(entries[i].id),
        forall|j: int|
            0 <= j < state.popups.len() ==> (#[trigger] state.popups[j]).object
                != entries[i].object,
        0 <= k < state.popups.len(),
    ensures
        state.refocused(entries, true).popups.len() == 0,
        state.refocus(entries, true).contains(
            Action::PopupDone { object: state.popups[k].object },
        ),
        state.refocused(entries, false) == state,
        state.refocus(entries, false).len() == 0,
{
    an_entry_is_found_by_its_id(entries, next, i);
    let focused = Some(entries[i].object);
    focus_elsewhere_closes_every_popup(state.popups, focused);
    let done = dismissed(state.popups, ancestry_of(state.popups, focused));
    assert(done[k] == state.popups[k].object);
    assert(state.refocus(entries, true)[k] == (Action::PopupDone {
        object: state.popups[k].object,
    }));
}

/// Only a message about the clipboard changes the clipboard, and it becomes what
/// that message holds; only raising moves the focus; only a browser that joins
/// asks for everything, and then it asks for all of it. No message takes back
/// what another asked for.
pub proof fn a_message_changes_only_what_it_is_about(
    state: WeblandView,
    message: ClientMessageView,
)
    ensures
        ({
            let after = state.taking(message);
            &&& after.clipboard == (match message {
                ClientMessageView::Clipboard { text } => text,
                _ => state.clipboard,
            })
            &&& after.focus == (match message {
                ClientMessageView::Focus { id } => Some(id),
                _ => state.focus,
            })
            &&& after.keyframe == (state.keyframe || message is RequestKeyframe)
            &&& after.announce_applications == (state.announce_applications || message is
                RequestKeyframe)
            &&& after.announce_cursor == (state.announce_cursor || message is RequestKeyframe)
            &&& after.toplevels == state.toplevels && after.popups == state.popups && after.x11
                == state.x11 && after.size == state.size && after.requests == state.requests
                && after.cursor == state.cursor
        }),
{
}

/// An ack credits the clock of the surface whose frame it is about, and of no
/// other; no other message touches any clock.
pub proof fn an_ack_credits_its_own_surface(
    entries: Seq<StreamedView>,
    message: ClientMessageView,
    now: u64,
    i: int,
)
    requires
        0 <= i < entries.len(),
    ensures
        entries_taking(entries, message, now).len() == entries.len(),
        message == (ClientMessageView::FramePresented { id: entries[i].id })
            ==> entries_taking(entries, message, now)[i] == (StreamedView {
            clock: entries[i].clock.after_ack(now),
            ..entries[i]
        }),
        message != (ClientMessageView::FramePresented { id: entries[i].id })
            ==> entries_taking(entries, message, now)[i] == entries[i],
{
}

/// Everything in a batch stays in it: a message adds its own request behind the
/// others of its kind and leaves the rest of the batch alone.
pub proof fn a_batch_only_grows(batch: BatchView, message: ClientMessageView)
    ensures
        ({
            let more = batch.with(message);
            &&& more.events == (match message {
                ClientMessageView::Input(event) => batch.events.push(event),
                _ => batch.events,
            })
            &&& more.closing == (match message {
                ClientMessageView::CloseSurface { id } => batch.closing.push(id),
                _ => batch.closing,
            })
            &&& more.launching == (match message {
                ClientMessageView::Launch { id } => batch.launching.push(id),
                _ => batch.launching,
            })
            &&& more.maximizing == (match message {
                ClientMessageView::SetMaximized { id, size } => batch.maximizing.push((id, size)),
                _ => batch.maximizing,
            })
            &&& more.sizing == (match message {
                ClientMessageView::SetSize { id, size } => batch.sizing.push((id, size)),
                _ => batch.sizing,
            })
            &&& more.resize == (match message {
                ClientMessageView::Resize { size } => Some(size),
                _ => batch.resize,
            })
            &&& more.focus_changed == (batch.focus_changed || message is Focus)
        }),
{
}

} // verus!
