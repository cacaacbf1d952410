//! Pointer input while the pointer is locked.
//!
//! With the lock taken the browser routes nothing, so the shell keeps a virtual
//! cursor and hit-tests everything, its own chrome included, against what is
//! under it. The exception is a client holding the pointer for its own camera:
//! relative motion goes straight through and no hit test happens at all.

use crate::browser::dom::{
    cursor_for, direction_cursor, direction_of, element_workspace, resize_direction,
};
use crate::browser::keymap::{button_code, evdev_button};
use crate::browser::pointer::{buttons, grabbed, grabbed_by_client, hovered};
use crate::browser::scene::{
    button_effect, button_message, close_effect, close_message, focus_effect, focus_message,
    nothing, perform, Effect, EffectView, ResizeDirection, WindowState, WindowView,
};
use crate::geometry::{Point, SurfaceId};
use crate::protocol::messages::{ClientMessage, ClientMessageView, InputEvent, Press};
use crate::text::{
    a_written_number_is_read_back, contains_text, decimal, holds, same, unsigned,
};
use vstd::prelude::*;

verus! {

/// What is under the virtual cursor.
#[derive(Debug)]
pub struct Hit {
    /// Whether it is a surface's canvas, and then whose.
    pub canvas: bool,
    pub surface: Option<u64>,
    /// The window it belongs to.
    pub window: Option<u64>,
    /// Whether it belongs to a titlebar.
    pub titlebar: bool,
    /// The class of the resize handle it belongs to.
    pub resize_class: Option<String>,
    /// The class of the titlebar button it belongs to.
    pub button_class: Option<String>,
    /// Whether it belongs to an open titlebar menu, and which of its items.
    pub in_menu: bool,
    pub action: Option<String>,
    pub menu_workspace: Option<String>,
}

/// What a [`Hit`] says.
#[verifier::ext_equal]
pub struct HitView {
    pub canvas: bool,
    pub surface: Option<u64>,
    pub window: Option<u64>,
    pub titlebar: bool,
    pub resize_class: Option<Seq<char>>,
    pub button_class: Option<Seq<char>>,
    pub in_menu: bool,
    pub action: Option<Seq<char>>,
    pub menu_workspace: Option<Seq<char>>,
}

impl DeepView for Hit {
    type V = HitView;

    open spec fn deep_view(&self) -> HitView {
        HitView {
            canvas: self.canvas,
            surface: self.surface,
            window: self.window,
            titlebar: self.titlebar,
            resize_class: self.resize_class.deep_view(),
            button_class: self.button_class.deep_view(),
            in_menu: self.in_menu,
            action: self.action.deep_view(),
            menu_workspace: self.menu_workspace.deep_view(),
        }
    }
}

/// A gesture in progress.
#[derive(Debug, Clone, Copy, PartialEq, Eq, Structural)]
pub enum Gesture {
    Nothing,
    Resizing(ResizeDirection),
    Dragging,
}

/// What a motion of the virtual cursor does.
pub open spec fn moved(
    windows: Seq<WindowView>,
    gesture: Gesture,
    delta: (u64, u64),
    hit: Option<HitView>,
    position: Option<Point>,
) -> Seq<EffectView> {
    if grabbed(windows) {
        seq![
            EffectView::Send(
                ClientMessageView::Input(
                    InputEvent::PointerMotionRelative { dx: delta.0, dy: delta.1 },
                ),
            ),
        ]
    } else {
        match gesture {
            Gesture::Resizing(direction) => seq![
                EffectView::UpdateResize,
                EffectView::CursorIcon(direction_cursor(direction)),
            ],
            Gesture::Dragging => seq![
                EffectView::UpdateDrag,
                EffectView::CursorIcon("grabbing"@),
            ],
            Gesture::Nothing => match hit {
                Some(under) => seq![EffectView::CursorFromElement] + hovered(
                    if under.canvas {
                        under.surface
                    } else {
                        None
                    },
                    position,
                ),
                None => Seq::empty(),
            },
        }
    }
}

/// The virtual cursor moved: act on where it now is. `position` is where that
/// falls on the canvas under it, `delta` the relative motion.
pub fn motion(
    windows: &Vec<WindowState>,
    gesture: Gesture,
    delta: (u64, u64),
    hit: &Option<Hit>,
    position: Option<Point>,
) -> (effects: Vec<Effect>)
    ensures
        effects.deep_view() == moved(
            windows.deep_view(),
            gesture,
            delta,
            hit.deep_view(),
            position,
        ),
{
    let mut effects = nothing();
    if grabbed_by_client(windows) {
        perform(
            &mut effects,
            Effect::Send(
                ClientMessage::Input(
                    InputEvent::PointerMotionRelative { dx: delta.0, dy: delta.1 },
                ),
            ),
        );
    } else {
        match gesture {
            Gesture::Resizing(direction) => {
                perform(&mut effects, Effect::UpdateResize);
                perform(&mut effects, Effect::CursorIcon(cursor_for(direction).to_string()));
            },
            Gesture::Dragging => {
                perform(&mut effects, Effect::UpdateDrag);
                perform(&mut effects, Effect::CursorIcon("grabbing".to_string()));
            },
            Gesture::Nothing => {
                if let Some(under) = hit {
                    perform(&mut effects, Effect::CursorFromElement);
                    if under.canvas {
                        if let Some(id) = under.surface {
                            if let Some(place) = position {
                                perform(
                                    &mut effects,
                                    Effect::Send(
                                        ClientMessage::Input(
                                            InputEvent::PointerMotion {
                                                id: SurfaceId(id),
                                                position: place,
                                            },
                                        ),
                                    ),
                                );
                            }
                        }
                    }
                }
            },
        }
    }
    assert(effects.deep_view() =~= moved(
        windows.deep_view(),
        gesture,
        delta,
        hit.deep_view(),
        position,
    ));
    effects
}

/// What letting go of a button does, given whether a press is remembered and
/// whether anything holds both it and the release. The second is whether the
/// press is still remembered.
pub open spec fn released(
    gesture: Gesture,
    hit: Option<HitView>,
    button: i16,
    pressed: bool,
    shared: bool,
) -> (Seq<EffectView>, bool) {
    match gesture {
        Gesture::Resizing(_) => (
            seq![EffectView::FinishResize, EffectView::CursorFromElement],
            pressed,
        ),
        Gesture::Dragging => (
            seq![EffectView::FinishDrag, EffectView::CursorFromElement],
            pressed,
        ),
        Gesture::Nothing => match hit {
            None => (Seq::empty(), pressed),
            Some(under) => if under.canvas {
                (
                    match button_code(button) {
                        Some(code) => seq![button_message(code, Press::Up)],
                        None => Seq::empty(),
                    },
                    pressed,
                )
            } else if pressed && button == 0 && shared {
                (
                    seq![
                        EffectView::DispatchUp,
                        EffectView::Click,
                        EffectView::CursorFromElement,
                    ],
                    false,
                )
            } else {
                (seq![EffectView::DispatchUp, EffectView::CursorFromElement], false)
            },
        },
    }
}

/// Let go of a gesture, or click what the virtual cursor is over.
///
/// A click is a press and a release on the same thing. Firing it on whatever the
/// release landed on would activate a button the press never touched: a drag
/// that began on the desktop and ended over the launcher would start an
/// application.
pub fn release(
    gesture: Gesture,
    hit: &Option<Hit>,
    button: i16,
    pressed: &mut bool,
    shared: bool,
) -> (effects: Vec<Effect>)
    ensures
        (effects.deep_view(), *final(pressed)) == released(
            gesture,
            hit.deep_view(),
            button,
            *old(pressed),
            shared,
        ),
{
    let mut effects = nothing();
    match gesture {
        Gesture::Resizing(_) => {
            perform(&mut effects, Effect::FinishResize);
            perform(&mut effects, Effect::CursorFromElement);
        },
        Gesture::Dragging => {
            perform(&mut effects, Effect::FinishDrag);
            perform(&mut effects, Effect::CursorFromElement);
        },
        Gesture::Nothing => {
            if let Some(under) = hit {
                if under.canvas {
                    if let Some(code) = evdev_button(button) {
                        perform(&mut effects, button_effect(code, Press::Up));
                    }
                } else {
                    perform(&mut effects, Effect::DispatchUp);
                    let click = *pressed && button == 0 && shared;
                    *pressed = false;
                    if click {
                        perform(&mut effects, Effect::Click);
                    }
                    perform(&mut effects, Effect::CursorFromElement);
                }
            }
        },
    }
    assert(effects.deep_view() =~= released(
        gesture,
        hit.deep_view(),
        button,
        *old(pressed),
        shared,
    ).0);
    effects
}

/// What an item of a window's titlebar menu does.
pub open spec fn menu_item(id: u64, action: Seq<char>) -> Seq<EffectView> {
    if action == "minimize"@ {
        seq![EffectView::SetMinimized(id, true)]
    } else if action == "maximize"@ {
        seq![EffectView::ToggleMaximize(id)]
    } else if action == "close"@ {
        seq![close_message(id)]
    } else {
        Seq::empty()
    }
}

/// What a press does about an open titlebar menu, and whether the menu took it.
pub open spec fn menu_press(menu: Option<u64>, under: HitView) -> (Seq<EffectView>, bool) {
    match menu {
        None => (Seq::empty(), false),
        Some(id) => if under.in_menu && under.action is Some {
            (menu_item(id, under.action->0) + seq![EffectView::CloseTitlebarMenu], true)
        } else if under.in_menu && under.menu_workspace is Some && unsigned(
            under.menu_workspace->0,
            u32::MAX as int,
        ) is Some {
            (
                seq![
                    EffectView::SendToWorkspace(
                        id,
                        unsigned(under.menu_workspace->0, u32::MAX as int)->0 as u32,
                    ),
                    EffectView::CloseTitlebarMenu,
                ],
                true,
            )
        } else {
            (seq![EffectView::CloseTitlebarMenu], true)
        },
    }
}

/// An open titlebar menu swallows the press, whether or not it landed on one of
/// the menu's own items, and closes.
fn titlebar_menu_took(menu: Option<u64>, under: &Hit, effects: &mut Vec<Effect>) -> (took: bool)
    ensures
        ({
            let (done, taken) = menu_press(menu, under.deep_view());
            final(effects).deep_view() == old(effects).deep_view() + done && took == taken
        }),
{
    let ghost before = effects.deep_view();
    let ghost done = menu_press(menu, under.deep_view()).0;
    match menu {
        None => {
            assert(effects.deep_view() =~= before + done);
            false
        },
        Some(id) => {
            if under.in_menu {
                if let Some(action) = &under.action {
                    if same(action.as_str(), "minimize") {
                        perform(effects, Effect::SetMinimized(id, true));
                    } else if same(action.as_str(), "maximize") {
                        perform(effects, Effect::ToggleMaximize(id));
                    } else if same(action.as_str(), "close") {
                        perform(effects, close_effect(id));
                    }
                    perform(effects, Effect::CloseTitlebarMenu);
                    assert(effects.deep_view() =~= before + done);
                    return true;
                }
                if let Some(workspace) = element_workspace(&under.menu_workspace) {
                    perform(effects, Effect::SendToWorkspace(id, workspace));
                    perform(effects, Effect::CloseTitlebarMenu);
                    assert(effects.deep_view() =~= before + done);
                    return true;
                }
            }
            perform(effects, Effect::CloseTitlebarMenu);
            assert(effects.deep_view() =~= before + done);
            true
        },
    }
}

/// Where the last press on a titlebar landed, so the next one can tell a
/// double-click from two.
#[derive(Debug, Clone, Copy, PartialEq, Eq, Structural)]
pub struct ClickState {
    pub window_id: Option<u64>,
    pub is_titlebar: bool,
}

/// What a titlebar button of a class does.
pub open spec fn titlebar_button(id: u64, class: Seq<char>) -> Seq<EffectView> {
    if holds(class, "close"@) {
        seq![close_message(id)]
    } else if holds(class, "maximize"@) {
        seq![EffectView::ToggleMaximize(id)]
    } else if holds(class, "minimize"@) {
        seq![EffectView::SetMinimized(id, true)]
    } else {
        Seq::empty()
    }
}

/// Is this press the second of a double-click on a window's titlebar? `near` is
/// whether it came soon after the last and close to it.
pub open spec fn double_click(last: Option<ClickState>, id: u64, near: bool) -> bool {
    near && last == Some(ClickState { window_id: Some(id), is_titlebar: true })
}

/// What a press on a window's own chrome does, whether the chrome took it, and
/// which click is remembered.
pub open spec fn chrome_press(
    under: HitView,
    button: i16,
    id: u64,
    last: Option<ClickState>,
    near: bool,
) -> (Seq<EffectView>, bool, Option<ClickState>) {
    if button == 2 && under.titlebar {
        (seq![EffectView::OpenTitlebarMenu(id)], true, last)
    } else if button != 0 {
        (Seq::empty(), false, last)
    } else if under.resize_class is Some && direction_of(under.resize_class->0) is Some {
        let direction = direction_of(under.resize_class->0)->0;
        (
            seq![
                EffectView::StartResize(id, direction),
                EffectView::CursorIcon(direction_cursor(direction)),
            ],
            true,
            last,
        )
    } else if under.button_class is Some {
        (titlebar_button(id, under.button_class->0), true, last)
    } else if !under.titlebar {
        (Seq::empty(), false, last)
    } else if double_click(last, id, near) {
        (seq![EffectView::ToggleMaximize(id)], true, None)
    } else {
        (
            seq![EffectView::StartDrag(id), EffectView::CursorIcon("grabbing"@)],
            true,
            Some(ClickState { window_id: Some(id), is_titlebar: true }),
        )
    }
}

/// A press on the window's own chrome: a resize handle, a titlebar button, or the
/// titlebar itself.
fn chrome_took(
    under: &Hit,
    button: i16,
    id: u64,
    last: &mut Option<ClickState>,
    near: bool,
    effects: &mut Vec<Effect>,
) -> (took: bool)
    ensures
        ({
            let (done, taken, click) = chrome_press(
                under.deep_view(),
                button,
                id,
                *old(last),
                near,
            );
            final(effects).deep_view() == old(effects).deep_view() + done && took == taken
                && *final(last) == click
        }),
{
    let ghost before = effects.deep_view();
    let ghost done = chrome_press(under.deep_view(), button, id, *last, near).0;
    if button == 2 && under.titlebar {
        perform(effects, Effect::OpenTitlebarMenu(id));
        assert(effects.deep_view() =~= before + done);
        return true;
    }
    if button != 0 {
        assert(effects.deep_view() =~= before + done);
        return false;
    }
    if let Some(class) = &under.resize_class {
        if let Some(direction) = resize_direction(class.as_str()) {
            perform(effects, Effect::StartResize(id, direction));
            perform(effects, Effect::CursorIcon(cursor_for(direction).to_string()));
            assert(effects.deep_view() =~= before + done);
            return true;
        }
    }
    if let Some(class) = &under.button_class {
        if contains_text(class.as_str(), "close") {
            perform(effects, close_effect(id));
        } else if contains_text(class.as_str(), "maximize") {
            perform(effects, Effect::ToggleMaximize(id));
        } else if contains_text(class.as_str(), "minimize") {
            perform(effects, Effect::SetMinimized(id, true));
        }
        assert(effects.deep_view() =~= before + done);
        return true;
    }
    if !under.titlebar {
        assert(effects.deep_view() =~= before + done);
        return false;
    }
    let twice = match last {
        Some(click) => near && click.is_titlebar && click.window_id == Some(id),
        None => false,
    };
    if twice {
        *last = None;
        perform(effects, Effect::ToggleMaximize(id));
    } else {
        *last = Some(ClickState { window_id: Some(id), is_titlebar: true });
        perform(effects, Effect::StartDrag(id));
        perform(effects, Effect::CursorIcon("grabbing".to_string()));
    }
    assert(effects.deep_view() =~= before + done);
    true
}

/// Bring a window to the front and hand it the seat.
pub open spec fn taken_up(id: u64) -> Seq<EffectView> {
    seq![EffectView::Raise(id), focus_message(id)]
}

/// What pressing a button does: the effects, the click that is remembered, and
/// whether the press itself is.
pub open spec fn pressed_on(
    menu: Option<u64>,
    hit: Option<HitView>,
    button: i16,
    last: Option<ClickState>,
    near: bool,
    pressed: bool,
) -> (Seq<EffectView>, Option<ClickState>, bool) {
    match hit {
        None => (Seq::empty(), last, pressed),
        Some(under) => {
            let (first, took) = menu_press(menu, under);
            if took {
                (first, last, false)
            } else if under.canvas {
                let seat = match under.surface {
                    Some(id) => taken_up(id),
                    None => Seq::empty(),
                };
                let sent = match button_code(button) {
                    Some(code) => seq![EffectView::InputSent, button_message(code, Press::Down)],
                    None => Seq::empty(),
                };
                (first + seat + sent, last, false)
            } else {
                match under.window {
                    Some(id) => {
                        let (done, taken, click) = chrome_press(under, button, id, last, near);
                        if taken {
                            (first + taken_up(id) + done, click, false)
                        } else {
                            (
                                first + taken_up(id) + done + seq![EffectView::DispatchDown],
                                click,
                                true,
                            )
                        }
                    },
                    None => (first + seq![EffectView::DispatchDown], last, true),
                }
            }
        },
    }
}

/// Press whatever the virtual cursor is over: shell chrome by hand, a client's
/// surface by forwarding the button.
///
/// Every path either handles the press itself or dispatches it; only the latter
/// remembers one, so a press the shell consumed leaves nothing for a later
/// release to click.
pub fn press(
    menu: Option<u64>,
    hit: &Option<Hit>,
    button: i16,
    last: &mut Option<ClickState>,
    near: bool,
    pressed: &mut bool,
) -> (effects: Vec<Effect>)
    ensures
        (effects.deep_view(), *final(last), *final(pressed)) == pressed_on(
            menu,
            hit.deep_view(),
            button,
            *old(last),
            near,
            *old(pressed),
        ),
{
    let mut effects = nothing();
    let ghost goal = pressed_on(menu, hit.deep_view(), button, *last, near, *pressed);
    if let Some(under) = hit {
        *pressed = false;
        let took = titlebar_menu_took(menu, under, &mut effects);
        let ghost first = menu_press(menu, under.deep_view()).0;
        assert(effects.deep_view() =~= first);
        if took {
            return effects;
        }
        if under.canvas {
            if let Some(id) = under.surface {
                perform(&mut effects, Effect::Raise(id));
                perform(&mut effects, focus_effect(id));
            }
            if let Some(code) = evdev_button(button) {
                perform(&mut effects, Effect::InputSent);
                perform(&mut effects, button_effect(code, Press::Down));
            }
            assert(effects.deep_view() =~= goal.0);
            return effects;
        }
        if let Some(id) = under.window {
            perform(&mut effects, Effect::Raise(id));
            perform(&mut effects, focus_effect(id));
            if chrome_took(under, button, id, last, near, &mut effects) {
                assert(effects.deep_view() =~= goal.0);
                return effects;
            }
        }
        *pressed = true;
        perform(&mut effects, Effect::DispatchDown);
        assert(effects.deep_view() =~= goal.0);
    }
    effects
}

/// A click takes a press and a release: a release clicks nothing unless a press
/// was dispatched before it, and a press that the shell handled itself is not
/// one.
pub proof fn a_click_needs_its_press(
    gesture: Gesture,
    hit: Option<HitView>,
    button: i16,
    shared: bool,
)
    ensures
        !released(gesture, hit, button, false, shared).0.contains(EffectView::Click),
        forall|menu: Option<u64>, last: Option<ClickState>, near: bool, before: bool|
            hit is Some && (#[trigger] pressed_on(menu, hit, button, last, near, before)).2
                ==> pressed_on(menu, hit, button, last, near, before).0.contains(
                EffectView::DispatchDown,
            ),
{
    assert forall|menu: Option<u64>, last: Option<ClickState>, near: bool, before: bool|
        hit is Some && (#[trigger] pressed_on(menu, hit, button, last, near, before)).2 implies
        pressed_on(menu, hit, button, last, near, before).0.contains(EffectView::DispatchDown) by {
        let effects = pressed_on(menu, hit, button, last, near, before).0;
        assert(effects.last() == EffectView::DispatchDown);
        assert(effects[effects.len() - 1] == EffectView::DispatchDown);
    }
}

/// While a client holds the pointer for its own camera, motion goes straight
/// through, whatever is under the cursor.
pub proof fn a_grab_hides_the_shell(
    windows: Seq<WindowView>,
    gesture: Gesture,
    delta: (u64, u64),
    hit: Option<HitView>,
    position: Option<Point>,
)
    requires
        grabbed(windows),
    ensures
        moved(windows, gesture, delta, hit, position) == moved(
            windows,
            Gesture::Nothing,
            delta,
            None,
            None,
        ),
{
}

/// Of two presses on a titlebar, close together, the first starts a drag and the
/// second maximizes; a third starts over.
pub proof fn a_double_click_maximizes(under: HitView, id: u64, last: Option<ClickState>)
    requires
        under.titlebar,
        under.resize_class is None,
        under.button_class is None,
        !double_click(last, id, true),
    ensures
        ({
            let (first, took, once) = chrome_press(under, 0, id, last, true);
            let (second, again, twice) = chrome_press(under, 0, id, once, true);
            &&& took && again
            &&& first == seq![EffectView::StartDrag(id), EffectView::CursorIcon("grabbing"@)]
            &&& second == seq![EffectView::ToggleMaximize(id)]
            &&& twice is None
        }),
{
}

/// An open titlebar menu swallows every press: it closes, and nothing that the
/// press landed on sees it or is clicked by a later release.
pub proof fn an_open_menu_swallows_the_press(
    id: u64,
    under: HitView,
    button: i16,
    last: Option<ClickState>,
    near: bool,
    pressed: bool,
)
    ensures
        menu_press(Some(id), under).1,
        menu_press(Some(id), under).0.last() == EffectView::CloseTitlebarMenu,
        pressed_on(Some(id), Some(under), button, last, near, pressed) == (
            menu_press(Some(id), under).0,
            last,
            false,
        ),
{
}

/// A motion does one thing. While a client holds the pointer it is that client's
/// and nothing else; a resize or a drag goes on with it; otherwise the surface
/// under the cursor hears of it, where there is one, and nobody else does.
pub proof fn a_motion_does_one_thing(
    windows: Seq<WindowView>,
    gesture: Gesture,
    delta: (u64, u64),
    under: HitView,
    id: u64,
    place: Point,
)
    ensures
        grabbed(windows) ==> moved(windows, gesture, delta, Some(under), Some(place)) == seq![
            EffectView::Send(
                ClientMessageView::Input(
                    InputEvent::PointerMotionRelative { dx: delta.0, dy: delta.1 },
                ),
            ),
        ],
        !grabbed(windows) && gesture is Resizing ==> moved(
            windows,
            gesture,
            delta,
            Some(under),
            Some(place),
        ) == seq![
            EffectView::UpdateResize,
            EffectView::CursorIcon(direction_cursor(gesture->Resizing_0)),
        ],
        !grabbed(windows) && gesture is Dragging ==> moved(
            windows,
            gesture,
            delta,
            Some(under),
            Some(place),
        )[0] == EffectView::UpdateDrag,
        !grabbed(windows) && gesture is Nothing && under.canvas && under.surface == Some(id)
            ==> moved(windows, gesture, delta, Some(under), Some(place)) == seq![
            EffectView::CursorFromElement,
            EffectView::Send(
                ClientMessageView::Input(
                    InputEvent::PointerMotion { id: SurfaceId(id), position: place },
                ),
            ),
        ],
        !grabbed(windows) && gesture is Nothing && !under.canvas ==> moved(
            windows,
            gesture,
            delta,
            Some(under),
            Some(place),
        ) == seq![EffectView::CursorFromElement],
{
    let effects = moved(windows, gesture, delta, Some(under), Some(place));
    if !grabbed(windows) && gesture is Nothing {
        if under.canvas && under.surface == Some(id) {
            assert(effects =~= seq![
                EffectView::CursorFromElement,
                EffectView::Send(
                    ClientMessageView::Input(
                        InputEvent::PointerMotion { id: SurfaceId(id), position: place },
                    ),
                ),
            ]);
        } else if !under.canvas {
            assert(effects =~= seq![EffectView::CursorFromElement]);
        }
    }
}

/// A press on a surface brings it forward, hands it the seat and then presses the
/// button there; letting go over a surface lets the button go. A button that was
/// pressed and let go on surfaces is up.
pub proof fn a_press_on_a_surface_reaches_its_client(
    under: HitView,
    over: HitView,
    id: u64,
    button: i16,
    last: Option<ClickState>,
    near: bool,
    pressed: bool,
    shared: bool,
    down: Set<u32>,
)
    requires
        under.canvas,
        under.surface == Some(id),
        over.canvas,
        0 <= button <= 2,
    ensures
        ({
            let code = button_code(button)->0;
            let (effects, click, held) = pressed_on(None, Some(under), button, last, near, pressed);
            let (after, _) = released(Gesture::Nothing, Some(over), button, held, shared);
            &&& effects == seq![
                EffectView::Raise(id),
                EffectView::Send(ClientMessageView::Focus { id: SurfaceId(id) }),
                EffectView::InputSent,
                EffectView::Send(
                    ClientMessageView::Input(
                        InputEvent::PointerButton { button: code, state: Press::Down },
                    ),
                ),
            ]
            &&& click == last && !held
            &&& after == seq![
                EffectView::Send(
                    ClientMessageView::Input(
                        InputEvent::PointerButton { button: code, state: Press::Up },
                    ),
                ),
            ]
            &&& buttons(down, effects).contains(code)
            &&& !buttons(buttons(down, effects), after).contains(code)
        }),
{
    let code = button_code(button)->0;
    let (effects, _, held) = pressed_on(None, Some(under), button, last, near, pressed);
    let (after, _) = released(Gesture::Nothing, Some(over), button, held, shared);
    assert(effects =~= seq![
        EffectView::Raise(id),
        EffectView::Send(ClientMessageView::Focus { id: SurfaceId(id) }),
        EffectView::InputSent,
        EffectView::Send(
            ClientMessageView::Input(
                InputEvent::PointerButton { button: code, state: Press::Down },
            ),
        ),
    ]);
    reveal_with_fuel(buttons, 2);
    assert(after.drop_last() =~= Seq::empty());
}

/// A titlebar's buttons do what they are called: close asks the window's client
/// to close, maximize puts the window to full size or back, minimize hides it.
pub proof fn a_titlebar_button_does_what_it_is_called(id: u64, class: Seq<char>)
    ensures
        holds(class, "close"@) ==> titlebar_button(id, class) == seq![
            EffectView::Send(ClientMessageView::CloseSurface { id: SurfaceId(id) }),
        ],
        !holds(class, "close"@) && holds(class, "maximize"@) ==> titlebar_button(id, class) == seq![
            EffectView::ToggleMaximize(id),
        ],
        !holds(class, "close"@) && !holds(class, "maximize"@) && holds(class, "minimize"@)
            ==> titlebar_button(id, class) == seq![EffectView::SetMinimized(id, true)],
{
}

/// An item of a titlebar's menu does what it is called, to the window the menu is
/// of, and the menu closes after it; an item that names a workspace sends the
/// window there.
pub proof fn a_menu_item_does_what_it_is_called(id: u64, under: HitView, workspace: u32)
    requires
        under.in_menu,
    ensures
        under.action == Some("minimize"@) ==> menu_press(Some(id), under).0 == seq![
            EffectView::SetMinimized(id, true),
            EffectView::CloseTitlebarMenu,
        ],
        under.action == Some("maximize"@) ==> menu_press(Some(id), under).0 == seq![
            EffectView::ToggleMaximize(id),
            EffectView::CloseTitlebarMenu,
        ],
        under.action == Some("close"@) ==> menu_press(Some(id), under).0 == seq![
            EffectView::Send(ClientMessageView::CloseSurface { id: SurfaceId(id) }),
            EffectView::CloseTitlebarMenu,
        ],
        under.action is None && under.menu_workspace == Some(decimal(workspace as nat))
            ==> menu_press(Some(id), under).0 == seq![
            EffectView::SendToWorkspace(id, workspace),
            EffectView::CloseTitlebarMenu,
        ],
        menu_press(None, under).0.len() == 0 && !menu_press(None, under).1,
{
    reveal_strlit("minimize");
    reveal_strlit("maximize");
    reveal_strlit("close");
    assert("minimize"@[1] == 'i' && "maximize"@[1] == 'a');
    assert("close"@.len() == 5 && "minimize"@.len() == 8 && "maximize"@.len() == 8);
    a_written_number_is_read_back(workspace as nat, u32::MAX as int);
    let effects = menu_press(Some(id), under).0;
    if under.action == Some("minimize"@) {
        assert(effects =~= seq![
            EffectView::SetMinimized(id, true),
            EffectView::CloseTitlebarMenu,
        ]);
    } else if under.action == Some("maximize"@) {
        assert(effects =~= seq![EffectView::ToggleMaximize(id), EffectView::CloseTitlebarMenu]);
    } else if under.action == Some("close"@) {
        assert(effects =~= seq![
            EffectView::Send(ClientMessageView::CloseSurface { id: SurfaceId(id) }),
            EffectView::CloseTitlebarMenu,
        ]);
    }
}

/// A press on a window's chrome brings the window forward and hands it the seat
/// before anything else; the right button on its titlebar opens its menu, and a
/// resize handle starts the resize it is for.
pub proof fn a_press_on_chrome_takes_the_window_up(
    under: HitView,
    id: u64,
    button: i16,
    last: Option<ClickState>,
    near: bool,
    pressed: bool,
)
    requires
        !under.canvas,
        under.window == Some(id),
    ensures
        ({
            let (effects, click, held) = pressed_on(None, Some(under), button, last, near, pressed);
            &&& effects.len() >= 2
            &&& effects[0] == EffectView::Raise(id)
            &&& effects[1] == EffectView::Send(ClientMessageView::Focus { id: SurfaceId(id) })
            &&& button == 2 && under.titlebar ==> effects.len() == 3 && effects[2]
                == EffectView::OpenTitlebarMenu(id) && !held
            &&& button == 0 && under.resize_class is Some && direction_of(
                under.resize_class->0,
            ) is Some ==> effects[2] == EffectView::StartResize(
                id,
                direction_of(under.resize_class->0)->0,
            ) && effects.len() == 4 && !held
            &&& button == 0 && under.resize_class is None && under.button_class is None
                && under.titlebar && last is None ==> effects[2] == EffectView::StartDrag(id)
                && !held
            &&& button != 0 && !(button == 2 && under.titlebar) ==> effects.last()
                == EffectView::DispatchDown && held
        }),
{
}

/// Letting go ends a gesture and clicks nothing; without one, what the cursor is
/// over is clicked where the left button was pressed on it before, and nowhere
/// else, and the press is used up.
pub proof fn letting_go_ends_what_was_begun(
    under: HitView,
    button: i16,
    pressed: bool,
    shared: bool,
    direction: ResizeDirection,
)
    requires
        !under.canvas,
    ensures
        released(Gesture::Resizing(direction), Some(under), button, pressed, shared).0 == seq![
            EffectView::FinishResize,
            EffectView::CursorFromElement,
        ],
        released(Gesture::Dragging, Some(under), button, pressed, shared).0 == seq![
            EffectView::FinishDrag,
            EffectView::CursorFromElement,
        ],
        ({
            let (effects, held) = released(
                Gesture::Nothing,
                Some(under),
                button,
                pressed,
                shared,
            );
            &&& effects[0] == EffectView::DispatchUp
            &&& effects.contains(EffectView::Click) <==> pressed && button == 0 && shared
            &&& !held
        }),
{
    let effects = released(Gesture::Nothing, Some(under), button, pressed, shared).0;
    if pressed && button == 0 && shared {
        assert(effects[1] == EffectView::Click);
    } else {
        assert(effects.len() == 2);
        assert(effects[0] != EffectView::Click && effects[1] != EffectView::Click);
    }
}

} // verus!
