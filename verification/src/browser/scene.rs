//! The desktop as the page holds it, and what a gesture makes of it.
//!
//! The page owns window position and stacking. A handler reads the windows,
//! changes the few things that are the shell's own, and says what else is to be
//! done as a list of effects, in order.

use crate::geometry::SurfaceId;
use crate::protocol::messages::{
    Anchor, ClientMessage, ClientMessageView, InputEvent, Press,
};
use vstd::prelude::*;

verus! {

/// Where a window is snapped to.
#[derive(Debug, Clone, Copy, PartialEq, Eq, Structural)]
pub enum SnapZone {
    Maximize,
    Left,
    Right,
}

/// Which edge or corner of a window a resize drags.
#[derive(Debug, Clone, Copy, PartialEq, Eq, Structural)]
pub enum ResizeDirection {
    Top,
    Bottom,
    Left,
    Right,
    TopLeft,
    TopRight,
    BottomLeft,
    BottomRight,
}

/// One window, as far as the shell's rules read it.
#[derive(Debug)]
pub struct WindowState {
    pub id: u64,
    pub title: String,
    /// What a popup hangs off. A menu is not a window.
    pub parent: Option<Anchor>,
    pub workspace: u32,
    pub minimized: bool,
    /// How high the window is stacked.
    pub z: u32,
    /// Whether its client holds the pointer for its own camera.
    pub pointer_locked: bool,
    /// Whether the shell draws its chrome.
    pub decorated: bool,
    /// Whether it has a box to be restored to.
    pub restorable: bool,
    pub snap: Option<SnapZone>,
}

/// What a [`WindowState`] says.
#[verifier::ext_equal]
pub struct WindowView {
    pub id: u64,
    pub title: Seq<char>,
    pub parent: Option<Anchor>,
    pub workspace: u32,
    pub minimized: bool,
    pub z: u32,
    pub pointer_locked: bool,
    pub decorated: bool,
    pub restorable: bool,
    pub snap: Option<SnapZone>,
}

impl DeepView for WindowState {
    type V = WindowView;

    open spec fn deep_view(&self) -> WindowView {
        WindowView {
            id: self.id,
            title: self.title@,
            parent: self.parent,
            workspace: self.workspace,
            minimized: self.minimized,
            z: self.z,
            pointer_locked: self.pointer_locked,
            decorated: self.decorated,
            restorable: self.restorable,
            snap: self.snap,
        }
    }
}

impl WindowView {
    /// Is this a window of its own, on show on a workspace?
    pub open spec fn on_show(self, workspace: u32) -> bool {
        self.parent is None && self.workspace == workspace && !self.minimized
    }
}

impl WindowState {
    /// Is this a window of its own, on show on a workspace?
    pub fn is_on_show(&self, workspace: u32) -> (shown: bool)
        ensures
            shown == self.deep_view().on_show(workspace),
    {
        self.parent.is_none() && self.workspace == workspace && !self.minimized
    }
}

/// The switcher, while it is open: the windows it offers and the one selected.
#[derive(Debug)]
pub struct AltTabState {
    pub selected_index: usize,
    pub window_ids: Vec<u64>,
}

/// What an [`AltTabState`] says.
#[verifier::ext_equal]
pub struct AltTabView {
    pub selected: int,
    pub ids: Seq<u64>,
}

impl DeepView for AltTabState {
    type V = AltTabView;

    open spec fn deep_view(&self) -> AltTabView {
        AltTabView { selected: self.selected_index as int, ids: self.window_ids@ }
    }
}

/// What is the shell's own: nothing of it is a window's.
#[derive(Debug)]
pub struct Shell {
    pub workspace: u32,
    pub focused: Option<u64>,
    pub alt_tab: Option<AltTabState>,
    pub launcher_open: bool,
}

/// What a [`Shell`] says.
#[verifier::ext_equal]
pub struct ShellView {
    pub workspace: u32,
    pub focused: Option<u64>,
    pub alt_tab: Option<AltTabView>,
    pub launcher_open: bool,
}

impl View for Shell {
    type V = ShellView;

    open spec fn view(&self) -> ShellView {
        ShellView {
            workspace: self.workspace,
            focused: self.focused,
            alt_tab: self.alt_tab.deep_view(),
            launcher_open: self.launcher_open,
        }
    }
}

/// Something for the page to do.
#[derive(Debug)]
#[allow(inconsistent_fields)]
pub enum Effect {
    /// Tell the compositor.
    Send(ClientMessage),
    /// Keep the browser from acting on the event as well.
    PreventDefault,
    /// Keep the event from reaching the element beneath.
    StopPropagation,
    /// An input went out: start timing the frame it causes.
    InputSent,
    /// Put the text cursor into the launcher's search box.
    FocusSearch,
    /// Flush the deferred key later, should no paste event come.
    ArmPaste,
    /// Bring a window to the front.
    Raise(u64),
    SetMinimized(u64, bool),
    ToggleMaximize(u64),
    SetMaximized(u64, bool),
    SendToWorkspace(u64, u32),
    /// Let a window follow the pointer.
    Follow(u64),
    StartResize(u64, ResizeDirection),
    UpdateResize,
    FinishResize,
    StartDrag(u64),
    UpdateDrag,
    FinishDrag,
    /// Open a window's titlebar menu under the cursor.
    OpenTitlebarMenu(u64),
    CloseTitlebarMenu,
    CloseTrayMenu,
    /// Draw the virtual cursor as this shape.
    CursorIcon(String),
    /// Draw the virtual cursor as whatever is under it asks.
    CursorFromElement,
    /// Dispatch a press on the element under the cursor, and remember it.
    DispatchDown,
    /// Dispatch a release on the element under the cursor.
    DispatchUp,
    /// Click the element that holds both the press and the release.
    Click,
    /// Ask the browser for the pointer, for a client that wants it.
    RequestPointerLock,
    Toast(String),
}

/// What an [`Effect`] says.
#[verifier::ext_equal]
#[allow(inconsistent_fields)]
pub enum EffectView {
    Send(ClientMessageView),
    PreventDefault,
    StopPropagation,
    InputSent,
    FocusSearch,
    ArmPaste,
    Raise(u64),
    SetMinimized(u64, bool),
    ToggleMaximize(u64),
    SetMaximized(u64, bool),
    SendToWorkspace(u64, u32),
    Follow(u64),
    StartResize(u64, ResizeDirection),
    UpdateResize,
    FinishResize,
    StartDrag(u64),
    UpdateDrag,
    FinishDrag,
    OpenTitlebarMenu(u64),
    CloseTitlebarMenu,
    CloseTrayMenu,
    CursorIcon(Seq<char>),
    CursorFromElement,
    DispatchDown,
    DispatchUp,
    Click,
    RequestPointerLock,
    Toast(Seq<char>),
}

impl DeepView for Effect {
    type V = EffectView;

    open spec fn deep_view(&self) -> EffectView {
        match self {
            Effect::Send(message) => EffectView::Send(message.deep_view()),
            Effect::PreventDefault => EffectView::PreventDefault,
            Effect::StopPropagation => EffectView::StopPropagation,
            Effect::InputSent => EffectView::InputSent,
            Effect::FocusSearch => EffectView::FocusSearch,
            Effect::ArmPaste => EffectView::ArmPaste,
            Effect::Raise(id) => EffectView::Raise(*id),
            Effect::SetMinimized(id, on) => EffectView::SetMinimized(*id, *on),
            Effect::ToggleMaximize(id) => EffectView::ToggleMaximize(*id),
            Effect::SetMaximized(id, on) => EffectView::SetMaximized(*id, *on),
            Effect::SendToWorkspace(id, n) => EffectView::SendToWorkspace(*id, *n),
            Effect::Follow(id) => EffectView::Follow(*id),
            Effect::StartResize(id, dir) => EffectView::StartResize(*id, *dir),
            Effect::UpdateResize => EffectView::UpdateResize,
            Effect::FinishResize => EffectView::FinishResize,
            Effect::StartDrag(id) => EffectView::StartDrag(*id),
            Effect::UpdateDrag => EffectView::UpdateDrag,
            Effect::FinishDrag => EffectView::FinishDrag,
            Effect::OpenTitlebarMenu(id) => EffectView::OpenTitlebarMenu(*id),
            Effect::CloseTitlebarMenu => EffectView::CloseTitlebarMenu,
            Effect::CloseTrayMenu => EffectView::CloseTrayMenu,
            Effect::CursorIcon(name) => EffectView::CursorIcon(name@),
            Effect::CursorFromElement => EffectView::CursorFromElement,
            Effect::DispatchDown => EffectView::DispatchDown,
            Effect::DispatchUp => EffectView::DispatchUp,
            Effect::Click => EffectView::Click,
            Effect::RequestPointerLock => EffectView::RequestPointerLock,
            Effect::Toast(text) => EffectView::Toast(text@),
        }
    }
}

/// One more effect at the end of what is to be done.
pub(crate) fn perform(effects: &mut Vec<Effect>, effect: Effect)
    ensures
        final(effects).deep_view() == old(effects).deep_view().push(effect.deep_view()),
{
    effects.push(effect);
    assert(effects.deep_view() =~= old(effects).deep_view().push(effect.deep_view()));
}

/// No effects yet.
pub(crate) fn nothing() -> (effects: Vec<Effect>)
    ensures
        effects.deep_view() == Seq::<EffectView>::empty(),
{
    let effects: Vec<Effect> = Vec::new();
    assert(effects.deep_view() =~= Seq::<EffectView>::empty());
    effects
}

/// A key event for the compositor.
pub open spec fn key_message(keycode: u32, state: Press) -> EffectView {
    EffectView::Send(ClientMessageView::Input(InputEvent::Key { keycode, state }))
}

/// A button event for the compositor.
pub open spec fn button_message(button: u32, state: Press) -> EffectView {
    EffectView::Send(ClientMessageView::Input(InputEvent::PointerButton { button, state }))
}

/// Hand a surface the seat.
pub open spec fn focus_message(id: u64) -> EffectView {
    EffectView::Send(ClientMessageView::Focus { id: SurfaceId(id) })
}

/// Ask a surface's client to close.
pub open spec fn close_message(id: u64) -> EffectView {
    EffectView::Send(ClientMessageView::CloseSurface { id: SurfaceId(id) })
}

/// Say that a frame of a surface is on screen.
pub open spec fn presented_message(id: u64) -> EffectView {
    EffectView::Send(ClientMessageView::FramePresented { id: SurfaceId(id) })
}

pub(crate) fn key_effect(keycode: u32, state: Press) -> (effect: Effect)
    ensures
        effect.deep_view() == key_message(keycode, state),
{
    Effect::Send(ClientMessage::Input(InputEvent::Key { keycode, state }))
}

pub(crate) fn button_effect(button: u32, state: Press) -> (effect: Effect)
    ensures
        effect.deep_view() == button_message(button, state),
{
    Effect::Send(ClientMessage::Input(InputEvent::PointerButton { button, state }))
}

pub(crate) fn focus_effect(id: u64) -> (effect: Effect)
    ensures
        effect.deep_view() == focus_message(id),
{
    Effect::Send(ClientMessage::Focus { id: SurfaceId(id) })
}

pub(crate) fn close_effect(id: u64) -> (effect: Effect)
    ensures
        effect.deep_view() == close_message(id),
{
    Effect::Send(ClientMessage::CloseSurface { id: SurfaceId(id) })
}

pub(crate) fn presented_effect(id: u64) -> (effect: Effect)
    ensures
        effect.deep_view() == presented_message(id),
{
    Effect::Send(ClientMessage::FramePresented { id: SurfaceId(id) })
}

/// Where a window stands among the others; the first of that id counts.
pub open spec fn found_at(windows: Seq<WindowView>, id: u64, i: int) -> bool {
    &&& 0 <= i < windows.len()
    &&& windows[i].id == id
    &&& forall|j: int| 0 <= j < i ==> (#[trigger] windows[j]).id != id
}

/// Is there a window of that id?
pub open spec fn is_open(windows: Seq<WindowView>, id: u64) -> bool {
    exists|i: int| #[trigger] found_at(windows, id, i)
}

/// The window of that id, while there is one.
pub open spec fn window_of(windows: Seq<WindowView>, id: u64) -> WindowView {
    windows[choose|i: int| found_at(windows, id, i)]
}

/// Find a window by its id.
pub fn find_window(windows: &Vec<WindowState>, id: u64) -> (at: Option<usize>)
    ensures
        match at {
            Some(i) => found_at(windows.deep_view(), id, i as int) && is_open(
                windows.deep_view(),
                id,
            ) && windows@[i as int].deep_view() == window_of(windows.deep_view(), id),
            None => !is_open(windows.deep_view(), id),
        },
{
    let ghost all = windows.deep_view();
    let mut i: usize = 0;
    while i < windows.len()
        invariant
            all == windows.deep_view(),
            i <= windows@.len(),
            forall|j: int| 0 <= j < i ==> (#[trigger] all[j]).id != id,
        decreases windows@.len() - i,
    {
        assert(all[i as int] == windows@[i as int].deep_view());
        if windows[i].id == id {
            proof {
                assert(found_at(all, id, i as int));
                let chosen = choose|k: int| found_at(all, id, k);
                if chosen < i {
                    assert(all[chosen].id != id);
                } else if chosen > i {
                    assert(all[i as int].id != id);
                }
            }
            return Some(i);
        }
        i += 1;
    }
    None
}

/// Is the `i`th window the topmost of those a rule accepts? Of two that are
/// stacked equally high the later one is.
pub open spec fn is_topmost(
    windows: Seq<WindowView>,
    accepts: spec_fn(WindowView) -> bool,
    i: int,
) -> bool {
    &&& 0 <= i < windows.len()
    &&& accepts(windows[i])
    &&& forall|j: int|
        0 <= j < windows.len() && accepts(#[trigger] windows[j]) ==> windows[j].z <= windows[i].z
    &&& forall|j: int|
        i < j < windows.len() && accepts(#[trigger] windows[j]) ==> windows[j].z < windows[i].z
}

/// Is this the topmost of the windows that a rule accepts, if there is any?
pub open spec fn top_of(
    windows: Seq<WindowView>,
    accepts: spec_fn(WindowView) -> bool,
    top: Option<u64>,
) -> bool {
    match top {
        Some(id) => exists|i: int| #[trigger]
            is_topmost(windows, accepts, i) && windows[i].id == id,
        None => forall|i: int| 0 <= i < windows.len() ==> !accepts(#[trigger] windows[i]),
    }
}

/// The topmost of the windows that a rule accepts, if there is any.
pub open spec fn highest(
    windows: Seq<WindowView>,
    accepts: spec_fn(WindowView) -> bool,
) -> Option<u64> {
    choose|top: Option<u64>| top_of(windows, accepts, top)
}

/// The topmost of the windows that a rule accepts.
pub(crate) fn topmost<F: Fn(&WindowState) -> bool>(
    windows: &Vec<WindowState>,
    accepts: Ghost<spec_fn(WindowView) -> bool>,
    rule: F,
) -> (top: Option<u64>)
    requires
        forall|w: &WindowState| #[trigger] call_requires(rule, (w,)),
        forall|w: &WindowState, answer: bool| #[trigger]
            call_ensures(rule, (w,), answer) ==> answer == accepts@(w.deep_view()),
    ensures
        top_of(windows.deep_view(), accepts@, top),
        top == highest(windows.deep_view(), accepts@),
{
    let ghost all = windows.deep_view();
    let mut best: Option<usize> = None;
    let mut i: usize = 0;
    while i < windows.len()
        invariant
            all == windows.deep_view(),
            i <= windows@.len(),
            forall|w: &WindowState| #[trigger] call_requires(rule, (w,)),
            forall|w: &WindowState, answer: bool| #[trigger]
                call_ensures(rule, (w,), answer) ==> answer == accepts@(w.deep_view()),
            match best {
                Some(b) => b < i && is_topmost(all.take(i as int), accepts@, b as int),
                None => forall|j: int| 0 <= j < i ==> !accepts@(#[trigger] all[j]),
            },
        decreases windows@.len() - i,
    {
        let window = &windows[i];
        assert(all[i as int] == window.deep_view());
        let accepted = rule(window);
        let ghost next = all.take(i + 1);
        assert(forall|j: int| 0 <= j <= i ==> next[j] == all[j]);
        assert(forall|j: int| 0 <= j < i ==> all.take(i as int)[j] == all[j]);
        if accepted {
            let higher = match best {
                Some(b) => windows[b].z <= window.z,
                None => true,
            };
            if higher {
                best = Some(i);
                assert(is_topmost(next, accepts@, i as int));
            }
        }
        i += 1;
    }
    assert(all.take(i as int) =~= all);
    let top = match best {
        Some(b) => {
            assert(is_topmost(all, accepts@, b as int));
            Some(windows[b].id)
        },
        None => None,
    };
    proof {
        assert(top_of(all, accepts@, top));
        the_topmost_is_one(all, accepts@, top, highest(all, accepts@));
    }
    top
}

/// There is only one topmost window.
pub proof fn the_topmost_is_one(
    windows: Seq<WindowView>,
    accepts: spec_fn(WindowView) -> bool,
    one: Option<u64>,
    other: Option<u64>,
)
    requires
        top_of(windows, accepts, one),
        top_of(windows, accepts, other),
    ensures
        one == other,
{
    match (one, other) {
        (Some(a), Some(b)) => {
            let i = choose|i: int| #[trigger] is_topmost(windows, accepts, i) && windows[i].id == a;
            let j = choose|j: int| #[trigger] is_topmost(windows, accepts, j) && windows[j].id == b;
            assert(windows[i].z <= windows[j].z);
            assert(windows[j].z <= windows[i].z);
            if i < j {
                assert(windows[j].z < windows[i].z);
            } else if j < i {
                assert(windows[i].z < windows[j].z);
            }
        },
        (Some(a), None) => {
            let i = choose|i: int| #[trigger] is_topmost(windows, accepts, i) && windows[i].id == a;
            assert(!accepts(windows[i]));
        },
        (None, Some(b)) => {
            let j = choose|j: int| #[trigger] is_topmost(windows, accepts, j) && windows[j].id == b;
            assert(!accepts(windows[j]));
        },
        (None, None) => {},
    }
}

/// Of any windows, those that a rule accepts have a topmost one, unless there
/// are none.
pub proof fn a_topmost_exists(windows: Seq<WindowView>, accepts: spec_fn(WindowView) -> bool)
    ensures
        top_of(windows, accepts, highest(windows, accepts)),
    decreases windows.len(),
{
    if windows.len() == 0 {
        assert(top_of(windows, accepts, None));
    } else {
        let front = windows.drop_last();
        let last = windows.len() - 1;
        a_topmost_exists(front, accepts);
        assert(forall|i: int| 0 <= i < front.len() ==> front[i] == windows[i]);
        match highest(front, accepts) {
            Some(id) => {
                let i = choose|i: int| #[trigger]
                    is_topmost(front, accepts, i) && front[i].id == id;
                assert(front[i] == windows[i]);
                if accepts(windows[last]) && windows[last].z >= windows[i].z {
                    assert forall|j: int|
                        0 <= j < windows.len() && accepts(#[trigger] windows[j]) implies windows[j].z
                        <= windows[last].z by {
                        if j < last {
                            assert(front[j] == windows[j]);
                        }
                    }
                    assert(is_topmost(windows, accepts, last));
                    assert(top_of(windows, accepts, Some(windows[last].id)));
                } else {
                    assert forall|j: int|
                        0 <= j < windows.len() && accepts(#[trigger] windows[j]) implies windows[j].z
                        <= windows[i].z && (j > i ==> windows[j].z < windows[i].z) by {
                        if j < last {
                            assert(front[j] == windows[j]);
                        }
                    }
                    assert(is_topmost(windows, accepts, i));
                    assert(top_of(windows, accepts, Some(windows[i].id)));
                }
            },
            None => {
                assert forall|j: int| 0 <= j < last implies !accepts(#[trigger] windows[j]) by {
                    assert(front[j] == windows[j]);
                }
                if accepts(windows[last]) {
                    assert(is_topmost(windows, accepts, last));
                    assert(top_of(windows, accepts, Some(windows[last].id)));
                } else {
                    assert(top_of(windows, accepts, None));
                }
            },
        }
    }
}

} // verus!
