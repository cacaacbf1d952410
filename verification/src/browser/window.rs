//! One window: chrome the page owns, round a canvas the compositor fills.

use crate::browser::panel::WORKSPACES;
use crate::browser::scene::{
    close_effect, close_message, find_window, focus_effect, focus_message, found_at, is_open,
    nothing, perform, window_of, Effect, EffectView, SnapZone, WindowState, WindowView,
};
use crate::geometry::SurfaceId;
use crate::protocol::messages::{ClientMessageView, WindowRequest};
use vstd::prelude::*;

verus! {

/// What a client's own titlebar asks of its window.
pub open spec fn requested(id: u64, request: WindowRequest) -> Seq<EffectView> {
    match request {
        WindowRequest::Move => seq![EffectView::Raise(id), EffectView::Follow(id)],
        WindowRequest::Maximize => seq![EffectView::SetMaximized(id, true)],
        WindowRequest::Unmaximize => seq![EffectView::SetMaximized(id, false)],
        WindowRequest::Minimize => seq![EffectView::SetMinimized(id, true)],
    }
}

/// What a window does about the request that waits, and what is left waiting.
pub open spec fn taken(id: u64, pending: Option<(u64, WindowRequest)>) -> (
    Seq<EffectView>,
    Option<(u64, WindowRequest)>,
) {
    match pending {
        Some((target, request)) => if target == id {
            (requested(id, request), None)
        } else {
            (Seq::empty(), pending)
        },
        None => (Seq::empty(), None),
    }
}

/// Take a request for a window: the same gestures, arriving from the client's own
/// titlebar instead of the shell's. A self-decorated window has no chrome here to
/// click, so this is the only way its buttons do anything at all. A request for
/// another window is left for it.
pub fn take_request(id: u64, pending: &mut Option<(u64, WindowRequest)>) -> (effects: Vec<Effect>)
    ensures
        match *old(pending) {
            Some((target, request)) => if target == id {
                *final(pending) is None && effects.deep_view() == requested(id, request)
            } else {
                *final(pending) == *old(pending) && effects.deep_view()
                    == Seq::<EffectView>::empty()
            },
            None => *final(pending) is None && effects.deep_view() == Seq::<EffectView>::empty(),
        },
        (effects.deep_view(), *final(pending)) == taken(id, *old(pending)),
{
    let mut effects = nothing();
    if let Some((target, request)) = *pending {
        if target == id {
            *pending = None;
            match request {
                WindowRequest::Move => {
                    perform(&mut effects, Effect::Raise(id));
                    perform(&mut effects, Effect::Follow(id));
                },
                WindowRequest::Maximize => perform(&mut effects, Effect::SetMaximized(id, true)),
                WindowRequest::Unmaximize => perform(
                    &mut effects,
                    Effect::SetMaximized(id, false),
                ),
                WindowRequest::Minimize => perform(&mut effects, Effect::SetMinimized(id, true)),
            }
            assert(effects.deep_view() =~= requested(id, request));
        }
    }
    effects
}

/// What a press on a window's surface does.
pub open spec fn surface_pressed(windows: Seq<WindowView>, id: u64, alt: bool) -> Seq<EffectView> {
    if alt {
        seq![EffectView::Raise(id), EffectView::Follow(id)]
    } else if is_open(windows, id) && window_of(windows, id).pointer_locked {
        seq![EffectView::Raise(id), focus_message(id), EffectView::RequestPointerLock]
    } else {
        seq![EffectView::Raise(id), focus_message(id)]
    }
}

/// A press on a window's surface. Raising and focusing are one gesture: the page
/// stacks, the compositor only learns who has the seat.
///
/// Alt held makes it a move instead, which is the only way to shift a window that
/// has no titlebar here and whose client does not offer one either.
pub fn press_surface(windows: &Vec<WindowState>, id: u64, alt: bool) -> (effects: Vec<Effect>)
    ensures
        effects.deep_view() == surface_pressed(windows.deep_view(), id, alt),
{
    let mut effects = nothing();
    perform(&mut effects, Effect::Raise(id));
    if alt {
        perform(&mut effects, Effect::Follow(id));
    } else {
        perform(&mut effects, focus_effect(id));
        let locked = match find_window(windows, id) {
            Some(at) => windows[at].pointer_locked,
            None => false,
        };
        if locked {
            perform(&mut effects, Effect::RequestPointerLock);
        }
    }
    assert(effects.deep_view() =~= surface_pressed(windows.deep_view(), id, alt));
    effects
}

/// How a window's frame is drawn.
#[derive(Debug, Clone, Copy, PartialEq, Eq, Structural)]
pub struct Classes {
    /// It has the seat.
    pub active: bool,
    /// The shell draws no titlebar: it drew its own.
    pub bare: bool,
    pub popup: bool,
    pub maximized: bool,
    pub snapped: bool,
}

/// How the frame of a window is drawn, given who has the seat.
pub open spec fn frame_classes(windows: Seq<WindowView>, id: u64, focused: Option<u64>) -> Classes {
    let window = window_of(windows, id);
    let open = is_open(windows, id);
    Classes {
        active: focused == Some(id),
        bare: open && !window.decorated,
        popup: open && window.parent is Some,
        maximized: open && (window.restorable || window.snap == Some(SnapZone::Maximize)),
        snapped: open && window.snap is Some,
    }
}

/// How the frame of a window is drawn, given who has the seat.
pub fn classes(windows: &Vec<WindowState>, id: u64, focused: Option<u64>) -> (classes: Classes)
    ensures
        classes == frame_classes(windows.deep_view(), id, focused),
{
    let active = match focused {
        Some(seated) => seated == id,
        None => false,
    };
    match find_window(windows, id) {
        Some(at) => {
            let window = &windows[at];
            let filled = match window.snap {
                Some(zone) => zone == SnapZone::Maximize,
                None => false,
            };
            Classes {
                active,
                bare: !window.decorated,
                popup: window.parent.is_some(),
                maximized: window.restorable || filled,
                snapped: window.snap.is_some(),
            }
        },
        None => Classes { active, bare: false, popup: false, maximized: false, snapped: false },
    }
}

/// The buttons of a titlebar.
#[derive(Debug, Clone, Copy, PartialEq, Eq, Structural)]
pub enum TitlebarButton {
    Minimize,
    Maximize,
    Close,
}

/// What a titlebar button does.
pub open spec fn titlebar_pressed(id: u64, button: TitlebarButton) -> Seq<EffectView> {
    seq![
        EffectView::StopPropagation,
        match button {
            TitlebarButton::Minimize => EffectView::SetMinimized(id, true),
            TitlebarButton::Maximize => EffectView::ToggleMaximize(id),
            TitlebarButton::Close => close_message(id),
        },
    ]
}

/// A press on one of a titlebar's buttons, which must not reach the titlebar
/// beneath it.
pub fn press_titlebar(id: u64, button: TitlebarButton) -> (effects: Vec<Effect>)
    ensures
        effects.deep_view() == titlebar_pressed(id, button),
{
    let mut effects = nothing();
    perform(&mut effects, Effect::StopPropagation);
    match button {
        TitlebarButton::Minimize => perform(&mut effects, Effect::SetMinimized(id, true)),
        TitlebarButton::Maximize => perform(&mut effects, Effect::ToggleMaximize(id)),
        TitlebarButton::Close => perform(&mut effects, close_effect(id)),
    }
    assert(effects.deep_view() =~= titlebar_pressed(id, button));
    effects
}

/// The items of a titlebar's menu.
#[derive(Debug, Clone, Copy, PartialEq, Eq, Structural)]
pub enum MenuItem {
    Minimize,
    Maximize,
    Workspace(u32),
    Close,
}

/// What an item of a titlebar's menu does: every one closes the menu and stops
/// the press reaching the window beneath it.
pub open spec fn menu_chosen(id: u64, item: MenuItem) -> Seq<EffectView> {
    seq![
        EffectView::StopPropagation,
        EffectView::CloseTitlebarMenu,
        match item {
            MenuItem::Minimize => EffectView::SetMinimized(id, true),
            MenuItem::Maximize => EffectView::ToggleMaximize(id),
            MenuItem::Workspace(n) => EffectView::SendToWorkspace(id, n),
            MenuItem::Close => close_message(id),
        },
    ]
}

/// A press on an item of a titlebar's menu.
pub fn choose_item(id: u64, item: MenuItem) -> (effects: Vec<Effect>)
    ensures
        effects.deep_view() == menu_chosen(id, item),
{
    let mut effects = nothing();
    perform(&mut effects, Effect::StopPropagation);
    perform(&mut effects, Effect::CloseTitlebarMenu);
    match item {
        MenuItem::Minimize => perform(&mut effects, Effect::SetMinimized(id, true)),
        MenuItem::Maximize => perform(&mut effects, Effect::ToggleMaximize(id)),
        MenuItem::Workspace(n) => perform(&mut effects, Effect::SendToWorkspace(id, n)),
        MenuItem::Close => perform(&mut effects, close_effect(id)),
    }
    assert(effects.deep_view() =~= menu_chosen(id, item));
    effects
}

/// The items of a titlebar's menu, in the order they are shown: one for each
/// workspace between the others.
pub fn menu_items() -> (items: Vec<MenuItem>)
    ensures
        items@.len() == WORKSPACES + 3,
        items@[0] == MenuItem::Minimize,
        items@[1] == MenuItem::Maximize,
        forall|n: int|
            0 <= n < WORKSPACES ==> #[trigger] items@[n + 2] == MenuItem::Workspace(n as u32),
        items@[WORKSPACES + 2] == MenuItem::Close,
{
    let mut items: Vec<MenuItem> = Vec::new();
    items.push(MenuItem::Minimize);
    items.push(MenuItem::Maximize);
    let mut n: u32 = 0;
    while n < WORKSPACES
        invariant
            n <= WORKSPACES,
            items@.len() == n + 2,
            items@[0] == MenuItem::Minimize,
            items@[1] == MenuItem::Maximize,
            forall|k: int| 0 <= k < n ==> #[trigger] items@[k + 2] == MenuItem::Workspace(k as u32),
        decreases WORKSPACES - n,
    {
        items.push(MenuItem::Workspace(n));
        n += 1;
    }
    items.push(MenuItem::Close);
    items
}

/// A move that a client, or an alt-drag, asked for.
///
/// The page moves these windows the way it moves every other: once the grab is
/// known the gesture is an ordinary titlebar drag.
#[derive(Debug, Clone, Copy, PartialEq, Eq, Structural)]
pub struct ClientDrag {
    /// Whether the pointer was seen since the move was asked for.
    pub seen: bool,
}

/// What a motion does for a window that is followed, and whether the pointer has
/// been seen then.
pub open spec fn followed(
    seen: bool,
    dragging: Option<u64>,
    connected: bool,
    started: bool,
) -> (Seq<EffectView>, bool) {
    match dragging {
        Some(id) => (
            if !connected {
                Seq::empty()
            } else if started {
                seq![EffectView::UpdateDrag]
            } else {
                seq![EffectView::StartDrag(id), EffectView::UpdateDrag]
            },
            true,
        ),
        None => (Seq::empty(), seen),
    }
}

/// What letting go of a window that is followed does, and whether the pointer
/// still counts as seen.
pub open spec fn let_fall(seen: bool, dragging: Option<u64>, connected: bool) -> (
    Seq<EffectView>,
    bool,
) {
    match dragging {
        Some(_) => (
            if seen && connected {
                seq![EffectView::FinishDrag]
            } else {
                Seq::empty()
            },
            false,
        ),
        None => (Seq::empty(), seen),
    }
}

impl ClientDrag {
    /// No move yet.
    pub fn new() -> (drag: Self)
        ensures
            !drag.seen,
    {
        ClientDrag { seen: false }
    }

    /// The pointer moved: follow it, if a client asked to be followed. The client
    /// asks to be moved without saying from where, so the grab is whatever the
    /// pointer happens to sit over on the first event of the gesture.
    pub fn moved(&mut self, dragging: Option<u64>, connected: bool, started: bool) -> (effects: Vec<
        Effect,
    >)
        ensures
            final(self).seen == (old(self).seen || dragging is Some),
            effects.deep_view() == (if dragging is Some && connected {
                if started {
                    seq![EffectView::UpdateDrag]
                } else {
                    seq![EffectView::StartDrag(dragging->0), EffectView::UpdateDrag]
                }
            } else {
                Seq::empty()
            }),
            (effects.deep_view(), final(self).seen) == followed(
                old(self).seen,
                dragging,
                connected,
                started,
            ),
    {
        let mut effects = nothing();
        if let Some(id) = dragging {
            self.seen = true;
            if connected {
                if !started {
                    perform(&mut effects, Effect::StartDrag(id));
                    perform(&mut effects, Effect::UpdateDrag);
                    assert(effects.deep_view() =~= seq![
                        EffectView::StartDrag(id),
                        EffectView::UpdateDrag,
                    ]);
                } else {
                    perform(&mut effects, Effect::UpdateDrag);
                    assert(effects.deep_view() =~= seq![EffectView::UpdateDrag]);
                }
            }
        }
        effects
    }

    /// Let go: snap, drop on a workspace, or just stay put.
    pub fn dropped(&mut self, dragging: &mut Option<u64>, connected: bool) -> (effects: Vec<Effect>)
        ensures
            *final(dragging) is None,
            final(self).seen == (old(self).seen && *old(dragging) is None),
            effects.deep_view() == (if *old(dragging) is Some && old(self).seen && connected {
                seq![EffectView::FinishDrag]
            } else {
                Seq::empty()
            }),
            (effects.deep_view(), final(self).seen) == let_fall(
                old(self).seen,
                *old(dragging),
                connected,
            ),
    {
        let mut effects = nothing();
        if dragging.is_some() {
            *dragging = None;
            let seen = self.seen;
            self.seen = false;
            if seen && connected {
                perform(&mut effects, Effect::FinishDrag);
                assert(effects.deep_view() =~= seq![EffectView::FinishDrag]);
            }
        }
        effects
    }
}

/// Is this window hidden while a workspace is shown? Another workspace hides a
/// window exactly as minimizing does.
pub open spec fn is_hidden(window: WindowView, workspace: u32) -> bool {
    window.minimized || window.workspace != workspace
}

/// Where a window's frame is placed.
#[derive(Debug, Clone, Copy, PartialEq, Eq, Structural)]
pub struct Placement {
    /// The window whose corner it is placed from, and how far from it.
    pub base: u64,
    pub x: i32,
    pub y: i32,
    pub z: u64,
    pub hidden: bool,
}

/// Where a window's frame is placed: a popup hangs off the window that opened it,
/// where that window is now, above it, and hidden whenever it is.
pub open spec fn placement_of(windows: Seq<WindowView>, id: u64, workspace: u32) -> Option<
    Placement,
> {
    if !is_open(windows, id) {
        None
    } else {
        let window = window_of(windows, id);
        if window.parent is Some && is_open(windows, window.parent->0.parent.0) {
            let anchor = window.parent->0;
            let parent = window_of(windows, anchor.parent.0);
            Some(
                Placement {
                    base: anchor.parent.0,
                    x: anchor.x,
                    y: anchor.y,
                    z: (parent.z + 1) as u64,
                    hidden: is_hidden(parent, workspace),
                },
            )
        } else {
            Some(
                Placement {
                    base: id,
                    x: 0,
                    y: 0,
                    z: window.z as u64,
                    hidden: is_hidden(window, workspace),
                },
            )
        }
    }
}

/// Where a window's frame is placed while a workspace is shown; nowhere once the
/// window is gone. Hidden frames stay where they are: tearing one down would
/// leave the renderer drawing into a detached canvas.
pub fn placement(windows: &Vec<WindowState>, id: u64, workspace: u32) -> (place: Option<Placement>)
    ensures
        place == placement_of(windows.deep_view(), id, workspace),
{
    match find_window(windows, id) {
        None => None,
        Some(at) => {
            let window = &windows[at];
            if let Some(anchor) = window.parent {
                if let Some(above) = find_window(windows, anchor.parent.0) {
                    let parent = &windows[above];
                    return Some(
                        Placement {
                            base: anchor.parent.0,
                            x: anchor.x,
                            y: anchor.y,
                            z: parent.z as u64 + 1,
                            hidden: parent.minimized || parent.workspace != workspace,
                        },
                    );
                }
            }
            Some(
                Placement {
                    base: id,
                    x: 0,
                    y: 0,
                    z: window.z as u64,
                    hidden: window.minimized || window.workspace != workspace,
                },
            )
        },
    }
}

/// A menu lies above the window that opened it, and is on show exactly when that
/// window is.
pub proof fn a_menu_stays_with_its_window(windows: Seq<WindowView>, id: u64, workspace: u32)
    requires
        is_open(windows, id),
        window_of(windows, id).parent is Some,
        is_open(windows, window_of(windows, id).parent->0.parent.0),
        window_of(windows, window_of(windows, id).parent->0.parent.0).parent is None,
    ensures
        ({
            let opener = window_of(windows, id).parent->0.parent.0;
            let menu = placement_of(windows, id, workspace)->0;
            let window = placement_of(windows, opener, workspace)->0;
            &&& menu.base == opener
            &&& menu.z == window.z + 1
            &&& menu.hidden == window.hidden
        }),
{
}

/// Arranging windows is local: of what a titlebar, its menu or a client's own
/// titlebar can ask for, only closing sends a message there and then. Moving,
/// minimizing and sending to a workspace send nothing at all.
pub proof fn arranging_is_local(
    id: u64,
    request: WindowRequest,
    button: TitlebarButton,
    item: MenuItem,
)
    ensures
        forall|i: int|
            0 <= i < requested(id, request).len() ==> requested(id, request)[i] !is Send,
        button !is Close ==> forall|i: int|
            0 <= i < titlebar_pressed(id, button).len() ==> titlebar_pressed(id, button)[i] !is Send,
        item !is Close ==> forall|i: int|
            0 <= i < menu_chosen(id, item).len() ==> menu_chosen(id, item)[i] !is Send,
{
}

/// A client's own titlebar gets what it asks for, of its own window: a move
/// brings it forward and lets it follow the pointer, maximizing fills the screen
/// and the other way gives it back its box, minimizing hides it.
pub proof fn a_client_gets_what_it_asks_for(id: u64)
    ensures
        requested(id, WindowRequest::Move) == seq![EffectView::Raise(id), EffectView::Follow(id)],
        requested(id, WindowRequest::Maximize) == seq![EffectView::SetMaximized(id, true)],
        requested(id, WindowRequest::Unmaximize) == seq![EffectView::SetMaximized(id, false)],
        requested(id, WindowRequest::Minimize) == seq![EffectView::SetMinimized(id, true)],
{
}

/// A request waits for the window it is for: that window takes it, once, and any
/// other leaves it alone.
pub proof fn a_request_is_taken_once(
    id: u64,
    other: u64,
    request: WindowRequest,
)
    requires
        other != id,
    ensures
        taken(id, Some((id, request))) == (requested(id, request), None::<(u64, WindowRequest)>),
        taken(other, Some((id, request))) == (
            Seq::<EffectView>::empty(),
            Some((id, request)),
        ),
        taken(id, None).0.len() == 0,
{
}

/// A press on a window brings it forward and hands it the seat, and takes the
/// pointer for a client that wants it; with alt held the window follows the
/// pointer instead, and its client hears nothing.
pub proof fn a_pressed_window_comes_forward(windows: Seq<WindowView>, id: u64)
    ensures
        surface_pressed(windows, id, true) == seq![EffectView::Raise(id), EffectView::Follow(id)],
        surface_pressed(windows, id, false).len() >= 2,
        surface_pressed(windows, id, false)[0] == EffectView::Raise(id),
        surface_pressed(windows, id, false)[1] == EffectView::Send(
            ClientMessageView::Focus { id: SurfaceId(id) },
        ),
        surface_pressed(windows, id, false).contains(EffectView::RequestPointerLock) <==> is_open(
            windows,
            id,
        ) && window_of(windows, id).pointer_locked,
{
    let effects = surface_pressed(windows, id, false);
    if is_open(windows, id) && window_of(windows, id).pointer_locked {
        assert(effects[2] == EffectView::RequestPointerLock);
    } else {
        assert(effects.len() == 2);
        assert(effects[0] == EffectView::Raise(id));
        assert(effects[1] == focus_message(id));
    }
}

/// The same control does the same thing wherever it stands: minimizing hides the
/// window, maximizing puts it to full size or back, closing asks its client, and
/// a workspace is where it goes. None of them reaches what lies beneath, and a
/// menu closes whatever is chosen in it.
pub proof fn a_control_does_what_it_is_called(id: u64, n: u32, button: TitlebarButton, item: MenuItem)
    ensures
        titlebar_pressed(id, TitlebarButton::Minimize)[1] == EffectView::SetMinimized(id, true),
        titlebar_pressed(id, TitlebarButton::Maximize)[1] == EffectView::ToggleMaximize(id),
        titlebar_pressed(id, TitlebarButton::Close)[1] == EffectView::Send(
            ClientMessageView::CloseSurface { id: SurfaceId(id) },
        ),
        titlebar_pressed(id, button).len() == 2 && titlebar_pressed(id, button)[0]
            == EffectView::StopPropagation,
        menu_chosen(id, MenuItem::Minimize)[2] == EffectView::SetMinimized(id, true),
        menu_chosen(id, MenuItem::Maximize)[2] == EffectView::ToggleMaximize(id),
        menu_chosen(id, MenuItem::Workspace(n))[2] == EffectView::SendToWorkspace(id, n),
        menu_chosen(id, MenuItem::Close)[2] == EffectView::Send(
            ClientMessageView::CloseSurface { id: SurfaceId(id) },
        ),
        menu_chosen(id, item).len() == 3 && menu_chosen(id, item)[0] == EffectView::StopPropagation
            && menu_chosen(id, item)[1] == EffectView::CloseTitlebarMenu,
{
}

/// A frame looks like what its window is: active where it has the seat, bare
/// where its client decorates itself, a popup where it hangs off another, and
/// maximized where it fills the screen, snapped there or not.
pub proof fn a_frame_looks_like_its_window(
    windows: Seq<WindowView>,
    id: u64,
    focused: Option<u64>,
    i: int,
)
    requires
        found_at(windows, id, i),
    ensures
        ({
            let drawn = frame_classes(windows, id, focused);
            &&& drawn.active <==> focused == Some(id)
            &&& drawn.bare <==> !windows[i].decorated
            &&& drawn.popup <==> windows[i].parent is Some
            &&& drawn.maximized <==> windows[i].restorable || windows[i].snap == Some(
                SnapZone::Maximize,
            )
            &&& drawn.snapped <==> windows[i].snap is Some
        }),
{
    assert(is_open(windows, id));
    let k = choose|k: int| found_at(windows, id, k);
    if k < i {
        assert(windows[k].id != id);
    } else if i < k {
        assert(windows[i].id != id);
    }
}

/// A window of its own lies where it is, as high as it is stacked, and is hidden
/// exactly where it is minimized or on another workspace.
pub proof fn a_window_lies_where_it_is_stacked(
    windows: Seq<WindowView>,
    id: u64,
    workspace: u32,
    i: int,
)
    requires
        found_at(windows, id, i),
        windows[i].parent is None,
    ensures
        placement_of(windows, id, workspace) matches Some(place) && place.base == id && place.x == 0
            && place.y == 0 && place.z == windows[i].z && (place.hidden <==> windows[i].minimized
            || windows[i].workspace != workspace),
{
    assert(is_open(windows, id));
    let k = choose|k: int| found_at(windows, id, k);
    if k < i {
        assert(windows[k].id != id);
    } else if i < k {
        assert(windows[i].id != id);
    }
}

/// A drag begins with the first motion after it was asked for, goes on with each,
/// and ends with letting go, once; one during which the pointer never moved ends
/// without having begun.
pub proof fn a_drag_begins_goes_on_and_ends(id: u64, seen: bool)
    ensures
        followed(seen, Some(id), true, false) == (
            seq![EffectView::StartDrag(id), EffectView::UpdateDrag],
            true,
        ),
        followed(seen, Some(id), true, true) == (seq![EffectView::UpdateDrag], true),
        followed(seen, None, true, false) == (Seq::<EffectView>::empty(), seen),
        let_fall(true, Some(id), true) == (seq![EffectView::FinishDrag], false),
        let_fall(false, Some(id), true).0.len() == 0 && !let_fall(false, Some(id), true).1,
        let_fall(seen, None, true) == (Seq::<EffectView>::empty(), seen),
{
}

/// A titlebar's menu offers every workspace there is, and each thing once.
pub proof fn a_menu_offers_each_thing_once(items: Vec<MenuItem>, workspace: u32)
    requires
        call_ensures(menu_items, (), items),
    ensures
        items@.contains(MenuItem::Minimize),
        items@.contains(MenuItem::Maximize),
        items@.contains(MenuItem::Close),
        items@.contains(MenuItem::Workspace(workspace)) <==> workspace < WORKSPACES,
        items@.no_duplicates(),
{
    let all = items@;
    assert(all[0] == MenuItem::Minimize && all[1] == MenuItem::Maximize);
    assert(all[WORKSPACES + 2] == MenuItem::Close);
    assert forall|i: int| 2 <= i < WORKSPACES + 2 implies all[i] == MenuItem::Workspace(
        (i - 2) as u32,
    ) by {
        assert(all[(i - 2) + 2] == MenuItem::Workspace((i - 2) as u32));
    }
    if workspace < WORKSPACES {
        assert(all[workspace as int + 2] == MenuItem::Workspace(workspace));
    }
    if all.contains(MenuItem::Workspace(workspace)) {
        let i = choose|i: int| 0 <= i < all.len() && all[i] == MenuItem::Workspace(workspace);
        assert(2 <= i < WORKSPACES + 2);
    }
}

} // verus!
