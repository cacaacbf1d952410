//! What floats above every window, and what the desktop itself does.

use crate::browser::pointer::{grabbed, grabbed_by_client};
use crate::browser::scene::{
    find_window, focus_effect, focus_message, found_at, is_open, nothing, perform,
    presented_effect, presented_message, window_of, Effect, EffectView, Shell, ShellView, SnapZone,
    WindowState, WindowView,
};
use crate::browser::shortcuts::{arrived, brought_forward, top_on};
use crate::geometry::SurfaceId;
use crate::protocol::messages::ClientMessageView;
use crate::text::begins_with;
use vstd::prelude::*;

verus! {

/// What the switcher shows for the windows it offers: those still open, and what
/// they are called.
pub open spec fn offered(windows: Seq<WindowView>, ids: Seq<u64>) -> Seq<(u64, Seq<char>)>
    decreases ids.len(),
{
    if ids.len() == 0 {
        Seq::empty()
    } else {
        let before = offered(windows, ids.drop_last());
        if is_open(windows, ids.last()) {
            before.push((ids.last(), window_of(windows, ids.last()).title))
        } else {
            before
        }
    }
}

/// What the switcher shows for the windows it offers.
pub fn switcher_items(windows: &Vec<WindowState>, ids: &Vec<u64>) -> (items: Vec<(u64, String)>)
    ensures
        items.deep_view() == offered(windows.deep_view(), ids@),
{
    let ghost all = windows.deep_view();
    let mut items: Vec<(u64, String)> = Vec::new();
    let mut i: usize = 0;
    assert(items.deep_view() =~= offered(all, ids@.take(0)));
    while i < ids.len()
        invariant
            all == windows.deep_view(),
            i <= ids@.len(),
            items.deep_view() == offered(all, ids@.take(i as int)),
        decreases ids@.len() - i,
    {
        let id = ids[i];
        let ghost before = items.deep_view();
        assert(ids@.take(i + 1).drop_last() =~= ids@.take(i as int));
        assert(ids@.take(i + 1).last() == id);
        if let Some(at) = find_window(windows, id) {
            let title = windows[at].title.clone();
            let ghost shown = (id, title@);
            items.push((id, title));
            assert(items.deep_view() =~= before.push(shown));
        }
        i += 1;
    }
    assert(ids@.take(i as int) =~= ids@);
    items
}

/// Pick a window in the switcher, which closes it.
pub fn pick_window(shell: &mut Shell, id: u64) -> (effects: Vec<Effect>)
    ensures
        final(shell)@ == (ShellView { alt_tab: None, ..old(shell)@ }),
        effects.deep_view() == seq![EffectView::Raise(id)] + brought_forward(id),
{
    shell.alt_tab = None;
    let mut effects = nothing();
    perform(&mut effects, Effect::Raise(id));
    perform(&mut effects, presented_effect(id));
    perform(&mut effects, focus_effect(id));
    assert(effects.deep_view() =~= seq![EffectView::Raise(id)] + brought_forward(id));
    assert(shell@ =~= (ShellView { alt_tab: None, ..old(shell)@ }));
    effects
}

/// A notification.
#[derive(Debug)]
pub struct Toast {
    pub id: u64,
    pub title: String,
    pub message: Option<String>,
}

/// Dismiss a notification; the others stay, in their order.
pub fn dismiss(toasts: Vec<Toast>, id: u64) -> (left: Vec<Toast>)
    ensures
        left@ == toasts@.filter(|toast: Toast| toast.id != id),
{
    let ghost all = toasts@;
    let mut rest = toasts;
    let mut left: Vec<Toast> = Vec::new();
    let ghost keeps = |toast: Toast| toast.id != id;
    let ghost mut i: int = 0;
    proof {
        reveal(Seq::filter);
        assert(all.skip(0) =~= all);
    }
    while rest.len() > 0
        invariant
            0 <= i <= all.len(),
            keeps == (|toast: Toast| toast.id != id),
            rest@ == all.skip(i),
            left@ == all.take(i).filter(keeps),
        decreases rest@.len(),
    {
        let toast = rest.remove(0);
        proof {
            reveal(Seq::filter);
            assert(toast == all[i]);
            assert(all.take(i + 1).drop_last() =~= all.take(i));
            assert(all.take(i + 1).last() == toast);
            assert(rest@ =~= all.skip(i + 1));
        }
        if toast.id != id {
            left.push(toast);
        }
        proof {
            i = i + 1;
        }
    }
    assert(all.take(i) =~= all);
    left
}

/// The acks that wake the windows on show on a workspace.
pub open spec fn woken(windows: Seq<WindowView>, workspace: u32) -> Seq<EffectView>
    decreases windows.len(),
{
    if windows.len() == 0 {
        Seq::empty()
    } else {
        let before = woken(windows.drop_last(), workspace);
        if windows.last().on_show(workspace) {
            before.push(presented_message(windows.last().id))
        } else {
            before
        }
    }
}

/// A workspace was switched to: wake its windows by acking their latest frame,
/// which steps the compositor's frame clock out of the throttled pace at once.
pub fn wake(windows: &Vec<WindowState>, workspace: u32) -> (effects: Vec<Effect>)
    ensures
        effects.deep_view() == woken(windows.deep_view(), workspace),
{
    let ghost all = windows.deep_view();
    let mut effects = nothing();
    let mut i: usize = 0;
    assert(all.take(0) =~= Seq::empty());
    while i < windows.len()
        invariant
            all == windows.deep_view(),
            i <= windows@.len(),
            effects.deep_view() == woken(all.take(i as int), workspace),
        decreases windows@.len() - i,
    {
        assert(all[i as int] == windows@[i as int].deep_view());
        assert(all.take(i + 1).drop_last() =~= all.take(i as int));
        assert(all.take(i + 1).last() == all[i as int]);
        if windows[i].is_on_show(workspace) {
            perform(&mut effects, presented_effect(windows[i].id));
        }
        i += 1;
    }
    assert(all.take(i as int) =~= all);
    effects
}

/// Is the virtual cursor drawn? Not while the real pointer is loose, and not
/// while a client holds it for its own camera: that client draws its own
/// crosshair.
pub fn cursor_drawn(captured: bool, windows: &Vec<WindowState>) -> (drawn: bool)
    ensures
        drawn == (captured && !grabbed(windows.deep_view())),
{
    captured && !grabbed_by_client(windows)
}

/// The class of the preview that shows where a dragged window will snap.
pub fn preview_class(zone: SnapZone) -> (class: &'static str)
    ensures
        class@ == (match zone {
            SnapZone::Maximize => "snap-preview maximize"@,
            SnapZone::Left => "snap-preview left"@,
            SnapZone::Right => "snap-preview right"@,
        }),
{
    match zone {
        SnapZone::Maximize => "snap-preview maximize",
        SnapZone::Left => "snap-preview left",
        SnapZone::Right => "snap-preview right",
    }
}

/// The style of the desktop behind a wallpaper.
pub open spec fn background(wallpaper: Option<Seq<char>>) -> Seq<char> {
    match wallpaper {
        Some(url) => "background-image: url("@ + url
            + "); background-size: cover; background-position: center; background-repeat: no-repeat;"@,
        None => Seq::empty(),
    }
}

/// The style of the desktop element. Empty when there is no wallpaper, which
/// leaves the stylesheet's gradients in place rather than replacing them with a
/// blank colour.
pub fn wallpaper_style(wallpaper: &Option<String>) -> (style: String)
    ensures
        style@ == background(wallpaper.deep_view()),
{
    match wallpaper {
        Some(url) => {
            let mut style = "background-image: url(".to_string();
            style.append(url.as_str());
            style.append(
                "); background-size: cover; background-position: center; background-repeat: no-repeat;",
            );
            style
        },
        None => String::new(),
    }
}

/// Waking a workspace reaches every window on show there, once each, and no
/// other.
pub proof fn every_shown_window_is_woken(windows: Seq<WindowView>, workspace: u32)
    ensures
        woken(windows, workspace) == windows.filter(
            |w: WindowView| w.on_show(workspace),
        ).map_values(|w: WindowView| presented_message(w.id)),
    decreases windows.len(),
{
    reveal(Seq::filter);
    if windows.len() > 0 {
        every_shown_window_is_woken(windows.drop_last(), workspace);
    }
    assert(woken(windows, workspace) =~= windows.filter(
        |w: WindowView| w.on_show(workspace),
    ).map_values(|w: WindowView| presented_message(w.id)));
}

/// Switching to a workspace with a keystroke sends nothing but who has the seat
/// there and the acks that wake the windows on show there.
pub proof fn switching_seats_and_wakes(windows: Seq<WindowView>, workspace: u32, i: int)
    requires
        0 <= i < (arrived(windows, workspace) + woken(windows, workspace)).len(),
        (arrived(windows, workspace) + woken(windows, workspace))[i] is Send,
    ensures
        ({
            let sent = (arrived(windows, workspace) + woken(windows, workspace))[i];
            ||| top_on(windows, workspace) is Some && sent == focus_message(
                top_on(windows, workspace)->0,
            )
            ||| exists|j: int|
                0 <= j < windows.len() && windows[j].on_show(workspace)
                    && sent == presented_message(#[trigger] windows[j].id)
        }),
{
    let first = arrived(windows, workspace);
    if i >= first.len() {
        wakes_what_is_on_show(windows, workspace, i - first.len());
    }
}

proof fn wakes_what_is_on_show(windows: Seq<WindowView>, workspace: u32, i: int)
    requires
        0 <= i < woken(windows, workspace).len(),
    ensures
        exists|j: int|
            0 <= j < windows.len() && windows[j].on_show(workspace) && woken(windows, workspace)[i]
                == presented_message(#[trigger] windows[j].id),
    decreases windows.len(),
{
    let fewer = windows.drop_last();
    if i < woken(fewer, workspace).len() {
        wakes_what_is_on_show(fewer, workspace, i);
        let j = choose|j: int|
            0 <= j < fewer.len() && fewer[j].on_show(workspace) && woken(fewer, workspace)[i]
                == presented_message(#[trigger] fewer[j].id);
        assert(windows[j].id == fewer[j].id);
    } else {
        assert(windows[windows.len() - 1].id == windows.last().id);
    }
}

/// The switcher shows a window under its own title as long as it is open, and
/// not at all once it is gone.
pub proof fn the_switcher_shows_open_windows(windows: Seq<WindowView>, ids: Seq<u64>, id: u64, i: int)
    ensures
        found_at(windows, id, i) ==> offered(windows, ids.push(id)) == offered(windows, ids).push(
            (id, windows[i].title),
        ),
        (forall|j: int| 0 <= j < windows.len() ==> (#[trigger] windows[j]).id != id) ==> offered(
            windows,
            ids.push(id),
        ) == offered(windows, ids),
        offered(windows, Seq::empty()).len() == 0,
{
    assert(ids.push(id).drop_last() =~= ids);
    if found_at(windows, id, i) {
        assert(is_open(windows, id));
        let k = choose|k: int| found_at(windows, id, k);
        if k < i {
            assert(windows[k].id != id);
        } else if i < k {
            assert(windows[i].id != id);
        }
    }
    if forall|j: int| 0 <= j < windows.len() ==> (#[trigger] windows[j]).id != id {
        assert forall|k: int| !(#[trigger] found_at(windows, id, k)) by {}
    }
}

/// A window that is woken is told with an ack of its own frame.
pub proof fn a_shown_window_is_acked(windows: Seq<WindowView>, workspace: u32, window: WindowView)
    ensures
        woken(windows.push(window), workspace) == (if window.parent is None && window.workspace
            == workspace && !window.minimized {
            woken(windows, workspace).push(
                EffectView::Send(
                    ClientMessageView::FramePresented { id: SurfaceId(window.id) },
                ),
            )
        } else {
            woken(windows, workspace)
        }),
{
    assert(windows.push(window).drop_last() =~= windows);
}

/// Of the notifications the dismissed one goes and every other stays where it was:
/// one more is there afterwards, behind the rest, unless it is the one dismissed.
pub proof fn a_dismissed_notification_goes(
    toasts: Vec<Toast>,
    longer: Vec<Toast>,
    toast: Toast,
    id: u64,
    left: Vec<Toast>,
    longer_left: Vec<Toast>,
)
    requires
        call_ensures(dismiss, (toasts, id), left),
        call_ensures(dismiss, (longer, id), longer_left),
        longer@ == toasts@.push(toast),
    ensures
        toast.id == id ==> longer_left@ == left@,
        toast.id != id ==> longer_left@ == left@.push(toast),
        toasts@.len() == 0 ==> left@.len() == 0,
{
    reveal(Seq::filter);
    assert(longer@.drop_last() =~= toasts@);
    assert(longer@.last() == toast);
}

/// A wallpaper is drawn from where it is; without one the stylesheet's own
/// background is left alone.
pub proof fn a_wallpaper_is_drawn_from_where_it_is(url: Seq<char>)
    ensures
        begins_with(background(Some(url)), "background-image: url("@ + url),
        background(None).len() == 0,
{
    let front = "background-image: url("@ + url;
    assert(background(Some(url)).take(front.len() as int) =~= front);
}

} // verus!
