//! The panel's task buttons: one per window on this workspace.
//!
//! With windows stacked on top of each other a buried one is unreachable, so
//! these are what make more than two of them usable at all. Raising from here is
//! the page's own doing like any other stacking change; only the focus that comes
//! with it reaches the compositor.

use crate::browser::scene::{
    a_topmost_exists, find_window, focus_effect, focus_message, highest, is_open, is_topmost,
    nothing, perform, presented_effect, the_topmost_is_one, top_of, topmost, window_of, Effect,
    EffectView, Shell, ShellView, WindowState, WindowView,
};
use crate::browser::shortcuts::brought_forward;
use crate::geometry::SurfaceId;
use crate::protocol::messages::ClientMessageView;
use vstd::prelude::*;

verus! {

/// The topmost window on a workspace other than one.
pub open spec fn below(windows: Seq<WindowView>, workspace: u32, skip: u64) -> Option<u64> {
    highest(windows, |w: WindowView| w.workspace == workspace && !w.minimized && w.id != skip)
}

/// The topmost window on `workspace` other than `skip`, if there is one.
pub fn next_below(windows: &Vec<WindowState>, workspace: u32, skip: u64) -> (next: Option<u64>)
    ensures
        next == below(windows.deep_view(), workspace, skip),
        next != Some(skip),
{
    let rule = |w: &WindowState| -> (answer: bool)
        ensures
            answer == (w.deep_view().workspace == workspace && !w.deep_view().minimized
                && w.deep_view().id != skip),
        { w.workspace == workspace && !w.minimized && w.id != skip };
    let ghost accepts = |w: WindowView|
        w.workspace == workspace && !w.minimized && w.id != skip;
    let next = topmost(windows, Ghost(accepts), rule);
    proof {
        let all = windows.deep_view();
        assert(top_of(all, accepts, next));
    }
    next
}

/// Is the task's window in front already, so that clicking it hides it?
pub open spec fn in_front(shell: ShellView, windows: Seq<WindowView>, id: u64) -> bool {
    shell.focused == Some(id) && !(is_open(windows, id) && window_of(windows, id).minimized)
}

/// What clicking a task does.
pub open spec fn clicked(shell: ShellView, windows: Seq<WindowView>, id: u64) -> (
    ShellView,
    Seq<EffectView>,
) {
    let closed = ShellView { launcher_open: false, ..shell };
    if in_front(shell, windows, id) {
        let next = below(windows, shell.workspace, id);
        (
            ShellView { focused: next, ..closed },
            match next {
                Some(other) => seq![EffectView::SetMinimized(id, true), focus_message(other)],
                None => seq![EffectView::SetMinimized(id, true)],
            },
        )
    } else {
        (
            closed,
            seq![EffectView::SetMinimized(id, false), EffectView::Raise(id)] + brought_forward(id),
        )
    }
}

/// Take a click on a task button.
///
/// Clicking the active window hides it, and the one below it takes the seat: a
/// task button that does nothing on a second click looks broken. Clicking any
/// other un-hides it as well as raising it.
pub fn click(shell: &mut Shell, windows: &Vec<WindowState>, id: u64) -> (effects: Vec<Effect>)
    ensures
        (final(shell)@, effects.deep_view()) == clicked(old(shell)@, windows.deep_view(), id),
{
    let mut effects = nothing();
    shell.launcher_open = false;
    let focused = match shell.focused {
        Some(seated) => seated == id,
        None => false,
    };
    let minimized = match find_window(windows, id) {
        Some(at) => windows[at].minimized,
        None => false,
    };
    if focused && !minimized {
        perform(&mut effects, Effect::SetMinimized(id, true));
        let next = next_below(windows, shell.workspace, id);
        shell.focused = next;
        if let Some(other) = next {
            perform(&mut effects, focus_effect(other));
        }
    } else {
        perform(&mut effects, Effect::SetMinimized(id, false));
        perform(&mut effects, Effect::Raise(id));
        perform(&mut effects, presented_effect(id));
        perform(&mut effects, focus_effect(id));
    }
    proof {
        let (after, all) = clicked(old(shell)@, windows.deep_view(), id);
        assert(effects.deep_view() =~= all);
        assert(shell@ =~= after);
    }
    effects
}

/// Does a window get a task button on a workspace? A task list showing every
/// window on every workspace is the thing workspaces exist to stop, and a menu
/// is not a window.
pub open spec fn has_task(window: WindowView, workspace: u32) -> bool {
    window.parent is None && window.workspace == workspace
}

/// Which windows get a task button, by their places among all of them.
pub fn tasks(windows: &Vec<WindowState>, workspace: u32) -> (list: Vec<usize>)
    ensures
        forall|k: int|
            0 <= k < list@.len() ==> (#[trigger] list@[k]) < windows@.len() && has_task(
                windows@[list@[k] as int].deep_view(),
                workspace,
            ),
        forall|j: int, k: int|
            0 <= j < k < list@.len() ==> (#[trigger] list@[j]) < (#[trigger] list@[k]),
        forall|i: usize|
            i < windows@.len() && has_task(windows@[i as int].deep_view(), workspace)
                ==> #[trigger] list@.contains(i),
{
    let mut list: Vec<usize> = Vec::new();
    let mut i: usize = 0;
    while i < windows.len()
        invariant
            i <= windows@.len(),
            forall|k: int|
                0 <= k < list@.len() ==> (#[trigger] list@[k]) < i && has_task(
                    windows@[list@[k] as int].deep_view(),
                    workspace,
                ),
            forall|j: int, k: int|
                0 <= j < k < list@.len() ==> (#[trigger] list@[j]) < (#[trigger] list@[k]),
            forall|n: usize|
                n < i && has_task(windows@[n as int].deep_view(), workspace)
                    ==> #[trigger] list@.contains(n),
        decreases windows@.len() - i,
    {
        if windows[i].parent.is_none() && windows[i].workspace == workspace {
            let ghost before = list@;
            list.push(i);
            assert(list@[before.len() as int] == i);
            assert forall|n: usize|
                n <= i && has_task(
                    windows@[n as int].deep_view(),
                    workspace,
                ) implies #[trigger] list@.contains(n) by {
                if n < i {
                    assert(before.contains(n));
                    let k = choose|k: int| 0 <= k < before.len() && before[k] == n;
                    assert(list@[k] == n);
                }
            }
        }
        i += 1;
    }
    list
}

/// A window that was hidden by its own task button does not keep the seat.
pub proof fn a_hidden_window_gives_up_the_seat(
    shell: ShellView,
    windows: Seq<WindowView>,
    id: u64,
)
    requires
        in_front(shell, windows, id),
    ensures
        clicked(shell, windows, id).0.focused != Some(id),
{
    let accepts = |w: WindowView|
        w.workspace == shell.workspace && !w.minimized && w.id != id;
    a_topmost_exists(windows, accepts);
    assert(below(windows, shell.workspace, id) == highest(windows, accepts));
}

/// A task button brings its window back or hides it. A window that is not in
/// front, or is hidden, is shown, raised, acked and given the seat. The one in
/// front is hidden, and of the others on its workspace that are not hidden the
/// topmost takes the seat; where there is none, nobody has it. Either way the
/// launcher closes and the workspace stays.
pub proof fn a_task_button_shows_or_hides_its_window(
    shell: ShellView,
    windows: Seq<WindowView>,
    id: u64,
    i: int,
)
    ensures
        ({
            let (after, effects) = clicked(shell, windows, id);
            let hidden = is_open(windows, id) && window_of(windows, id).minimized;
            let other = |w: WindowView|
                w.workspace == shell.workspace && !w.minimized && w.id != id;
            &&& !after.launcher_open && after.workspace == shell.workspace && after.alt_tab
                == shell.alt_tab
            &&& shell.focused != Some(id) || hidden ==> after.focused == shell.focused && effects
                == seq![
                EffectView::SetMinimized(id, false),
                EffectView::Raise(id),
                EffectView::Send(ClientMessageView::FramePresented { id: SurfaceId(id) }),
                EffectView::Send(ClientMessageView::Focus { id: SurfaceId(id) }),
            ]
            &&& shell.focused == Some(id) && !hidden && is_topmost(windows, other, i) ==> {
                &&& after.focused == Some(windows[i].id)
                &&& effects == seq![
                    EffectView::SetMinimized(id, true),
                    EffectView::Send(
                        ClientMessageView::Focus { id: SurfaceId(windows[i].id) },
                    ),
                ]
            }
            &&& shell.focused == Some(id) && !hidden && (forall|j: int|
                0 <= j < windows.len() ==> !other(#[trigger] windows[j])) ==> {
                &&& after.focused is None
                &&& effects == seq![EffectView::SetMinimized(id, true)]
            }
        }),
{
    let (after, effects) = clicked(shell, windows, id);
    let other = |w: WindowView| w.workspace == shell.workspace && !w.minimized && w.id != id;
    a_topmost_exists(windows, other);
    assert(below(windows, shell.workspace, id) == highest(windows, other));
    if !in_front(shell, windows, id) {
        assert(effects =~= seq![
            EffectView::SetMinimized(id, false),
            EffectView::Raise(id),
            EffectView::Send(ClientMessageView::FramePresented { id: SurfaceId(id) }),
            EffectView::Send(ClientMessageView::Focus { id: SurfaceId(id) }),
        ]);
    } else {
        if is_topmost(windows, other, i) {
            assert(top_of(windows, other, Some(windows[i].id)));
            the_topmost_is_one(windows, other, Some(windows[i].id), highest(windows, other));
        }
        if forall|j: int| 0 <= j < windows.len() ==> !other(#[trigger] windows[j]) {
            assert(top_of(windows, other, None));
            the_topmost_is_one(windows, other, None, highest(windows, other));
        }
    }
}

/// A window has a task button on its own workspace and on no other, hidden or not.
/// A menu has none anywhere.
pub proof fn a_window_has_its_task_on_its_workspace(
    windows: Vec<WindowState>,
    workspace: u32,
    list: Vec<usize>,
    i: usize,
)
    requires
        call_ensures(tasks, (&windows, workspace), list),
        i < windows@.len(),
    ensures
        list@.contains(i) <==> windows@[i as int].parent is None && windows@[i as int].workspace
            == workspace,
{
    if list@.contains(i) {
        let k = choose|k: int| 0 <= k < list@.len() && list@[k] == i;
        assert(has_task(windows@[list@[k] as int].deep_view(), workspace));
    }
}

} // verus!
