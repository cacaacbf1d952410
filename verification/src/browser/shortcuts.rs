//! Keys the shell keeps for itself: Alt+Tab, Alt+1..4, Alt+F4 and Alt+Shift+W.
//!
//! These never reach a client. Everything else does.

use crate::browser::event::{KeyEvent, KeyView};
use crate::browser::scene::{
    a_topmost_exists, close_effect, close_message, focus_effect, focus_message, highest,
    is_topmost, nothing, perform, presented_effect, presented_message, the_topmost_is_one, top_of,
    topmost, AltTabState, AltTabView, Effect, EffectView, Shell, ShellView, WindowState,
    WindowView,
};
use crate::geometry::SurfaceId;
use crate::protocol::messages::{ClientMessageView, Press};
use crate::text::{decimal, decimal_reads_back, decimal_value, format_decimal, same};
use vstd::prelude::*;

verus! {

/// Is this key, with these modifiers, one of the shell's own chords?
pub open spec fn is_chord(event: KeyView) -> bool {
    &&& event.alt
    &&& !event.ctrl
    &&& {
        ||| event.code == "Tab"@
        ||| event.code == "Digit1"@
        ||| event.code == "Digit2"@
        ||| event.code == "Digit3"@
        ||| event.code == "Digit4"@
        ||| event.code == "F4"@
        ||| event.shift && event.code == "KeyW"@
    }
}

/// Is this event one of the shell's own chords?
pub fn claims(event: &KeyEvent) -> (claimed: bool)
    ensures
        claimed == is_chord(event@),
{
    let code = event.code.as_str();
    event.alt && !event.ctrl && (same(code, "Tab") || same(code, "Digit1") || same(code, "Digit2")
        || same(code, "Digit3") || same(code, "Digit4") || same(code, "F4") || (event.shift && same(
        code,
        "KeyW",
    )))
}

/// A window put into a list that is ordered from the top down, behind those at
/// least as high.
pub open spec fn placed(list: Seq<WindowView>, window: WindowView) -> Seq<WindowView>
    decreases list.len(),
{
    if list.len() == 0 || list.last().z >= window.z {
        list.push(window)
    } else {
        placed(list.drop_last(), window).push(list.last())
    }
}

/// The windows on show on a workspace, from the top down; those equally high in
/// the order they are listed.
pub open spec fn stacked(windows: Seq<WindowView>, workspace: u32) -> Seq<WindowView>
    decreases windows.len(),
{
    if windows.len() == 0 {
        Seq::empty()
    } else {
        let before = stacked(windows.drop_last(), workspace);
        if windows.last().on_show(workspace) {
            placed(before, windows.last())
        } else {
            before
        }
    }
}

/// Putting a window in its place is inserting it at the right one.
proof fn placed_is_inserted(list: Seq<WindowView>, window: WindowView, at: int)
    requires
        0 <= at <= list.len(),
        forall|i: int| at <= i < list.len() ==> (#[trigger] list[i]).z < window.z,
        at == 0 || list[at - 1].z >= window.z,
    ensures
        placed(list, window) == list.insert(at, window),
    decreases list.len(),
{
    if at == list.len() {
        assert(list.insert(at, window) =~= list.push(window));
    } else {
        assert(list.last() == list[list.len() - 1]);
        assert forall|i: int| at <= i < list.drop_last().len() implies (
        #[trigger] list.drop_last()[i]).z < window.z by {
            assert(list.drop_last()[i] == list[i]);
        }
        placed_is_inserted(list.drop_last(), window, at);
        assert(list.insert(at, window) =~= list.drop_last().insert(at, window).push(list.last()));
    }
}

/// What the windows at these places are.
pub open spec fn picked(windows: Seq<WindowView>, order: Seq<usize>) -> Seq<WindowView> {
    order.map_values(|i: usize| windows[i as int])
}

/// The ids of a list of windows.
pub open spec fn ids_of(windows: Seq<WindowView>) -> Seq<u64> {
    windows.map_values(|w: WindowView| w.id)
}

/// The ids of the windows on show on a workspace, from the top down.
fn visible_ids(windows: &Vec<WindowState>, workspace: u32) -> (ids: Vec<u64>)
    ensures
        ids@ == ids_of(stacked(windows.deep_view(), workspace)),
{
    let ghost all = windows.deep_view();
    let mut order: Vec<usize> = Vec::new();
    let mut i: usize = 0;
    assert(picked(all, order@) =~= stacked(all.take(0), workspace));
    while i < windows.len()
        invariant
            all == windows.deep_view(),
            i <= windows@.len(),
            forall|k: int| 0 <= k < order@.len() ==> (#[trigger] order@[k]) < windows@.len(),
            picked(all, order@) == stacked(all.take(i as int), workspace),
        decreases windows@.len() - i,
    {
        let ghost list = picked(all, order@);
        let ghost next = all.take(i + 1);
        assert(all[i as int] == windows@[i as int].deep_view());
        assert(next.last() == all[i as int]);
        assert(next.drop_last() =~= all.take(i as int));
        if windows[i].is_on_show(workspace) {
            let z = windows[i].z;
            let mut at: usize = order.len();
            let mut lower = at > 0 && windows[order[at - 1]].z < z;
            while lower
                invariant
                    all == windows.deep_view(),
                    list == picked(all, order@),
                    at <= order@.len(),
                    forall|k: int|
                        0 <= k < order@.len() ==> (#[trigger] order@[k]) < windows@.len(),
                    forall|k: int| at <= k < order@.len() ==> (#[trigger] list[k]).z < z,
                    lower == (at > 0 && list[at - 1].z < z),
                decreases at,
            {
                at -= 1;
                assert(list[at as int] == all[order@[at as int] as int]);
                if at > 0 {
                    assert(list[at - 1] == all[order@[at - 1] as int]);
                    assert(all[order@[at - 1] as int]
                        == windows@[order@[at - 1] as int].deep_view());
                }
                lower = at > 0 && windows[order[at - 1]].z < z;
            }
            proof {
                placed_is_inserted(list, all[i as int], at as int);
            }
            order.insert(at, i);
            assert(picked(all, order@) =~= list.insert(at as int, all[i as int]));
        }
        i += 1;
    }
    assert(all.take(i as int) =~= all);
    let mut ids: Vec<u64> = Vec::new();
    let mut k: usize = 0;
    let ghost list = picked(all, order@);
    while k < order.len()
        invariant
            all == windows.deep_view(),
            list == picked(all, order@),
            k <= order@.len(),
            forall|j: int| 0 <= j < order@.len() ==> (#[trigger] order@[j]) < windows@.len(),
            ids@ =~= ids_of(list).take(k as int),
        decreases order@.len() - k,
    {
        assert(list[k as int] == all[order@[k as int] as int]);
        assert(all[order@[k as int] as int] == windows@[order@[k as int] as int].deep_view());
        ids.push(windows[order[k]].id);
        k += 1;
    }
    assert(ids@ =~= ids_of(list));
    ids
}

/// The switcher as it opens: the windows on show, and the one below the top
/// selected, so a single Alt+Tab swaps the two most recent windows rather than
/// reselecting the one already in front.
pub open spec fn opened(windows: Seq<WindowView>, workspace: u32) -> Option<AltTabView> {
    let ids = ids_of(stacked(windows, workspace));
    if ids.len() == 0 {
        None
    } else {
        Some(
            AltTabView {
                selected: if ids.len() > 1 {
                    1
                } else {
                    0
                },
                ids,
            },
        )
    }
}

/// The switcher one step further along, or back.
pub open spec fn stepped(state: AltTabView, backwards: bool) -> AltTabView {
    if state.ids.len() == 0 {
        state
    } else {
        let step = if backwards {
            state.ids.len() - 1
        } else {
            1
        };
        AltTabView { selected: (state.selected + step) % (state.ids.len() as int), ..state }
    }
}

/// The shell once Alt+Tab was pressed.
pub open spec fn switched(shell: ShellView, windows: Seq<WindowView>, backwards: bool) -> ShellView {
    ShellView {
        alt_tab: match shell.alt_tab {
            Some(state) => Some(stepped(state, backwards)),
            None => opened(windows, shell.workspace),
        },
        ..shell
    }
}

/// Open the switcher, or step the selection along it. Shift walks backwards.
pub fn alt_tab(shell: &mut Shell, windows: &Vec<WindowState>, backwards: bool)
    ensures
        final(shell)@ == switched(old(shell)@, windows.deep_view(), backwards),
{
    let mut open: Option<AltTabState> = None;
    std::mem::swap(&mut open, &mut shell.alt_tab);
    match open {
        Some(state) => {
            let len = state.window_ids.len();
            let selected = state.selected_index;
            let mut next: usize = selected;
            if len > 0 {
                let step: u128 = if backwards {
                    len as u128 - 1
                } else {
                    1
                };
                let moved: u128 = (selected as u128 + step) % (len as u128);
                next = moved as usize;
            }
            shell.alt_tab = Some(
                AltTabState { selected_index: next, window_ids: state.window_ids },
            );
        },
        None => {
            let ids = visible_ids(windows, shell.workspace);
            if ids.len() > 0 {
                let selected: usize = if ids.len() > 1 {
                    1
                } else {
                    0
                };
                shell.alt_tab = Some(AltTabState { selected_index: selected, window_ids: ids });
            }
        },
    }
    assert(shell@ =~= switched(old(shell)@, windows.deep_view(), backwards));
}

/// Ack a frame for a window being brought forward and hand it the seat.
pub open spec fn brought_forward(id: u64) -> Seq<EffectView> {
    seq![presented_message(id), focus_message(id)]
}

/// Ack a frame for a window being brought forward and hand it the seat. The ack
/// steps a throttled surface's frame clock straight out of its idle pace, so the
/// window the user just picked is not the one still showing a stale frame.
pub fn present_and_focus(id: u64) -> (effects: Vec<Effect>)
    ensures
        effects.deep_view() == brought_forward(id),
{
    let mut effects = nothing();
    perform(&mut effects, presented_effect(id));
    perform(&mut effects, focus_effect(id));
    assert(effects.deep_view() =~= brought_forward(id));
    effects
}

/// The window the switcher has selected.
pub open spec fn selection(state: Option<AltTabView>) -> Option<u64> {
    match state {
        Some(open) => if 0 <= open.selected < open.ids.len() {
            Some(open.ids[open.selected])
        } else {
            None
        },
        None => None,
    }
}

/// What committing the switcher's selection does.
pub open spec fn committed(shell: ShellView) -> Seq<EffectView> {
    match selection(shell.alt_tab) {
        Some(id) => seq![EffectView::Raise(id)] + brought_forward(id),
        None => Seq::empty(),
    }
}

/// Commit the switcher's selection, which is what releasing Alt means.
pub fn commit_alt_tab(shell: &mut Shell) -> (effects: Vec<Effect>)
    ensures
        final(shell)@ == (ShellView { alt_tab: None, ..old(shell)@ }),
        effects.deep_view() == committed(old(shell)@),
{
    let mut effects = nothing();
    let mut open: Option<AltTabState> = None;
    std::mem::swap(&mut open, &mut shell.alt_tab);
    if let Some(state) = open {
        if state.selected_index < state.window_ids.len() {
            let id = state.window_ids[state.selected_index];
            perform(&mut effects, Effect::Raise(id));
            perform(&mut effects, presented_effect(id));
            perform(&mut effects, focus_effect(id));
        }
    }
    assert(effects.deep_view() =~= committed(old(shell)@));
    assert(shell@ =~= (ShellView { alt_tab: None, ..old(shell)@ }));
    effects
}

/// The window that takes the seat on a workspace: whatever is on top there.
pub open spec fn top_on(windows: Seq<WindowView>, workspace: u32) -> Option<u64> {
    highest(windows, |w: WindowView| w.on_show(workspace))
}

/// What a workspace is called.
pub open spec fn workspace_label(workspace: u32) -> Seq<char> {
    "Workspace "@ + decimal((workspace + 1) as nat)
}

pub(crate) fn workspace_name(workspace: u32) -> (label: String)
    ensures
        label@ == workspace_label(workspace),
{
    let mut label = "Workspace ".to_string();
    label.append(format_decimal(workspace as u64 + 1).as_str());
    label
}

/// What switching to a workspace does.
pub open spec fn arrived(windows: Seq<WindowView>, workspace: u32) -> Seq<EffectView> {
    let toast = EffectView::Toast(workspace_label(workspace));
    match top_on(windows, workspace) {
        Some(id) => seq![toast, focus_message(id)],
        None => seq![toast],
    }
}

/// A workspace is a filter over windows the browser already holds: all that the
/// keystroke itself tells the compositor is who has the seat there.
pub proof fn switching_only_moves_the_seat(windows: Seq<WindowView>, workspace: u32, i: int)
    requires
        0 <= i < arrived(windows, workspace).len(),
        arrived(windows, workspace)[i] is Send,
    ensures
        top_on(windows, workspace) is Some,
        arrived(windows, workspace)[i] == focus_message(top_on(windows, workspace)->0),
{
}

/// Show a workspace. Whatever is on top there takes the seat; an empty workspace
/// focuses nothing, which is what the compositor is told by saying nothing.
pub fn switch_workspace(
    shell: &mut Shell,
    windows: &Vec<WindowState>,
    workspace: u32,
) -> (effects: Vec<Effect>)
    ensures
        final(shell)@ == (ShellView {
            workspace,
            focused: top_on(windows.deep_view(), workspace),
            ..old(shell)@
        }),
        effects.deep_view() == arrived(windows.deep_view(), workspace),
{
    let mut effects = nothing();
    perform(&mut effects, Effect::Toast(workspace_name(workspace)));
    let rule = |w: &WindowState| -> (answer: bool)
        ensures
            answer == w.deep_view().on_show(workspace),
        { w.is_on_show(workspace) };
    let ghost accepts = |w: WindowView| w.on_show(workspace);
    let top = topmost(windows, Ghost(accepts), rule);
    shell.workspace = workspace;
    shell.focused = top;
    if let Some(id) = top {
        perform(&mut effects, focus_effect(id));
    }
    assert(effects.deep_view() =~= arrived(windows.deep_view(), workspace));
    assert(shell@ =~= (ShellView {
        workspace,
        focused: top_on(windows.deep_view(), workspace),
        ..old(shell)@
    }));
    effects
}

/// The workspace a chord names.
pub open spec fn chord_workspace(code: Seq<char>) -> Option<u32> {
    if code == "Digit1"@ {
        Some(0)
    } else if code == "Digit2"@ {
        Some(1)
    } else if code == "Digit3"@ {
        Some(2)
    } else if code == "Digit4"@ {
        Some(3)
    } else {
        None
    }
}

/// The shell and the effects once a chord was acted on.
pub open spec fn acted(
    shell: ShellView,
    windows: Seq<WindowView>,
    event: KeyView,
    press: Press,
) -> (ShellView, Seq<EffectView>) {
    if press != Press::Down {
        (shell, Seq::empty())
    } else if event.code == "Tab"@ {
        (switched(shell, windows, event.shift), Seq::empty())
    } else {
        match chord_workspace(event.code) {
            Some(workspace) => (
                ShellView { workspace, focused: top_on(windows, workspace), ..shell },
                arrived(windows, workspace),
            ),
            None => (
                shell,
                match shell.focused {
                    Some(id) => seq![close_message(id)],
                    None => Seq::empty(),
                },
            ),
        }
    }
}

/// Act on a chord. Only the press does anything; the release is swallowed so the
/// client never sees half a chord.
pub fn handle(
    shell: &mut Shell,
    windows: &Vec<WindowState>,
    event: &KeyEvent,
    press: Press,
) -> (effects: Vec<Effect>)
    ensures
        (final(shell)@, effects.deep_view()) == acted(
            old(shell)@,
            windows.deep_view(),
            event@,
            press,
        ),
{
    if press != Press::Down {
        return nothing();
    }
    let code = event.code.as_str();
    if same(code, "Tab") {
        alt_tab(shell, windows, event.shift);
        return nothing();
    }
    if same(code, "Digit1") {
        return switch_workspace(shell, windows, 0);
    }
    if same(code, "Digit2") {
        return switch_workspace(shell, windows, 1);
    }
    if same(code, "Digit3") {
        return switch_workspace(shell, windows, 2);
    }
    if same(code, "Digit4") {
        return switch_workspace(shell, windows, 3);
    }
    let mut effects = nothing();
    if let Some(id) = shell.focused {
        perform(&mut effects, close_effect(id));
    }
    assert(effects.deep_view() =~= acted(old(shell)@, windows.deep_view(), event@, press).1);
    effects
}

proof fn placed_keeps_order(list: Seq<WindowView>, window: WindowView)
    requires
        forall|i: int, j: int|
            0 <= i < j < list.len() ==> (#[trigger] list[i]).z >= (#[trigger] list[j]).z,
    ensures
        placed(list, window).len() == list.len() + 1,
        placed(list, window).to_multiset() == list.to_multiset().insert(window),
        forall|i: int, j: int|
            0 <= i < j < placed(list, window).len() ==> (#[trigger] placed(list, window)[i]).z >= (
            #[trigger] placed(list, window)[j]).z,
        forall|i: int|
            0 <= i < placed(list, window).len() ==> (#[trigger] placed(list, window)[i]).z
                == window.z || list.contains(placed(list, window)[i]),
    decreases list.len(),
{
    broadcast use vstd::seq_lib::group_to_multiset_ensures;

    if list.len() == 0 || list.last().z >= window.z {
        assert(forall|i: int| 0 <= i < list.len() ==> list.push(window)[i] == list[i]);
        assert(forall|i: int| 0 <= i < list.len() ==> list.contains(list[i]));
        if list.len() > 0 {
            assert(list.last() == list[list.len() - 1]);
        }
    } else {
        let front = list.drop_last();
        let last = list.last();
        assert(last == list[list.len() - 1]);
        assert(forall|i: int| 0 <= i < front.len() ==> front[i] == list[i]);
        placed_keeps_order(front, window);
        let all = placed(front, window);
        assert(list =~= front.push(last));
        assert(all.push(last).to_multiset() =~= list.to_multiset().insert(window));
        assert forall|i: int| 0 <= i < all.len() implies (#[trigger] all[i]).z >= last.z by {
            if front.contains(all[i]) {
                let k = choose|k: int| 0 <= k < front.len() && front[k] == all[i];
                assert(list[k].z >= list[list.len() - 1].z);
            }
        }
        assert forall|i: int| 0 <= i < placed(list, window).len() implies (
        #[trigger] placed(list, window)[i]).z == window.z || list.contains(
            placed(list, window)[i],
        ) by {
            if i < all.len() {
                if front.contains(all[i]) {
                    let k = choose|k: int| 0 <= k < front.len() && front[k] == all[i];
                    assert(list[k] == all[i]);
                }
            } else {
                assert(list[list.len() - 1] == last);
            }
        }
    }
}

/// The switcher shows the highest window first: it lists the windows on show on
/// the workspace, every one of them once, from the top down.
pub proof fn the_switcher_lists_from_the_top(windows: Seq<WindowView>, workspace: u32)
    ensures
        stacked(windows, workspace).to_multiset() == windows.filter(
            |w: WindowView| w.on_show(workspace),
        ).to_multiset(),
        forall|i: int, j: int|
            0 <= i < j < stacked(windows, workspace).len() ==> (#[trigger] stacked(
                windows,
                workspace,
            )[i]).z >= (#[trigger] stacked(windows, workspace)[j]).z,
    decreases windows.len(),
{
    broadcast use vstd::seq_lib::group_to_multiset_ensures;

    reveal(Seq::filter);
    if windows.len() > 0 {
        the_switcher_lists_from_the_top(windows.drop_last(), workspace);
        if windows.last().on_show(workspace) {
            placed_keeps_order(stacked(windows.drop_last(), workspace), windows.last());
        }
    }
}

/// A step back along the switcher undoes a step forward, and the other way
/// round; the selection is always one of the windows offered.
pub proof fn a_step_back_undoes_a_step(state: AltTabView, backwards: bool)
    requires
        0 <= state.selected < state.ids.len(),
    ensures
        stepped(stepped(state, backwards), !backwards) == state,
        0 <= stepped(state, backwards).selected < state.ids.len(),
{
    let n = state.ids.len() as int;
    let i = state.selected;
    assert(i % n == i) by (nonlinear_arith)
        requires
            0 <= i < n,
    ;
    if i + 1 < n {
        assert((i + 1) % n == i + 1) by (nonlinear_arith)
            requires
                0 <= i,
                i + 1 < n,
        ;
        assert((i + 1 + (n - 1)) % n == i) by {
            vstd::arithmetic::div_mod::lemma_mod_add_multiples_vanish(i, n);
        }
    } else {
        assert((i + 1) % n == 0) by {
            vstd::arithmetic::div_mod::lemma_mod_self_0(n);
        }
        assert((0 + (n - 1)) % n == n - 1) by (nonlinear_arith)
            requires
                n > 0,
        ;
    }
    if i > 0 {
        assert((i + (n - 1)) % n == i - 1) by {
            vstd::arithmetic::div_mod::lemma_mod_add_multiples_vanish(i - 1, n);
            assert((i - 1) % n == i - 1) by (nonlinear_arith)
                requires
                    0 < i < n,
            ;
        }
        assert((i - 1 + 1) % n == i) by (nonlinear_arith)
            requires
                0 <= i < n,
        ;
    } else {
        assert((n - 1) % n == n - 1) by (nonlinear_arith)
            requires
                n > 0,
        ;
        assert((n - 1 + 1) % n == 0) by {
            vstd::arithmetic::div_mod::lemma_mod_self_0(n);
        }
    }
    assert(stepped(stepped(state, backwards), !backwards) =~= state);
}

/// One Alt+Tab, let go of at once, swaps the two most recent windows: it brings
/// forward the window just below the top, or the only one there is.
pub proof fn a_single_alt_tab_swaps(shell: ShellView, windows: Seq<WindowView>, backwards: bool)
    requires
        shell.alt_tab is None,
        stacked(windows, shell.workspace).len() > 0,
    ensures
        ({
            let list = stacked(windows, shell.workspace);
            let below = if list.len() > 1 {
                list[1].id
            } else {
                list[0].id
            };
            committed(switched(shell, windows, backwards)) == seq![EffectView::Raise(below)]
                + brought_forward(below)
        }),
{
}

/// A chord does nothing as it is let go, so a client never sees half of one.
/// Pressed, Tab walks the switcher and tells nobody; a digit leaves the switcher
/// alone; anything else asks the window that has the seat to close, and changes
/// nothing of the shell.
pub proof fn a_chord_acts_once(shell: ShellView, windows: Seq<WindowView>, event: KeyView)
    ensures
        acted(shell, windows, event, Press::Up) == (shell, Seq::<EffectView>::empty()),
        ({
            let (after, effects) = acted(shell, windows, event, Press::Down);
            &&& event.code == "Tab"@ ==> effects.len() == 0 && after == switched(
                shell,
                windows,
                event.shift,
            )
            &&& event.code != "Tab"@ ==> after.alt_tab == shell.alt_tab
            &&& event.code == "F4"@ || event.code == "KeyW"@ ==> after == shell && effects == (
            match shell.focused {
                Some(id) => seq![
                    EffectView::Send(ClientMessageView::CloseSurface { id: SurfaceId(id) }),
                ],
                None => Seq::empty(),
            })
        }),
{
    reveal_strlit("Tab");
    reveal_strlit("F4");
    reveal_strlit("KeyW");
    reveal_strlit("Digit1");
    reveal_strlit("Digit2");
    reveal_strlit("Digit3");
    reveal_strlit("Digit4");
    assert("Tab"@.len() == 3 && "F4"@.len() == 2 && "KeyW"@.len() == 4);
    assert("Digit1"@.len() == 6 && "Digit2"@.len() == 6 && "Digit3"@.len() == 6 && "Digit4"@.len()
        == 6);
}

/// Alt and the digit `n` show the `n`th workspace, and whatever window lies on
/// top there takes the seat; where there is none, nobody has it.
pub proof fn a_digit_shows_its_workspace(
    shell: ShellView,
    windows: Seq<WindowView>,
    event: KeyView,
    n: u32,
    i: int,
)
    requires
        1 <= n <= 4,
        event.code == "Digit"@ + decimal(n as nat),
    ensures
        ({
            let (after, effects) = acted(shell, windows, event, Press::Down);
            let here = |w: WindowView| w.parent is None && w.workspace == n - 1 && !w.minimized;
            &&& after.workspace == n - 1
            &&& after.launcher_open == shell.launcher_open
            &&& is_topmost(windows, here, i) ==> after.focused == Some(windows[i].id)
                && effects.last() == EffectView::Send(
                ClientMessageView::Focus { id: SurfaceId(windows[i].id) },
            ) && effects.len() == 2
            &&& (forall|j: int| 0 <= j < windows.len() ==> !here(#[trigger] windows[j]))
                ==> after.focused is None && effects.len() == 1
            &&& effects[0] == EffectView::Toast("Workspace "@ + decimal(n as nat))
        }),
{
    reveal_strlit("Tab");
    reveal_strlit("Digit");
    reveal_strlit("Digit1");
    reveal_strlit("Digit2");
    reveal_strlit("Digit3");
    reveal_strlit("Digit4");
    let code = event.code;
    assert(decimal(n as nat) =~= seq![(n + '0' as nat) as char]);
    assert(code.len() == 6);
    assert(code[5] == (n + '0' as nat) as char);
    if n == 1 {
        assert(code =~= "Digit1"@);
    } else if n == 2 {
        assert(code =~= "Digit2"@);
        assert("Digit1"@[5] != code[5]);
    } else if n == 3 {
        assert(code =~= "Digit3"@);
        assert("Digit1"@[5] != code[5]);
        assert("Digit2"@[5] != code[5]);
    } else {
        assert(code =~= "Digit4"@);
        assert("Digit1"@[5] != code[5]);
        assert("Digit2"@[5] != code[5]);
        assert("Digit3"@[5] != code[5]);
    }
    assert("Tab"@.len() == 3);
    let workspace = (n - 1) as u32;
    assert(chord_workspace(code) == Some(workspace));
    let here = |w: WindowView| w.parent is None && w.workspace == n - 1 && !w.minimized;
    let accepts = |w: WindowView| w.on_show(workspace);
    assert(here =~= accepts);
    a_topmost_exists(windows, accepts);
    if is_topmost(windows, here, i) {
        assert(top_of(windows, accepts, Some(windows[i].id)));
        the_topmost_is_one(windows, accepts, Some(windows[i].id), highest(windows, accepts));
    }
    if forall|j: int| 0 <= j < windows.len() ==> !here(#[trigger] windows[j]) {
        assert forall|j: int| 0 <= j < windows.len() implies !accepts(#[trigger] windows[j]) by {
            assert(!here(windows[j]));
        }
        assert(top_of(windows, accepts, None));
        the_topmost_is_one(windows, accepts, None, highest(windows, accepts));
    }
}

/// Each further Alt+Tab selects the next window down and, with shift, the next
/// one up, round the end either way; the windows offered stay the same.
pub proof fn a_step_goes_to_the_next_window(state: AltTabView)
    requires
        0 <= state.selected < state.ids.len(),
    ensures
        stepped(state, false).ids == state.ids && stepped(state, true).ids == state.ids,
        stepped(state, false).selected == (if state.selected + 1 < state.ids.len() {
            state.selected + 1
        } else {
            0
        }),
        stepped(state, true).selected == (if state.selected > 0 {
            state.selected - 1
        } else {
            state.ids.len() - 1
        }),
{
    let n = state.ids.len() as int;
    let i = state.selected;
    if i + 1 < n {
        vstd::arithmetic::div_mod::lemma_small_mod((i + 1) as nat, n as nat);
    } else {
        vstd::arithmetic::div_mod::lemma_mod_self_0(n);
    }
    if i > 0 {
        vstd::arithmetic::div_mod::lemma_mod_add_multiples_vanish(i - 1, n);
        vstd::arithmetic::div_mod::lemma_small_mod((i - 1) as nat, n as nat);
    } else {
        vstd::arithmetic::div_mod::lemma_small_mod((n - 1) as nat, n as nat);
    }
}

/// Committing brings the selected window to the front, acks a frame for it and
/// hands it the seat, in that order, and nothing else; with nothing selected it
/// does nothing.
pub proof fn committing_brings_the_selection_forward(shell: ShellView)
    ensures
        match shell.alt_tab {
            Some(open) => if 0 <= open.selected < open.ids.len() {
                let id = open.ids[open.selected];
                committed(shell) == seq![
                    EffectView::Raise(id),
                    EffectView::Send(ClientMessageView::FramePresented { id: SurfaceId(id) }),
                    EffectView::Send(ClientMessageView::Focus { id: SurfaceId(id) }),
                ]
            } else {
                committed(shell).len() == 0
            },
            None => committed(shell).len() == 0,
        },
{
    if let Some(open) = shell.alt_tab {
        if 0 <= open.selected < open.ids.len() {
            let id = open.ids[open.selected];
            assert(committed(shell) =~= seq![
                EffectView::Raise(id),
                EffectView::Send(ClientMessageView::FramePresented { id: SurfaceId(id) }),
                EffectView::Send(ClientMessageView::Focus { id: SurfaceId(id) }),
            ]);
        }
    }
}

/// The shell never keeps a key that was pressed with control, nor one without
/// alt: those are the application's.
pub proof fn only_alt_makes_a_chord(event: KeyView)
    ensures
        !event.alt || event.ctrl ==> !is_chord(event),
        event.alt && !event.ctrl && (event.code == "Tab"@ || event.code == "F4"@) ==> is_chord(
            event,
        ),
        event.alt && !event.ctrl && event.code == "KeyW"@ ==> (is_chord(event) <==> event.shift),
        event.alt && !event.ctrl && (exists|n: nat|
            1 <= n <= 4 && event.code == "Digit"@ + #[trigger] decimal(n)) ==> is_chord(event),
{
    reveal_strlit("Tab");
    reveal_strlit("F4");
    reveal_strlit("KeyW");
    reveal_strlit("Digit");
    reveal_strlit("Digit1");
    reveal_strlit("Digit2");
    reveal_strlit("Digit3");
    reveal_strlit("Digit4");
    assert("Tab"@.len() == 3 && "F4"@.len() == 2 && "KeyW"@.len() == 4);
    assert("Digit1"@.len() == 6 && "Digit2"@.len() == 6 && "Digit3"@.len() == 6 && "Digit4"@.len()
        == 6);
    if exists|n: nat| 1 <= n <= 4 && event.code == "Digit"@ + #[trigger] decimal(n) {
        let n = choose|n: nat| 1 <= n <= 4 && event.code == "Digit"@ + #[trigger] decimal(n);
        assert(decimal(n) =~= seq![(n + '0' as nat) as char]);
        assert(event.code[5] == (n + '0' as nat) as char);
        if n == 1 {
            assert(event.code =~= "Digit1"@);
        } else if n == 2 {
            assert(event.code =~= "Digit2"@);
        } else if n == 3 {
            assert(event.code =~= "Digit3"@);
        } else {
            assert(event.code =~= "Digit4"@);
        }
    }
}

/// A workspace is called by its number, and they are counted from one.
pub proof fn workspaces_are_counted_from_one(workspace: u32)
    ensures
        workspace_label(workspace).take("Workspace "@.len() as int) == "Workspace "@,
        decimal_value(workspace_label(workspace).skip("Workspace "@.len() as int)) == workspace + 1,
{
    decimal_reads_back((workspace + 1) as nat);
    let label = workspace_label(workspace);
    let front = "Workspace "@;
    assert(label.take(front.len() as int) =~= front);
    assert(label.skip(front.len() as int) =~= decimal((workspace + 1) as nat));
}

} // verus!
