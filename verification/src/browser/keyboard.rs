//! Keyboard input, and which of it reaches an application.
//!
//! The compositor derives modifier state from key events alone, exactly as a
//! real keyboard would, so what is held down is kept here and brought into
//! agreement with the browser before every key.

use crate::browser::clipboard::{flushed, is_paste, pasted, pastes, PendingPaste};
use crate::browser::event::{aimed_at_shell, takes_text, KeyEvent, KeyView, ModifierStates};
use crate::browser::keymap::{
    evdev_key, is_modifier, keycode_of, modifier_at, modifier_codes, Modifier, MODIFIERS,
};
use crate::browser::scene::{
    key_effect, key_message, nothing, perform, Effect, EffectView, Shell, ShellView, WindowState,
    WindowView,
};
use crate::browser::shortcuts::{
    acted, claims, commit_alt_tab, committed, handle, is_chord,
};
use crate::protocol::messages::{ClientMessageView, InputEvent, Press};
use crate::text::same;
use vstd::prelude::*;

verus! {

/// What the compositor currently believes is held down, and the key that waits
/// for a paste.
#[derive(Debug)]
pub struct Keyboard {
    pub held: Vec<u32>,
    pub pending: Option<PendingPaste>,
}

/// What a [`Keyboard`] says.
#[verifier::ext_equal]
pub struct KeyboardView {
    pub held: Seq<u32>,
    pub pending: Option<PendingPaste>,
}

impl View for Keyboard {
    type V = KeyboardView;

    open spec fn view(&self) -> KeyboardView {
        KeyboardView { held: self.held@, pending: self.pending }
    }
}

/// Does the event speak for this modifier itself? The key it is about does, and
/// with `AltGr` held alt and control say nothing: a platform without a level-3
/// key spells it as the two of them.
pub open spec fn spoken_for(modifier: Modifier, keycode: u32, states: ModifierStates) -> bool {
    ||| modifier_codes(modifier).contains(keycode)
    ||| states.alt_graph && (modifier == Modifier::Alt || modifier == Modifier::Control)
}

/// Is any key of this modifier among those held?
pub open spec fn is_held(modifier: Modifier, held: Seq<u32>) -> bool {
    exists|i: int| 0 <= i < held.len() && modifier_codes(modifier).contains(#[trigger] held[i])
}

/// The held keys that produce this modifier.
pub open spec fn down_keys(modifier: Modifier, held: Seq<u32>) -> Seq<u32> {
    held.filter(|code: u32| modifier_codes(modifier).contains(code))
}

/// The held keys that do not.
pub open spec fn other_keys(modifier: Modifier, held: Seq<u32>) -> Seq<u32> {
    held.filter(|code: u32| !modifier_codes(modifier).contains(code))
}

/// Letting go of keys, one after the other.
pub open spec fn releases(codes: Seq<u32>) -> Seq<EffectView> {
    codes.map_values(|code: u32| key_message(code, Press::Up))
}

/// The keys held, and the events sent, once one modifier is in agreement.
///
/// A missing modifier is pressed by its left-hand key; the client cannot tell
/// which. One too many is released by whichever keys are actually down: letting
/// go of the left-hand one while the right-hand one is held would leave the
/// modifier stuck.
pub open spec fn agreed(
    modifier: Modifier,
    keycode: u32,
    states: ModifierStates,
    held: Seq<u32>,
) -> (Seq<u32>, Seq<EffectView>) {
    if spoken_for(modifier, keycode, states) || states.holds(modifier) == is_held(modifier, held) {
        (held, Seq::empty())
    } else if states.holds(modifier) {
        let left = modifier_codes(modifier)[0];
        (held.push(left), seq![key_message(left, Press::Down)])
    } else {
        (other_keys(modifier, held), releases(down_keys(modifier, held)))
    }
}

/// The keys held, and the events sent, once the first `n` modifiers are in
/// agreement.
pub open spec fn reconciled(
    n: int,
    keycode: u32,
    states: ModifierStates,
    held: Seq<u32>,
) -> (Seq<u32>, Seq<EffectView>)
    decreases n,
{
    if n <= 0 {
        (held, Seq::empty())
    } else {
        let before = reconciled(n - 1, keycode, states, held);
        let step = agreed(modifier_at(n - 1), keycode, states, before.0);
        (step.0, before.1 + step.1)
    }
}

/// The held keys but this one.
pub open spec fn without(held: Seq<u32>, keycode: u32) -> Seq<u32> {
    held.filter(|code: u32| code != keycode)
}

/// The keys held once one was pressed or let go: modifiers are remembered, every
/// other key is not.
pub open spec fn holding(held: Seq<u32>, keycode: u32, press: Press) -> Seq<u32> {
    if !is_modifier(keycode) {
        held
    } else {
        if press == Press::Down {
            without(held, keycode).push(keycode)
        } else {
            without(held, keycode)
        }
    }
}

/// Letting go of everything that is held.
pub open spec fn let_go(held: Seq<u32>) -> Seq<EffectView> {
    releases(held)
}

/// Saying that none of the first `n` modifiers is held.
pub open spec fn plugged_in(n: int) -> Seq<EffectView>
    decreases n,
{
    if n <= 0 {
        Seq::empty()
    } else {
        plugged_in(n - 1) + releases(modifier_codes(modifier_at(n - 1)))
    }
}

/// Is this the press of a key that a paste is waiting for?
pub open spec fn defers(event: KeyView, press: Press) -> bool {
    pastes(event) && press == Press::Down
}

/// What a key that belongs to the application does.
pub open spec fn forwarded(
    keyboard: KeyboardView,
    event: KeyView,
    press: Press,
    keycode: u32,
) -> (KeyboardView, Seq<EffectView>) {
    let (held, sent) = reconciled(MODIFIERS as int, keycode, event.states, keyboard.held);
    if defers(event, press) {
        (
            KeyboardView {
                held: holding(held, keycode, Press::Down),
                pending: Some(PendingPaste { keycode }),
            },
            seq![EffectView::InputSent] + sent + seq![EffectView::ArmPaste],
        )
    } else {
        let kept = if pastes(event) {
            Seq::empty()
        } else {
            seq![EffectView::PreventDefault]
        };
        let timed = if press == Press::Down {
            seq![EffectView::InputSent]
        } else {
            Seq::empty()
        };
        (
            KeyboardView { held: holding(held, keycode, press), pending: keyboard.pending },
            kept + timed + sent + seq![key_message(keycode, press)],
        )
    }
}

/// Does letting go of this key commit the switcher?
pub open spec fn commits(event: KeyView, press: Press) -> bool {
    press == Press::Up && (event.code == "AltLeft"@ || event.code == "AltRight"@)
}

/// What one key event does, to the keyboard, to the shell, and besides.
pub open spec fn handled(
    keyboard: KeyboardView,
    shell: ShellView,
    windows: Seq<WindowView>,
    event: KeyView,
    press: Press,
) -> (KeyboardView, ShellView, Seq<EffectView>) {
    if takes_text(event.target_tag) {
        (keyboard, shell, Seq::empty())
    } else if shell.launcher_open {
        if event.key == "Escape"@ {
            (
                keyboard,
                ShellView { launcher_open: false, ..shell },
                seq![EffectView::PreventDefault],
            )
        } else {
            (keyboard, shell, seq![EffectView::FocusSearch, EffectView::PreventDefault])
        }
    } else if event.code == "Escape"@ && shell.alt_tab is Some {
        (keyboard, ShellView { alt_tab: None, ..shell }, seq![EffectView::PreventDefault])
    } else {
        let (open, first) = if commits(event, press) {
            (ShellView { alt_tab: None, ..shell }, committed(shell))
        } else {
            (shell, Seq::empty())
        };
        if is_chord(event) {
            let (after, effects) = acted(open, windows, event, press);
            (keyboard, after, first + seq![EffectView::PreventDefault] + effects)
        } else {
            match keycode_of(event.code) {
                Some(keycode) => {
                    let (after, effects) = forwarded(keyboard, event, press, keycode);
                    (after, open, first + effects)
                },
                None => (keyboard, open, first),
            }
        }
    }
}

/// One list of effects behind another.
fn follow_with(effects: &mut Vec<Effect>, more: Vec<Effect>)
    ensures
        final(effects).deep_view() == old(effects).deep_view() + more.deep_view(),
{
    let mut more = more;
    let ghost before = effects.deep_view();
    let ghost rest = more.deep_view();
    effects.append(&mut more);
    assert(effects.deep_view() =~= before + rest);
}

/// Hold the keys that a rule of this modifier keeps, and say which go.
fn release_down(held: &mut Vec<u32>, modifier: Modifier, effects: &mut Vec<Effect>)
    ensures
        final(held)@ == other_keys(modifier, old(held)@),
        final(effects).deep_view() == old(effects).deep_view() + releases(
            down_keys(modifier, old(held)@),
        ),
{
    let ghost before = effects.deep_view();
    let ghost all = held@;
    let mut kept: Vec<u32> = Vec::new();
    let mut i: usize = 0;
    proof {
        reveal(Seq::filter);
        assert(before =~= before + releases(down_keys(modifier, all.take(0))));
    }
    while i < held.len()
        invariant
            held@ == all,
            i <= all.len(),
            kept@ == other_keys(modifier, all.take(i as int)),
            effects.deep_view() == before + releases(down_keys(modifier, all.take(i as int))),
        decreases all.len() - i,
    {
        let code = held[i];
        let ghost next = all.take(i + 1);
        proof {
            reveal(Seq::filter);
            assert(next.drop_last() =~= all.take(i as int));
            assert(next.last() == code);
        }
        if modifier.has(code) {
            let ghost sent = effects.deep_view();
            perform(effects, key_effect(code, Press::Up));
            assert(down_keys(modifier, next) == down_keys(modifier, all.take(i as int)).push(code));
            assert(effects.deep_view() =~= before + releases(down_keys(modifier, next)));
        } else {
            kept.push(code);
        }
        i += 1;
    }
    assert(all.take(i as int) =~= all);
    *held = kept;
}

fn any_held(held: &Vec<u32>, modifier: Modifier) -> (found: bool)
    ensures
        found == is_held(modifier, held@),
{
    let mut i: usize = 0;
    while i < held.len()
        invariant
            i <= held@.len(),
            forall|j: int|
                0 <= j < i ==> !modifier_codes(modifier).contains(#[trigger] held@[j]),
        decreases held@.len() - i,
    {
        if modifier.has(held[i]) {
            return true;
        }
        i += 1;
    }
    false
}

impl Keyboard {
    /// A keyboard that has just been plugged in.
    pub fn new() -> (keyboard: Self)
        ensures
            keyboard@ == (KeyboardView { held: Seq::empty(), pending: None }),
    {
        Keyboard { held: Vec::new(), pending: None }
    }

    /// Send whatever key events the compositor needs to agree with the browser
    /// about which modifiers are held.
    ///
    /// Without this a chord only works if the modifier's own keydown was seen,
    /// which is not something to rely on: the browser eats some of them, focus
    /// can arrive mid-chord, and a synthesised event may carry a modifier with no
    /// key of its own. The symptom is a modifier that silently does nothing, or
    /// worse, one that stays stuck down afterwards.
    pub fn reconcile_modifiers(&mut self, states: ModifierStates, keycode: u32) -> (effects: Vec<
        Effect,
    >)
        ensures
            final(self).pending == old(self).pending,
            (final(self).held@, effects.deep_view()) == reconciled(
                MODIFIERS as int,
                keycode,
                states,
                old(self).held@,
            ),
    {
        let mut effects = nothing();
        let mut i: usize = 0;
        let ghost start = self.held@;
        while i < MODIFIERS
            invariant
                i <= MODIFIERS,
                self.pending == old(self).pending,
                (self.held@, effects.deep_view()) == reconciled(
                    i as int,
                    keycode,
                    states,
                    start,
                ),
            decreases MODIFIERS - i,
        {
            let modifier = Modifier::at(i);
            let ghost before = (self.held@, effects.deep_view());
            let ghost step = agreed(modifier, keycode, states, self.held@);
            let silent = modifier.has(keycode) || (states.alt_graph && (modifier == Modifier::Alt
                || modifier == Modifier::Control));
            let wanted = states.state(modifier);
            let current = any_held(&self.held, modifier);
            if !silent && wanted != current {
                if wanted {
                    let left = modifier.codes()[0];
                    perform(&mut effects, key_effect(left, Press::Down));
                    self.held.push(left);
                } else {
                    release_down(&mut self.held, modifier, &mut effects);
                }
            }
            assert(effects.deep_view() =~= before.1 + step.1);
            i += 1;
        }
        effects
    }

    /// Record a modifier as held or released, ignoring every other key.
    pub fn hold(&mut self, keycode: u32, press: Press)
        ensures
            final(self).pending == old(self).pending,
            final(self).held@ == holding(old(self).held@, keycode, press),
    {
        let known = Modifier::Shift.has(keycode) || Modifier::Control.has(keycode)
            || Modifier::Alt.has(keycode) || Modifier::AltGraph.has(keycode) || Modifier::Meta.has(
            keycode,
        );
        proof {
            if is_modifier(keycode) {
                let m = choose|m: Modifier| #[trigger] modifier_codes(m).contains(keycode);
                match m {
                    Modifier::Shift => {},
                    Modifier::Control => {},
                    Modifier::Alt => {},
                    Modifier::AltGraph => {},
                    Modifier::Meta => {},
                }
            }
        }
        if !known {
            return ;
        }
        let ghost all = self.held@;
        let mut kept: Vec<u32> = Vec::new();
        let mut i: usize = 0;
        proof {
            reveal(Seq::filter);
        }
        while i < self.held.len()
            invariant
                self.held@ == all,
                self.pending == old(self).pending,
                i <= all.len(),
                kept@ == without(all.take(i as int), keycode),
            decreases all.len() - i,
        {
            let code = self.held[i];
            proof {
                reveal(Seq::filter);
                assert(all.take(i + 1).drop_last() =~= all.take(i as int));
                assert(all.take(i + 1).last() == code);
            }
            if code != keycode {
                kept.push(code);
            }
            i += 1;
        }
        assert(all.take(i as int) =~= all);
        if press == Press::Down {
            kept.push(keycode);
        }
        self.held = kept;
    }

    /// A page that loses focus stops being told about keys, so whatever was held
    /// when it went away would never be released: from then on every keystroke
    /// would reach the client as a chord. Let go of it all on the way out, which
    /// is the one moment the browser still tells the page about. The switcher
    /// closes with it.
    pub fn blur(&mut self, shell: &mut Shell) -> (effects: Vec<Effect>)
        ensures
            final(self)@ == (KeyboardView { held: Seq::empty(), ..old(self)@ }),
            final(shell)@ == (ShellView { alt_tab: None, ..old(shell)@ }),
            effects.deep_view() == let_go(old(self).held@),
    {
        let mut effects = nothing();
        let ghost all = self.held@;
        let mut i: usize = 0;
        while i < self.held.len()
            invariant
                self.held@ == all,
                self.pending == old(self).pending,
                i <= all.len(),
                effects.deep_view() =~= releases(all.take(i as int)),
            decreases all.len() - i,
        {
            perform(&mut effects, key_effect(self.held[i], Press::Up));
            assert(all.take(i + 1) =~= all.take(i as int).push(all[i as int]));
            i += 1;
        }
        assert(all.take(i as int) =~= all);
        self.held = Vec::new();
        shell.alt_tab = None;
        assert(self@ =~= (KeyboardView { held: Seq::empty(), ..old(self)@ }));
        assert(shell@ =~= (ShellView { alt_tab: None, ..old(shell)@ }));
        effects
    }

    /// What a key that belongs to the application does.
    ///
    /// The browser must not also act on it; arrows and space scroll the page, tab
    /// walks the shell's own buttons, and `/` opens a find bar. Paste is the
    /// exception: the browser must be allowed to run its default handling so the
    /// paste event fires. On the press of a paste chord the key event itself is
    /// deferred: the text goes first.
    fn forward(&mut self, event: &KeyEvent, press: Press, keycode: u32) -> (effects: Vec<Effect>)
        ensures
            (final(self)@, effects.deep_view()) == forwarded(old(self)@, event@, press, keycode),
    {
        let paste = is_paste(event);
        let mut effects = nothing();
        if paste && press == Press::Down {
            perform(&mut effects, Effect::InputSent);
            let sent = self.reconcile_modifiers(event.states, keycode);
            follow_with(&mut effects, sent);
            self.pending = Some(PendingPaste { keycode });
            perform(&mut effects, Effect::ArmPaste);
            self.hold(keycode, Press::Down);
            assert(effects.deep_view() =~= forwarded(old(self)@, event@, press, keycode).1);
            return effects;
        }
        if !paste {
            perform(&mut effects, Effect::PreventDefault);
        }
        if press == Press::Down {
            perform(&mut effects, Effect::InputSent);
        }
        let sent = self.reconcile_modifiers(event.states, keycode);
        follow_with(&mut effects, sent);
        perform(&mut effects, key_effect(keycode, press));
        self.hold(keycode, press);
        assert(effects.deep_view() =~= forwarded(old(self)@, event@, press, keycode).1);
        effects
    }

    /// Take one key event.
    ///
    /// Keys aimed at the shell stay in the shell. While the launcher is open no
    /// key reaches a client. Escape closes the switcher and letting go of alt
    /// commits it. The shell's own chords are the shell's. What is left, and has
    /// a keycode, belongs to the application.
    pub fn key(
        &mut self,
        shell: &mut Shell,
        windows: &Vec<WindowState>,
        event: &KeyEvent,
        press: Press,
    ) -> (effects: Vec<Effect>)
        ensures
            (final(self)@, final(shell)@, effects.deep_view()) == handled(
                old(self)@,
                old(shell)@,
                windows.deep_view(),
                event@,
                press,
            ),
    {
        let mut effects = nothing();
        if aimed_at_shell(&event.target_tag) {
            return effects;
        }
        if shell.launcher_open {
            if same(event.key.as_str(), "Escape") {
                perform(&mut effects, Effect::PreventDefault);
                shell.launcher_open = false;
                assert(shell@ =~= (ShellView { launcher_open: false, ..old(shell)@ }));
                assert(effects.deep_view() =~= seq![EffectView::PreventDefault]);
                return effects;
            }
            perform(&mut effects, Effect::FocusSearch);
            perform(&mut effects, Effect::PreventDefault);
            assert(effects.deep_view() =~= seq![
                EffectView::FocusSearch,
                EffectView::PreventDefault,
            ]);
            return effects;
        }
        if same(event.code.as_str(), "Escape") && shell.alt_tab.is_some() {
            perform(&mut effects, Effect::PreventDefault);
            shell.alt_tab = None;
            assert(shell@ =~= (ShellView { alt_tab: None, ..old(shell)@ }));
            assert(effects.deep_view() =~= seq![EffectView::PreventDefault]);
            return effects;
        }
        if press == Press::Up && (same(event.code.as_str(), "AltLeft") || same(
            event.code.as_str(),
            "AltRight",
        )) {
            effects = commit_alt_tab(shell);
        }
        let ghost open = shell@;
        let ghost first = effects.deep_view();
        if claims(event) {
            perform(&mut effects, Effect::PreventDefault);
            let done = handle(shell, windows, event, press);
            let ghost more = done.deep_view();
            follow_with(&mut effects, done);
            assert(effects.deep_view() =~= first + seq![EffectView::PreventDefault] + more);
            return effects;
        }
        if let Some(keycode) = evdev_key(event.code.as_str()) {
            let done = self.forward(event, press, keycode);
            follow_with(&mut effects, done);
        }
        effects
    }
}

/// Say that nothing is held down.
///
/// The seat outlives any one page: a modifier still down when a tab is closed
/// stays down, and the new page has no way to find out. So a page that has just
/// connected says what is true of a keyboard that has just been plugged in.
/// Releasing a key that was not held costs nothing; the compositor ignores it.
pub fn release_modifiers() -> (effects: Vec<Effect>)
    ensures
        effects.deep_view() == plugged_in(MODIFIERS as int),
{
    let mut effects = nothing();
    let mut i: usize = 0;
    while i < MODIFIERS
        invariant
            i <= MODIFIERS,
            effects.deep_view() == plugged_in(i as int),
        decreases MODIFIERS - i,
    {
        let codes = Modifier::at(i).codes();
        let ghost before = effects.deep_view();
        let mut k: usize = 0;
        assert(before =~= before + releases(codes@.take(0)));
        while k < codes.len()
            invariant
                k <= codes@.len(),
                effects.deep_view() == before + releases(codes@.take(k as int)),
            decreases codes@.len() - k,
        {
            perform(&mut effects, key_effect(codes[k], Press::Up));
            assert(codes@.take(k + 1) =~= codes@.take(k as int).push(codes@[k as int]));
            assert(effects.deep_view() =~= before + releases(codes@.take(k + 1)));
            k += 1;
        }
        assert(codes@.take(k as int) =~= codes@);
        i += 1;
    }
    effects
}

/// The keys that are down at the compositor once it has taken these effects:
/// each key event moves one key, nothing else moves any.
pub open spec fn seat(down: Set<u32>, effects: Seq<EffectView>) -> Set<u32>
    decreases effects.len(),
{
    if effects.len() == 0 {
        down
    } else {
        let before = seat(down, effects.drop_last());
        match effects.last() {
            EffectView::Send(ClientMessageView::Input(InputEvent::Key { keycode, state })) => {
                if state == Press::Down {
                    before.insert(keycode)
                } else {
                    before.remove(keycode)
                }
            },
            _ => before,
        }
    }
}

proof fn seat_splits(down: Set<u32>, first: Seq<EffectView>, rest: Seq<EffectView>)
    ensures
        seat(down, first + rest) == seat(seat(down, first), rest),
    decreases rest.len(),
{
    if rest.len() == 0 {
        assert(first + rest =~= first);
    } else {
        assert((first + rest).drop_last() =~= first + rest.drop_last());
        assert((first + rest).last() == rest.last());
        seat_splits(down, first, rest.drop_last());
    }
}

proof fn releases_let_go(down: Set<u32>, codes: Seq<u32>)
    ensures
        seat(down, releases(codes)) == down.difference(codes.to_set()),
    decreases codes.len(),
{
    broadcast use vstd::seq_lib::group_seq_properties;

    let effects = releases(codes);
    if codes.len() == 0 {
        assert(down.difference(codes.to_set()) =~= down);
    } else {
        let front = codes.drop_last();
        assert(effects.drop_last() =~= releases(front));
        assert(effects.last() == key_message(codes.last(), Press::Up));
        releases_let_go(down, front);
        assert(codes =~= front.push(codes.last()));
        assert forall|code: u32| codes.to_set().contains(code) == (front.to_set().contains(code)
            || code == codes.last()) by {
            if codes.contains(code) {
                let k = choose|k: int| 0 <= k < codes.len() && codes[k] == code;
                if k < front.len() {
                    assert(front[k] == code);
                }
            }
            if front.contains(code) {
                let k = choose|k: int| 0 <= k < front.len() && front[k] == code;
                assert(codes[k] == code);
            }
            assert(codes[codes.len() - 1] == codes.last());
        }
        assert(down.difference(codes.to_set()) =~= down.difference(front.to_set()).remove(
            codes.last(),
        ));
    }
}

/// Which keys a filter of the held ones leaves.
proof fn kept_keys(modifier: Modifier, held: Seq<u32>)
    ensures
        forall|code: u32| #[trigger]
            other_keys(modifier, held).contains(code) <==> held.contains(code) && !modifier_codes(
                modifier,
            ).contains(code),
        forall|code: u32| #[trigger]
            down_keys(modifier, held).contains(code) <==> held.contains(code) && modifier_codes(
                modifier,
            ).contains(code),
    decreases held.len(),
{
    reveal(Seq::filter);
    if held.len() > 0 {
        let front = held.drop_last();
        let last = held.last();
        kept_keys(modifier, front);
        assert(held =~= front.push(last));
        assert forall|code: u32| held.contains(code) <==> front.contains(code) || code == last by {
            if front.contains(code) {
                let k = choose|k: int| 0 <= k < front.len() && front[k] == code;
                assert(held[k] == code);
            }
            assert(held[held.len() - 1] == last);
            if held.contains(code) && code != last {
                let k = choose|k: int| 0 <= k < held.len() && held[k] == code;
                assert(front[k] == code);
            }
        }
        pushed_contains(other_keys(modifier, front), last);
        pushed_contains(down_keys(modifier, front), last);
    }
}

proof fn pushed_contains(list: Seq<u32>, last: u32)
    ensures
        forall|code: u32| #[trigger]
            list.push(last).contains(code) <==> list.contains(code) || code == last,
{
    assert forall|code: u32| #[trigger] list.push(last).contains(code) <==> list.contains(code)
        || code == last by {
        if list.contains(code) {
            let k = choose|k: int| 0 <= k < list.len() && list[k] == code;
            assert(list.push(last)[k] == code);
        }
        assert(list.push(last)[list.len() as int] == last);
        if list.push(last).contains(code) && code != last {
            let k = choose|k: int| 0 <= k < list.len() + 1 && list.push(last)[k] == code;
            assert(list[k] == code);
        }
    }
}

/// One modifier being settled moves only its own keys, and moves them at the
/// compositor as it does here.
proof fn agreed_is_seen(
    modifier: Modifier,
    keycode: u32,
    states: ModifierStates,
    held: Seq<u32>,
)
    ensures
        ({
            let step = agreed(modifier, keycode, states, held);
            &&& seat(held.to_set(), step.1) == step.0.to_set()
            &&& forall|m: Modifier| m != modifier ==> #[trigger] is_held(m, step.0) == is_held(
                m,
                held,
            )
            &&& !spoken_for(modifier, keycode, states) ==> is_held(modifier, step.0)
                == states.holds(modifier)
        }),
{
    let step = agreed(modifier, keycode, states, held);
    let codes = modifier_codes(modifier);
    assert(forall|m: Modifier, code: u32| #[trigger]
        modifier_codes(m).contains(code) && codes.contains(code) ==> m == modifier) by {
        codes_are_apart();
    }
    if spoken_for(modifier, keycode, states) || states.holds(modifier) == is_held(modifier, held) {
    } else if states.holds(modifier) {
        let left = codes[0];
        assert(codes.contains(left));
        pushed_contains(held, left);
        let effects = seq![key_message(left, Press::Down)];
        assert(effects.drop_last() =~= Seq::empty());
        reveal_with_fuel(seat, 2);
        assert(held.push(left).to_set() =~= held.to_set().insert(left));
        assert(held.push(left)[held.len() as int] == left);
        assert forall|m: Modifier| m != modifier implies #[trigger] is_held(m, step.0) == is_held(
            m,
            held,
        ) by {
            if is_held(m, held) {
                let k = choose|k: int|
                    0 <= k < held.len() && modifier_codes(m).contains(#[trigger] held[k]);
                assert(step.0[k] == held[k]);
            }
            if is_held(m, step.0) {
                let k = choose|k: int|
                    0 <= k < step.0.len() && modifier_codes(m).contains(#[trigger] step.0[k]);
                assert(k < held.len());
                assert(step.0[k] == held[k]);
            }
        }
    } else {
        kept_keys(modifier, held);
        releases_let_go(held.to_set(), down_keys(modifier, held));
        assert(held.to_set().difference(down_keys(modifier, held).to_set()) =~= step.0.to_set());
        assert(!is_held(modifier, step.0)) by {
            if is_held(modifier, step.0) {
                let k = choose|k: int|
                    0 <= k < step.0.len() && codes.contains(#[trigger] step.0[k]);
                assert(step.0.contains(step.0[k]));
            }
        }
        assert forall|m: Modifier| m != modifier implies #[trigger] is_held(m, step.0) == is_held(
            m,
            held,
        ) by {
            if is_held(m, held) {
                let k = choose|k: int|
                    0 <= k < held.len() && modifier_codes(m).contains(#[trigger] held[k]);
                assert(held.contains(held[k]));
                assert(step.0.contains(held[k]));
                let j = choose|j: int| 0 <= j < step.0.len() && step.0[j] == held[k];
                assert(modifier_codes(m).contains(step.0[j]));
            }
            if is_held(m, step.0) {
                let k = choose|k: int|
                    0 <= k < step.0.len() && modifier_codes(m).contains(#[trigger] step.0[k]);
                assert(step.0.contains(step.0[k]));
                assert(held.contains(step.0[k]));
                let j = choose|j: int| 0 <= j < held.len() && held[j] == step.0[k];
                assert(modifier_codes(m).contains(held[j]));
            }
        }
    }
}

/// No key produces two modifiers.
proof fn codes_are_apart()
    ensures
        forall|one: Modifier, other: Modifier, code: u32| #[trigger]
            modifier_codes(one).contains(code) && #[trigger] modifier_codes(other).contains(code)
                ==> one == other,
{
    assert forall|one: Modifier, other: Modifier, code: u32| #[trigger]
        modifier_codes(one).contains(code) && #[trigger] modifier_codes(other).contains(
            code,
        ) implies one == other by {
        match one {
            Modifier::Shift => {},
            Modifier::Control => {},
            Modifier::Alt => {},
            Modifier::AltGraph => {},
            Modifier::Meta => {},
        }
        match other {
            Modifier::Shift => {},
            Modifier::Control => {},
            Modifier::Alt => {},
            Modifier::AltGraph => {},
            Modifier::Meta => {},
        }
    }
}

proof fn reconciled_is_seen(n: int, keycode: u32, states: ModifierStates, held: Seq<u32>)
    requires
        0 <= n <= MODIFIERS,
    ensures
        seat(held.to_set(), reconciled(n, keycode, states, held).1) == reconciled(
            n,
            keycode,
            states,
            held,
        ).0.to_set(),
        forall|i: int|
            0 <= i < n && !spoken_for(modifier_at(i), keycode, states) ==> is_held(
                #[trigger] modifier_at(i),
                reconciled(n, keycode, states, held).0,
            ) == states.holds(modifier_at(i)),
    decreases n,
{
    if n > 0 {
        let before = reconciled(n - 1, keycode, states, held);
        let step = agreed(modifier_at(n - 1), keycode, states, before.0);
        reconciled_is_seen(n - 1, keycode, states, held);
        agreed_is_seen(modifier_at(n - 1), keycode, states, before.0);
        seat_splits(held.to_set(), before.1, step.1);
    }
}

/// The compositor and the browser agree on every modifier that the event does
/// not speak for itself, and what is remembered as held is what the compositor
/// has been told: no modifier is missed, and none stays stuck down.
pub proof fn modifiers_agree(
    keycode: u32,
    states: ModifierStates,
    held: Seq<u32>,
    modifier: Modifier,
)
    ensures
        seat(held.to_set(), reconciled(MODIFIERS as int, keycode, states, held).1) == reconciled(
            MODIFIERS as int,
            keycode,
            states,
            held,
        ).0.to_set(),
        !spoken_for(modifier, keycode, states) ==> is_held(
            modifier,
            reconciled(MODIFIERS as int, keycode, states, held).0,
        ) == states.holds(modifier),
{
    reconciled_is_seen(MODIFIERS as int, keycode, states, held);
    let i: int = match modifier {
        Modifier::Shift => 0,
        Modifier::Control => 1,
        Modifier::Alt => 2,
        Modifier::AltGraph => 3,
        Modifier::Meta => 4,
    };
    assert(modifier_at(i) == modifier);
}

/// `AltGr` is not taken for a control chord: while it is held, neither alt nor
/// control is pressed or released on its account.
pub proof fn alt_gr_is_no_chord(keycode: u32, states: ModifierStates, held: Seq<u32>)
    requires
        states.alt_graph,
    ensures
        agreed(Modifier::Alt, keycode, states, held) == (held, Seq::<EffectView>::empty()),
        agreed(Modifier::Control, keycode, states, held) == (held, Seq::<EffectView>::empty()),
{
}

/// A page that goes away holds nothing: what it remembered as held is let go.
pub proof fn leaving_lets_go(held: Seq<u32>)
    ensures
        seat(held.to_set(), let_go(held)) == Set::<u32>::empty(),
{
    releases_let_go(held.to_set(), held);
    assert(held.to_set().difference(held.to_set()) =~= Set::<u32>::empty());
}

proof fn plugging_in_releases(down: Set<u32>, n: int, i: int, code: u32)
    requires
        0 <= i < n <= MODIFIERS,
        modifier_codes(modifier_at(i)).contains(code),
    ensures
        !seat(down, plugged_in(n)).contains(code),
    decreases n,
{
    let codes = modifier_codes(modifier_at(n - 1));
    seat_splits(down, plugged_in(n - 1), releases(codes));
    releases_let_go(seat(down, plugged_in(n - 1)), codes);
    if i < n - 1 {
        plugging_in_releases(down, n - 1, i, code);
    }
}

/// A page that has just connected leaves no modifier down, whatever the last
/// page left pressed.
pub proof fn connecting_releases_every_modifier(down: Set<u32>, modifier: Modifier, code: u32)
    requires
        modifier_codes(modifier).contains(code),
    ensures
        !seat(down, plugged_in(MODIFIERS as int)).contains(code),
{
    let i: int = match modifier {
        Modifier::Shift => 0,
        Modifier::Control => 1,
        Modifier::Alt => 2,
        Modifier::AltGraph => 3,
        Modifier::Meta => 4,
    };
    assert(modifier_at(i) == modifier);
    plugging_in_releases(down, MODIFIERS as int, i, code);
}

/// Is this effect input on its way to a client?
pub open spec fn is_input(effect: EffectView) -> bool {
    effect matches EffectView::Send(ClientMessageView::Input(_))
}

/// What the shell keeps never reaches a client: its own chords, keys typed into
/// its form controls, every key while the launcher is open, and the Escape that
/// closes the switcher.
pub proof fn the_shell_keeps_its_keys(
    keyboard: KeyboardView,
    shell: ShellView,
    windows: Seq<WindowView>,
    event: KeyView,
    press: Press,
)
    requires
        is_chord(event) || takes_text(event.target_tag) || shell.launcher_open || (event.code
            == "Escape"@ && shell.alt_tab is Some),
    ensures
        handled(keyboard, shell, windows, event, press).0 == keyboard,
        forall|i: int|
            0 <= i < handled(keyboard, shell, windows, event, press).2.len() ==> !is_input(
                #[trigger] handled(keyboard, shell, windows, event, press).2[i],
            ),
{
    assert(forall|i: int|
        0 <= i < committed(shell).len() ==> !is_input(#[trigger] committed(shell)[i]));
}

/// Does a key event belong to the application: it is not typed into the shell's
/// own controls or its launcher, does not close the switcher, is no chord of the
/// shell's, and is a key the compositor has a code for?
pub open spec fn is_for_the_application(shell: ShellView, event: KeyView) -> bool {
    &&& !takes_text(event.target_tag)
    &&& !shell.launcher_open
    &&& !(event.code == "Escape"@ && shell.alt_tab is Some)
    &&& !is_chord(event)
    &&& keycode_of(event.code) is Some
}

/// Only key events move keys.
proof fn seat_is_still(down: Set<u32>, effects: Seq<EffectView>)
    requires
        forall|i: int| 0 <= i < effects.len() ==> !is_input(#[trigger] effects[i]),
    ensures
        seat(down, effects) == down,
    decreases effects.len(),
{
    if effects.len() > 0 {
        let front = effects.drop_last();
        assert forall|i: int| 0 <= i < front.len() implies !is_input(#[trigger] front[i]) by {
            assert(front[i] == effects[i]);
        }
        assert(effects.last() == effects[effects.len() - 1]);
        seat_is_still(down, front);
    }
}

/// What becomes of one key depends on nothing but whether it was down.
proof fn keys_are_apart(one: Set<u32>, other: Set<u32>, effects: Seq<EffectView>, code: u32)
    requires
        one.contains(code) == other.contains(code),
    ensures
        seat(one, effects).contains(code) == seat(other, effects).contains(code),
    decreases effects.len(),
{
    if effects.len() > 0 {
        keys_are_apart(one, other, effects.drop_last(), code);
    }
}

/// Bringing the modifiers into agreement moves no other key.
proof fn reconciling_moves_only_modifiers(
    n: int,
    keycode: u32,
    states: ModifierStates,
    held: Seq<u32>,
    down: Set<u32>,
    code: u32,
)
    requires
        0 <= n <= MODIFIERS,
        !is_modifier(code),
    ensures
        seat(down, reconciled(n, keycode, states, held).1).contains(code) == down.contains(code),
    decreases n,
{
    if n > 0 {
        let modifier = modifier_at(n - 1);
        let before = reconciled(n - 1, keycode, states, held);
        let step = agreed(modifier, keycode, states, before.0);
        reconciling_moves_only_modifiers(n - 1, keycode, states, held, down, code);
        seat_splits(down, before.1, step.1);
        let mid = seat(down, before.1);
        assert(!modifier_codes(modifier).contains(code));
        if spoken_for(modifier, keycode, states) || states.holds(modifier) == is_held(
            modifier,
            before.0,
        ) {
        } else if states.holds(modifier) {
            assert(modifier_codes(modifier).contains(modifier_codes(modifier)[0]));
            reveal_with_fuel(seat, 2);
        } else {
            kept_keys(modifier, before.0);
            releases_let_go(mid, down_keys(modifier, before.0));
            assert(!down_keys(modifier, before.0).contains(code));
        }
    }
}

proof fn committing_is_no_input(shell: ShellView)
    ensures
        forall|i: int|
            0 <= i < committed(shell).len() ==> !is_input(#[trigger] committed(shell)[i]),
{
}

/// A key that belongs to the application reaches it as it happened: the last
/// thing sent is that key's own code in the state of the event, released as well
/// as pressed, so that whatever was down before, the key is now down exactly
/// where it was pressed; no key but it and the modifiers is moved. The one press
/// that has to wait is that of a chord that pastes.
pub proof fn a_key_reaches_the_application_as_it_happened(
    keyboard: KeyboardView,
    shell: ShellView,
    windows: Seq<WindowView>,
    event: KeyView,
    press: Press,
    down: Set<u32>,
    other: u32,
)
    requires
        is_for_the_application(shell, event),
        !(pastes(event) && press == Press::Down),
    ensures
        ({
            let keycode = keycode_of(event.code)->0;
            let effects = handled(keyboard, shell, windows, event, press).2;
            &&& effects.len() > 0
            &&& effects.last() == EffectView::Send(
                ClientMessageView::Input(InputEvent::Key { keycode, state: press }),
            )
            &&& seat(down, effects).contains(keycode) <==> press == Press::Down
            &&& other != keycode && !is_modifier(other) ==> seat(down, effects).contains(other)
                == down.contains(other)
            &&& effects.contains(EffectView::PreventDefault) <==> !pastes(event)
            &&& effects.contains(EffectView::InputSent) <==> press == Press::Down
        }),
{
    let keycode = keycode_of(event.code)->0;
    let (held, sent) = reconciled(MODIFIERS as int, keycode, event.states, keyboard.held);
    let first = if commits(event, press) {
        committed(shell)
    } else {
        Seq::empty()
    };
    let kept = if pastes(event) {
        Seq::empty()
    } else {
        seq![EffectView::PreventDefault]
    };
    let timed = if press == Press::Down {
        seq![EffectView::InputSent]
    } else {
        Seq::empty()
    };
    let key = seq![key_message(keycode, press)];
    let effects = handled(keyboard, shell, windows, event, press).2;
    assert(effects == first + (kept + timed + sent + key));
    assert(effects =~= first + kept + timed + sent + key);
    committing_is_no_input(shell);
    seat_is_still(down, first + kept + timed);
    seat_splits(down, first + kept + timed, sent);
    seat_splits(down, first + kept + timed + sent, key);
    assert(key.drop_last() =~= Seq::empty());
    reveal_with_fuel(seat, 2);
    if !is_modifier(other) {
        reconciling_moves_only_modifiers(
            MODIFIERS as int,
            keycode,
            event.states,
            keyboard.held,
            down,
            other,
        );
    }
    only_keys_are_sent(MODIFIERS as int, keycode, event.states, keyboard.held);
    let a = first.len();
    let b = a + kept.len();
    let c = b + timed.len();
    if !pastes(event) {
        assert(effects[a as int] == EffectView::PreventDefault);
    }
    if press == Press::Down {
        assert(effects[b as int] == EffectView::InputSent);
    }
    assert forall|i: int| 0 <= i < effects.len() implies (effects[i]
        == EffectView::PreventDefault ==> !pastes(event)) && (effects[i] == EffectView::InputSent
        ==> press == Press::Down) by {
        if i < a {
            assert(effects[i] == first[i]);
        } else if i < b {
            assert(effects[i] == kept[i - a]);
        } else if i < c {
            assert(effects[i] == timed[i - b]);
        } else if i < c + sent.len() {
            assert(effects[i] == sent[i - c]);
            assert(is_input(sent[i - c]));
        } else {
            assert(effects[i] == key[0]);
        }
    }
}

/// Bringing modifiers into agreement sends nothing but key events.
proof fn only_keys_are_sent(n: int, keycode: u32, states: ModifierStates, held: Seq<u32>)
    requires
        0 <= n <= MODIFIERS,
    ensures
        forall|i: int|
            0 <= i < reconciled(n, keycode, states, held).1.len() ==> is_input(
                #[trigger] reconciled(n, keycode, states, held).1[i],
            ),
    decreases n,
{
    if n > 0 {
        only_keys_are_sent(n - 1, keycode, states, held);
        let before = reconciled(n - 1, keycode, states, held);
        let step = agreed(modifier_at(n - 1), keycode, states, before.0);
        let all = before.1 + step.1;
        assert forall|i: int| 0 <= i < all.len() implies is_input(#[trigger] all[i]) by {
            if i < before.1.len() {
                assert(all[i] == before.1[i]);
            } else {
                assert(all[i] == step.1[i - before.1.len()]);
            }
        }
    }
}

/// A key that was pressed and then let go is up, whatever the modifiers did in
/// between and whatever was down before.
pub proof fn a_key_let_go_is_up(
    keyboard: KeyboardView,
    shell: ShellView,
    windows: Seq<WindowView>,
    pressed: KeyView,
    released: KeyView,
    down: Set<u32>,
)
    requires
        is_for_the_application(shell, pressed),
        !pastes(pressed),
        released.code == pressed.code,
        is_for_the_application(
            handled(keyboard, shell, windows, pressed, Press::Down).1,
            released,
        ),
    ensures
        ({
            let keycode = keycode_of(pressed.code)->0;
            let (then, open, first) = handled(keyboard, shell, windows, pressed, Press::Down);
            let (_, _, second) = handled(then, open, windows, released, Press::Up);
            &&& seat(down, first).contains(keycode)
            &&& !seat(down, first + second).contains(keycode)
        }),
{
    let (then, open, first) = handled(keyboard, shell, windows, pressed, Press::Down);
    let (_, _, second) = handled(then, open, windows, released, Press::Up);
    a_key_reaches_the_application_as_it_happened(
        keyboard,
        shell,
        windows,
        pressed,
        Press::Down,
        down,
        0,
    );
    a_key_reaches_the_application_as_it_happened(
        then,
        open,
        windows,
        released,
        Press::Up,
        seat(down, first),
        0,
    );
    seat_splits(down, first, second);
}

/// The press of a chord that pastes waits for its text: nothing moves the key
/// yet and the browser may go on to its own paste, but the key is remembered,
/// and whether a paste event comes, with a text or without, or none does, the
/// key then goes down, once and as the last thing that is sent.
pub proof fn a_paste_waits_and_then_goes_down(
    keyboard: KeyboardView,
    shell: ShellView,
    windows: Seq<WindowView>,
    event: KeyView,
    down: Set<u32>,
    text: Option<Seq<char>>,
)
    requires
        is_for_the_application(shell, event),
        pastes(event),
    ensures
        ({
            let keycode = keycode_of(event.code)->0;
            let (after, _, effects) = handled(keyboard, shell, windows, event, Press::Down);
            let down_now = EffectView::Send(
                ClientMessageView::Input(InputEvent::Key { keycode, state: Press::Down }),
            );
            &&& !is_modifier(keycode) ==> seat(down, effects).contains(keycode) == down.contains(
                keycode,
            )
            &&& !effects.contains(EffectView::PreventDefault)
            &&& effects.last() == EffectView::ArmPaste
            &&& after.pending == Some(PendingPaste { keycode })
            &&& flushed(after.pending) == seq![down_now]
            &&& pasted(text, after.pending).last() == down_now
            &&& pasted(text, after.pending).len() == (if text is Some && text->0.len() > 0 {
                2int
            } else {
                1
            })
            &&& text is Some && text->0.len() > 0 ==> pasted(text, after.pending)[0]
                == EffectView::Send(ClientMessageView::Clipboard { text: text->0 })
            &&& flushed(None).len() == 0
        }),
{
    let keycode = keycode_of(event.code)->0;
    let (held, sent) = reconciled(MODIFIERS as int, keycode, event.states, keyboard.held);
    let effects = handled(keyboard, shell, windows, event, Press::Down).2;
    let head = seq![EffectView::InputSent];
    let tail = seq![EffectView::ArmPaste];
    assert(effects =~= head + sent + tail);
    seat_is_still(down, head);
    seat_splits(down, head, sent);
    seat_splits(down, head + sent, tail);
    seat_is_still(seat(down, head + sent), tail);
    if !is_modifier(keycode) {
        reconciling_moves_only_modifiers(
            MODIFIERS as int,
            keycode,
            event.states,
            keyboard.held,
            down,
            keycode,
        );
    }
    only_keys_are_sent(MODIFIERS as int, keycode, event.states, keyboard.held);
    assert forall|i: int| 0 <= i < effects.len() implies effects[i]
        != EffectView::PreventDefault by {
        if 0 < i < 1 + sent.len() {
            assert(effects[i] == sent[i - 1]);
            assert(is_input(sent[i - 1]));
        }
    }
}

/// Is what the page remembers as held what is down at the compositor, as far as
/// modifiers go?
pub open spec fn remembers(held: Seq<u32>, down: Set<u32>) -> bool {
    forall|code: u32| is_modifier(code) ==> (#[trigger] held.contains(code) <==> down.contains(
        code,
    ))
}

proof fn without_one(held: Seq<u32>, keycode: u32)
    ensures
        forall|code: u32| #[trigger]
            without(held, keycode).contains(code) <==> held.contains(code) && code != keycode,
    decreases held.len(),
{
    reveal(Seq::filter);
    if held.len() > 0 {
        let front = held.drop_last();
        without_one(front, keycode);
        assert(held =~= front.push(held.last()));
        pushed_contains(front, held.last());
        pushed_contains(without(front, keycode), held.last());
    }
}

/// The page never loses track of a modifier: what it remembers as held is what
/// is down at the compositor, after every key event as before it.
pub proof fn the_page_keeps_track_of_modifiers(
    keyboard: KeyboardView,
    shell: ShellView,
    windows: Seq<WindowView>,
    event: KeyView,
    press: Press,
    down: Set<u32>,
)
    requires
        remembers(keyboard.held, down),
        !(pastes(event) && keycode_of(event.code) is Some && is_modifier(
            keycode_of(event.code)->0,
        )),
    ensures
        remembers(
            handled(keyboard, shell, windows, event, press).0.held,
            seat(down, handled(keyboard, shell, windows, event, press).2),
        ),
{
    let (after, _, effects) = handled(keyboard, shell, windows, event, press);
    if is_chord(event) || takes_text(event.target_tag) || shell.launcher_open || (event.code
        == "Escape"@ && shell.alt_tab is Some) {
        the_shell_keeps_its_keys(keyboard, shell, windows, event, press);
        seat_is_still(down, effects);
    } else {
        let first = if commits(event, press) {
            committed(shell)
        } else {
            Seq::empty()
        };
        committing_is_no_input(shell);
        match keycode_of(event.code) {
            None => {
                seat_is_still(down, first);
            },
            Some(keycode) => {
                let (held, sent) = reconciled(
                    MODIFIERS as int,
                    keycode,
                    event.states,
                    keyboard.held,
                );
                reconciled_is_seen(MODIFIERS as int, keycode, event.states, keyboard.held);
                let mid = seat(down, sent);
                assert forall|code: u32| is_modifier(code) implies (#[trigger] held.contains(code)
                    <==> mid.contains(code)) by {
                    assert(keyboard.held.contains(code) <==> down.contains(code));
                    keys_are_apart(keyboard.held.to_set(), down, sent, code);
                    assert(held.to_set().contains(code) <==> held.contains(code));
                }
                without_one(held, keycode);
                pushed_contains(without(held, keycode), keycode);
                reveal_with_fuel(seat, 2);
                if defers(event, press) {
                    let head = first + seq![EffectView::InputSent];
                    let tail = seq![EffectView::ArmPaste];
                    assert(effects =~= head + sent + tail);
                    seat_is_still(down, head);
                    seat_splits(down, head, sent);
                    seat_splits(down, head + sent, tail);
                    seat_is_still(mid, tail);
                } else {
                    let kept = if pastes(event) {
                        Seq::empty()
                    } else {
                        seq![EffectView::PreventDefault]
                    };
                    let timed = if press == Press::Down {
                        seq![EffectView::InputSent]
                    } else {
                        Seq::empty()
                    };
                    let head = first + kept + timed;
                    let key = seq![key_message(keycode, press)];
                    assert(effects =~= head + sent + key);
                    seat_is_still(down, head);
                    seat_splits(down, head, sent);
                    seat_splits(down, head + sent, key);
                    assert(key.drop_last() =~= Seq::empty());
                }
            },
        }
    }
}

/// Letting go of alt commits the switcher, whatever else the key does, and
/// Escape closes it without; neither leaves it open. No other key does either.
pub proof fn the_switcher_ends_with_alt_or_escape(
    keyboard: KeyboardView,
    shell: ShellView,
    windows: Seq<WindowView>,
    event: KeyView,
    press: Press,
)
    requires
        shell.alt_tab is Some,
        !takes_text(event.target_tag),
        !shell.launcher_open,
        !is_chord(event),
    ensures
        ({
            let (_, after, effects) = handled(keyboard, shell, windows, event, press);
            let alt = event.code == "AltLeft"@ || event.code == "AltRight"@;
            &&& event.code == "Escape"@ ==> after.alt_tab is None && effects == seq![
                EffectView::PreventDefault,
            ]
            &&& alt && press == Press::Up ==> after.alt_tab is None && committed(
                shell,
            ).is_prefix_of(effects)
            &&& event.code != "Escape"@ && !(alt && press == Press::Up) ==> after.alt_tab
                == shell.alt_tab
            &&& after.focused == shell.focused && after.workspace == shell.workspace
        }),
{
    reveal_strlit("Escape");
    reveal_strlit("AltLeft");
    reveal_strlit("AltRight");
    assert("Escape"@.len() == 6);
    assert("AltLeft"@.len() == 7);
    assert("AltRight"@.len() == 8);
    let effects = handled(keyboard, shell, windows, event, press).2;
    if event.code == "AltLeft"@ || event.code == "AltRight"@ {
        if press == Press::Up {
            assert(effects.take(committed(shell).len() as int) =~= committed(shell));
        }
    }
}

/// While the launcher is open the keyboard is its own: Escape closes it and any
/// other key goes to its search box.
pub proof fn the_launcher_has_the_keyboard(
    keyboard: KeyboardView,
    shell: ShellView,
    windows: Seq<WindowView>,
    event: KeyView,
    press: Press,
)
    requires
        shell.launcher_open,
        !takes_text(event.target_tag),
    ensures
        ({
            let (held, after, effects) = handled(keyboard, shell, windows, event, press);
            &&& held == keyboard
            &&& after.launcher_open <==> event.key != "Escape"@
            &&& effects.contains(EffectView::FocusSearch) <==> event.key != "Escape"@
            &&& effects.contains(EffectView::PreventDefault)
            &&& after == (ShellView { launcher_open: after.launcher_open, ..shell })
        }),
{
    let effects = handled(keyboard, shell, windows, event, press).2;
    if event.key == "Escape"@ {
        assert(effects[0] == EffectView::PreventDefault);
    } else {
        assert(effects[0] == EffectView::FocusSearch);
        assert(effects[1] == EffectView::PreventDefault);
    }
}

/// A modifier is held from its press to its release, and no other key changes what
/// is held.
pub proof fn a_modifier_is_held_until_it_is_let_go(
    held: Seq<u32>,
    keycode: u32,
    press: Press,
    other: u32,
)
    ensures
        is_modifier(keycode) ==> (holding(held, keycode, press).contains(keycode) <==> press
            == Press::Down),
        !is_modifier(keycode) ==> holding(held, keycode, press) == held,
        other != keycode ==> (holding(held, keycode, press).contains(other) <==> held.contains(
            other,
        )),
{
    let kept = without(held, keycode);
    let after = kept.push(keycode);
    assert(after[kept.len() as int] == keycode);
    only_one_key_goes(held, keycode, keycode);
    only_one_key_goes(held, keycode, other);
    if kept.contains(other) {
        let i = choose|i: int| 0 <= i < kept.len() && kept[i] == other;
        assert(after[i] == other);
    }
    if other != keycode && after.contains(other) {
        let i = choose|i: int| 0 <= i < after.len() && after[i] == other;
        assert(kept[i] == other);
    }
}

proof fn only_one_key_goes(held: Seq<u32>, keycode: u32, other: u32)
    ensures
        without(held, keycode).contains(other) <==> other != keycode && held.contains(other),
    decreases held.len(),
{
    reveal(Seq::filter);
    if held.len() > 0 {
        let front = held.drop_last();
        only_one_key_goes(front, keycode, other);
        let kept = without(front, keycode);
        let last = held.last();
        assert(held[held.len() - 1] == last);
        assert(kept.push(last)[kept.len() as int] == last);
        if held.contains(other) {
            let i = choose|i: int| 0 <= i < held.len() && held[i] == other;
            if i < front.len() {
                assert(front[i] == other);
            }
        }
        if front.contains(other) {
            let i = choose|i: int| 0 <= i < front.len() && front[i] == other;
            assert(held[i] == other);
        }
        if kept.contains(other) {
            let i = choose|i: int| 0 <= i < kept.len() && kept[i] == other;
            assert(kept.push(last)[i] == other);
        }
        if kept.push(last).contains(other) && other != last {
            let i = choose|i: int|
                0 <= i < kept.push(last).len() && kept.push(last)[i] == other;
            assert(kept[i] == other);
        }
    }
}

} // verus!
