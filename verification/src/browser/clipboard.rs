//! The clipboard, from the browser to the compositor.
//!
//! The browser hands over a paste without a permission prompt as long as it
//! comes from its own paste event, which is why the paste chord's key event is
//! deferred until the text has been sent. That event is not always enough, so
//! the clipboard is also read whenever the page regains focus.

use crate::browser::event::{KeyEvent, KeyView};
use crate::browser::scene::{key_effect, key_message, nothing, perform, Effect, EffectView};
use crate::protocol::messages::{ClientMessage, ClientMessageView, InputEvent, Press};
use crate::text::same;
use vstd::prelude::*;

verus! {

/// How long a deferred key waits for a paste event that may never come, in
/// milliseconds.
pub const PASTE_TIMEOUT: i32 = 50;

/// A key event deferred when a paste chord is detected, so that the clipboard
/// text goes first and the compositor has the selection set before the client
/// sees the keystroke.
#[derive(Debug, Clone, Copy, PartialEq, Eq, Structural)]
pub struct PendingPaste {
    pub keycode: u32,
}

/// Is this the chord that pastes, either spelling of it?
pub open spec fn pastes(event: KeyView) -> bool {
    ||| (event.ctrl || event.meta) && event.code == "KeyV"@
    ||| event.shift && event.code == "Insert"@
}

/// Is this the chord that pastes, either spelling of it?
pub fn is_paste(event: &KeyEvent) -> (paste: bool)
    ensures
        paste == pastes(event@),
{
    let code = event.code.as_str();
    ((event.ctrl || event.meta) && same(code, "KeyV")) || (event.shift && same(code, "Insert"))
}

/// What sending the deferred key takes.
pub open spec fn flushed(pending: Option<PendingPaste>) -> Seq<EffectView> {
    match pending {
        Some(paste) => seq![key_message(paste.keycode, Press::Down)],
        None => Seq::empty(),
    }
}

/// Send a deferred key, if one is still waiting.
pub fn flush_deferred(pending: &mut Option<PendingPaste>) -> (effects: Vec<Effect>)
    ensures
        *final(pending) is None,
        effects.deep_view() == flushed(*old(pending)),
{
    let mut effects = nothing();
    if let Some(paste) = *pending {
        perform(&mut effects, key_effect(paste.keycode, Press::Down));
    }
    *pending = None;
    assert(effects.deep_view() =~= flushed(*old(pending)));
    effects
}

/// The clipboard's text for the compositor.
pub open spec fn clipboard_message(text: Seq<char>) -> EffectView {
    EffectView::Send(ClientMessageView::Clipboard { text })
}

/// What a paste event does, given the text that came with it.
pub open spec fn pasted(text: Option<Seq<char>>, pending: Option<PendingPaste>) -> Seq<EffectView> {
    match text {
        Some(copied) => if copied.len() > 0 {
            seq![clipboard_message(copied)] + flushed(pending)
        } else {
            flushed(pending)
        },
        None => flushed(pending),
    }
}

/// Take the text of a paste event, and send it ahead of the key that asked for
/// it: the compositor injects the keystroke after the selection is set.
pub fn paste(text: Option<String>, pending: &mut Option<PendingPaste>) -> (effects: Vec<Effect>)
    ensures
        *final(pending) is None,
        effects.deep_view() == pasted(text.deep_view(), *old(pending)),
{
    let ghost given = text.deep_view();
    let mut effects = nothing();
    if let Some(copied) = text {
        if copied.as_str().unicode_len() > 0 {
            perform(&mut effects, Effect::Send(ClientMessage::Clipboard { text: copied }));
        }
    }
    if let Some(waiting) = *pending {
        perform(&mut effects, key_effect(waiting.keycode, Press::Down));
    }
    *pending = None;
    assert(effects.deep_view() =~= pasted(given, *old(pending)));
    effects
}

/// What returning to the page does, given the text that last crossed and the one
/// on the clipboard: what is sent, and the text to remember.
pub open spec fn returning(last: Seq<char>, text: Seq<char>) -> (Seq<EffectView>, Seq<char>) {
    if text.len() == 0 || text == last {
        (Seq::empty(), last)
    } else {
        (seq![clipboard_message(text)], text)
    }
}

/// The text that last crossed: sent because the page was returned to, or given by
/// a client.
#[derive(Debug)]
pub struct Synced {
    pub last: String,
}

impl View for Synced {
    type V = Seq<char>;

    open spec fn view(&self) -> Seq<char> {
        self.last@
    }
}

impl Synced {
    /// Nothing was sent yet.
    pub fn new() -> (synced: Self)
        ensures
            synced@ == Seq::<char>::empty(),
    {
        Synced { last: String::new() }
    }

    /// A client's text was put on the browser's clipboard.
    pub fn given(&mut self, text: &str)
        ensures
            final(self)@ == text@,
    {
        self.last = text.to_owned();
    }

    /// Take what the clipboard holds as the page is returned to.
    ///
    /// The last text sent is remembered, so coming back to a tab a dozen times
    /// does not send the same paragraph a dozen times, and so is the text this
    /// browser was given by a client, which is not handed back to the compositor
    /// as if the user had copied it outside.
    pub fn returned(&mut self, text: String) -> (effects: Vec<Effect>)
        ensures
            (effects.deep_view(), final(self)@) == returning(old(self)@, text@),
    {
        let ghost given = text@;
        let mut effects = nothing();
        if text.as_str().unicode_len() == 0 || same(self.last.as_str(), text.as_str()) {
            return effects;
        }
        self.last = text.clone();
        perform(&mut effects, Effect::Send(ClientMessage::Clipboard { text }));
        assert(effects.deep_view() =~= seq![clipboard_message(given)]);
        effects
    }
}

/// A text is never handed back: with the one a client gave still on the clipboard,
/// or the one that was sent before, returning to the page sends nothing and
/// changes nothing.
pub proof fn no_text_is_handed_back(last: Seq<char>, text: Seq<char>)
    ensures
        returning(text, text) == (Seq::<EffectView>::empty(), text),
        ({
            let (_, remembered) = returning(last, text);
            returning(remembered, text) == (Seq::<EffectView>::empty(), remembered)
        }),
{
}

/// The text is there before the key that asks for it: whatever a paste event
/// sends, a deferred key is the last of it, and the clipboard comes before.
pub proof fn the_selection_is_set_first(text: Seq<char>, waiting: PendingPaste)
    requires
        text.len() > 0,
    ensures
        pasted(Some(text), Some(waiting)) == seq![
            clipboard_message(text),
            key_message(waiting.keycode, Press::Down),
        ],
        pasted(Some(Seq::empty()), Some(waiting)) == seq![
            key_message(waiting.keycode, Press::Down),
        ],
        pasted(None, Some(waiting)) == seq![key_message(waiting.keycode, Press::Down)],
{
    assert(pasted(Some(text), Some(waiting)) =~= seq![
        clipboard_message(text),
        key_message(waiting.keycode, Press::Down),
    ]);
}

/// A text copied outside crosses as the page is returned to: it is sent, that text
/// and nothing else, and remembered. An empty clipboard sends nothing and leaves
/// what is remembered alone.
pub proof fn a_text_copied_outside_crosses(last: Seq<char>, text: Seq<char>)
    ensures
        text.len() > 0 && text != last ==> returning(last, text).0 == seq![
            EffectView::Send(ClientMessageView::Clipboard { text }),
        ],
        text.len() > 0 ==> returning(last, text).1 == text,
        text.len() == 0 ==> returning(last, text).0.len() == 0 && returning(last, text).1 == last,
{
}

/// Two chords paste, and no key does by itself: V with control or the command key,
/// and Insert with shift, whatever else is held.
pub proof fn two_chords_paste(event: KeyView)
    ensures
        event.code == "KeyV"@ ==> (pastes(event) <==> event.ctrl || event.meta),
        event.code == "Insert"@ ==> (pastes(event) <==> event.shift),
        event.code != "KeyV"@ && event.code != "Insert"@ ==> !pastes(event),
{
    reveal_strlit("KeyV");
    reveal_strlit("Insert");
    assert("KeyV"@.len() == 4 && "Insert"@.len() == 6);
}

/// A deferred key goes down once it is flushed, that key and nothing else; without
/// one nothing is sent.
pub proof fn a_deferred_key_goes_down(keycode: u32)
    ensures
        flushed(Some(PendingPaste { keycode })) == seq![
            EffectView::Send(
                ClientMessageView::Input(InputEvent::Key { keycode, state: Press::Down }),
            ),
        ],
        flushed(None).len() == 0,
{
}

} // verus!
