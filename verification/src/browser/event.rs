//! A key event, as far as the shell reads it.

use crate::browser::keymap::Modifier;
use crate::text::{ascii_upper, same, uppered};
use vstd::prelude::*;

verus! {

/// The modifiers that the browser says are held, asked for by name.
#[derive(Debug, Clone, Copy, PartialEq, Eq, Structural)]
pub struct ModifierStates {
    pub shift: bool,
    pub control: bool,
    pub alt: bool,
    pub alt_graph: bool,
    pub meta: bool,
}

impl ModifierStates {
    /// Is this modifier held?
    pub open spec fn holds(self, modifier: Modifier) -> bool {
        match modifier {
            Modifier::Shift => self.shift,
            Modifier::Control => self.control,
            Modifier::Alt => self.alt,
            Modifier::AltGraph => self.alt_graph,
            Modifier::Meta => self.meta,
        }
    }

    /// Is this modifier held?
    pub fn state(self, modifier: Modifier) -> (held: bool)
        ensures
            held == self.holds(modifier),
    {
        match modifier {
            Modifier::Shift => self.shift,
            Modifier::Control => self.control,
            Modifier::Alt => self.alt,
            Modifier::AltGraph => self.alt_graph,
            Modifier::Meta => self.meta,
        }
    }
}

/// One press or release of a key, as the browser reports it.
#[derive(Debug)]
pub struct KeyEvent {
    /// The physical key.
    pub code: String,
    /// What the key means in the user's layout.
    pub key: String,
    /// The tag of the element the event is aimed at, if it is aimed at one.
    pub target_tag: Option<String>,
    pub alt: bool,
    pub ctrl: bool,
    pub shift: bool,
    pub meta: bool,
    pub states: ModifierStates,
}

/// What a [`KeyEvent`] says.
#[verifier::ext_equal]
pub struct KeyView {
    pub code: Seq<char>,
    pub key: Seq<char>,
    pub target_tag: Option<Seq<char>>,
    pub alt: bool,
    pub ctrl: bool,
    pub shift: bool,
    pub meta: bool,
    pub states: ModifierStates,
}

impl View for KeyEvent {
    type V = KeyView;

    open spec fn view(&self) -> KeyView {
        KeyView {
            code: self.code@,
            key: self.key@,
            target_tag: self.target_tag.deep_view(),
            alt: self.alt,
            ctrl: self.ctrl,
            shift: self.shift,
            meta: self.meta,
            states: self.states,
        }
    }
}

/// Is an element with this tag a form control that takes text?
pub open spec fn takes_text(tag: Option<Seq<char>>) -> bool {
    match tag {
        Some(name) => {
            let upper = uppered(name);
            upper == "INPUT"@ || upper == "TEXTAREA"@ || upper == "SELECT"@
        },
        None => false,
    }
}

/// Is a key event aimed at an element with this tag meant for the shell rather
/// than an application?
///
/// Text typed into a form control belongs to the chrome around the surfaces. A
/// button is not one of those: it takes no text, and the browser leaves it
/// focused after a click, so counting it would swallow every keystroke after a
/// click on the panel.
pub fn aimed_at_shell(tag: &Option<String>) -> (shell: bool)
    ensures
        shell == takes_text(tag.deep_view()),
{
    match tag {
        Some(name) => {
            let upper = ascii_upper(name.as_str());
            same(upper.as_str(), "INPUT") || same(upper.as_str(), "TEXTAREA") || same(
                upper.as_str(),
                "SELECT",
            )
        },
        None => false,
    }
}

/// Where one modifier is held and no other, that one is found held and no other.
pub proof fn a_modifier_is_found_by_itself(modifier: Modifier)
    ensures
        (ModifierStates { shift: true, control: false, alt: false, alt_graph: false, meta: false })
            .holds(modifier) <==> modifier == Modifier::Shift,
        (ModifierStates { shift: false, control: true, alt: false, alt_graph: false, meta: false })
            .holds(modifier) <==> modifier == Modifier::Control,
        (ModifierStates { shift: false, control: false, alt: true, alt_graph: false, meta: false })
            .holds(modifier) <==> modifier == Modifier::Alt,
        (ModifierStates { shift: false, control: false, alt: false, alt_graph: true, meta: false })
            .holds(modifier) <==> modifier == Modifier::AltGraph,
        (ModifierStates { shift: false, control: false, alt: false, alt_graph: false, meta: true })
            .holds(modifier) <==> modifier == Modifier::Meta,
{
}

/// Text goes to the three form controls that take it, however their tags are
/// spelled, and to nothing else.
pub proof fn only_form_controls_take_text(tag: Seq<char>)
    ensures
        takes_text(Some(tag)) <==> uppered(tag) == uppered("input"@) || uppered(tag) == uppered(
            "textarea"@,
        ) || uppered(tag) == uppered("select"@),
        takes_text(Some(tag)) <==> takes_text(Some(uppered(tag))),
        !takes_text(None),
{
    reveal_strlit("input");
    reveal_strlit("INPUT");
    reveal_strlit("textarea");
    reveal_strlit("TEXTAREA");
    reveal_strlit("select");
    reveal_strlit("SELECT");
    assert(uppered("input"@) =~= "INPUT"@);
    assert(uppered("textarea"@) =~= "TEXTAREA"@);
    assert(uppered("select"@) =~= "SELECT"@);
    assert(uppered(uppered(tag)) =~= uppered(tag));
}

} // verus!
