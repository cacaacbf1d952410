//! Pointer lock and fullscreen.
//!
//! The browser owns both, and only tells the page after the fact: a lock can be
//! refused, and either can be dropped with Escape without asking. So what the
//! shell believes is set from the browser's own events, not from the call that
//! asked.

use vstd::prelude::*;

verus! {

/// Something for the page to do about the pointer or the screen.
#[derive(Debug, Clone, Copy, PartialEq, Eq, Structural)]
pub enum Step {
    /// Believe that the pointer is locked, or that it is not.
    SetCaptured(bool),
    /// Hide the real cursor, or show it.
    MarkBody(bool),
    LockKeyboard,
    UnlockKeyboard,
    /// Put the virtual cursor in the middle.
    CenterCursor,
    RequestLock,
    ExitLock,
    RequestFullscreen,
    ExitFullscreen,
    /// Tell the user.
    Tell(Notice),
}

/// What the user is told.
#[derive(Debug, Clone, Copy, PartialEq, Eq, Structural)]
pub enum Notice {
    Locked,
    Released,
    Denied,
    EnteredFullscreen,
    ExitedFullscreen,
}

impl Notice {
    /// The title of the notification.
    pub fn title(self) -> (title: &'static str)
        ensures
            title@ == (match self {
                Notice::Locked => "Cursor Locked"@,
                Notice::Released => "Cursor Released"@,
                Notice::Denied => "Cursor Lock Denied"@,
                Notice::EnteredFullscreen => "Entered Fullscreen"@,
                Notice::ExitedFullscreen => "Exited Fullscreen"@,
            }),
    {
        match self {
            Notice::Locked => "Cursor Locked",
            Notice::Released => "Cursor Released",
            Notice::Denied => "Cursor Lock Denied",
            Notice::EnteredFullscreen => "Entered Fullscreen",
            Notice::ExitedFullscreen => "Exited Fullscreen",
        }
    }

    /// What the notification says besides.
    pub fn message(self) -> (message: Option<&'static str>)
        ensures
            match self {
                Notice::Locked => message matches Some(text) && text@
                    == "Press ESC anytime to release"@,
                Notice::Denied => message matches Some(text) && text@
                    == "Pointer lock was rejected by the browser."@,
                _ => message is None,
            },
    {
        match self {
            Notice::Locked => Some("Press ESC anytime to release"),
            Notice::Denied => Some("Pointer lock was rejected by the browser."),
            _ => None,
        }
    }
}

/// What a change of the pointer lock takes.
pub open spec fn lock_change(locked: bool) -> Seq<Step> {
    if locked {
        seq![
            Step::SetCaptured(true),
            Step::MarkBody(true),
            Step::LockKeyboard,
            Step::CenterCursor,
        ]
    } else {
        seq![Step::SetCaptured(false), Step::MarkBody(false), Step::UnlockKeyboard]
    }
}

/// The browser took the pointer lock, or dropped it. The virtual cursor starts in
/// the middle: the real one is gone, and wherever it was is no longer where the
/// user is looking.
pub fn lock_changed(locked: bool) -> (steps: Vec<Step>)
    ensures
        steps@ == lock_change(locked),
{
    if locked {
        vec![
            Step::SetCaptured(true),
            Step::MarkBody(true),
            Step::LockKeyboard,
            Step::CenterCursor,
        ]
    } else {
        vec![Step::SetCaptured(false), Step::MarkBody(false), Step::UnlockKeyboard]
    }
}

/// The browser refused the pointer lock.
pub fn lock_refused() -> (steps: Vec<Step>)
    ensures
        steps@ == lock_change(false) + seq![Step::Tell(Notice::Denied)],
{
    let steps = vec![
        Step::SetCaptured(false),
        Step::MarkBody(false),
        Step::UnlockKeyboard,
        Step::Tell(Notice::Denied),
    ];
    assert(steps@ =~= lock_change(false) + seq![Step::Tell(Notice::Denied)]);
    steps
}

/// Giving the pointer back.
pub open spec fn giving_back() -> Seq<Step> {
    seq![Step::ExitLock, Step::MarkBody(false), Step::UnlockKeyboard, Step::SetCaptured(false)]
}

/// Give the pointer back. Escape does the same thing; this is the button.
pub fn release() -> (steps: Vec<Step>)
    ensures
        steps@ == giving_back(),
{
    vec![Step::ExitLock, Step::MarkBody(false), Step::UnlockKeyboard, Step::SetCaptured(false)]
}

/// Take the pointer, or give it back if it is already taken. A virtual cursor
/// that has never been anywhere starts in the middle.
pub fn toggle(locked: bool, has_cursor: bool) -> (steps: Vec<Step>)
    ensures
        steps@ == (if locked {
            giving_back() + seq![Step::Tell(Notice::Released)]
        } else if has_cursor {
            seq![Step::RequestLock, Step::Tell(Notice::Locked)]
        } else {
            seq![Step::CenterCursor, Step::RequestLock, Step::Tell(Notice::Locked)]
        }),
{
    if locked {
        let mut steps = release();
        steps.push(Step::Tell(Notice::Released));
        assert(steps@ =~= giving_back() + seq![Step::Tell(Notice::Released)]);
        return steps;
    }
    if has_cursor {
        vec![Step::RequestLock, Step::Tell(Notice::Locked)]
    } else {
        vec![Step::CenterCursor, Step::RequestLock, Step::Tell(Notice::Locked)]
    }
}

/// Go fullscreen, or come back.
pub fn toggle_fullscreen(fullscreen: bool) -> (steps: Vec<Step>)
    ensures
        steps@ == (if fullscreen {
            seq![Step::ExitFullscreen, Step::Tell(Notice::ExitedFullscreen)]
        } else {
            seq![Step::RequestFullscreen, Step::Tell(Notice::EnteredFullscreen)]
        }),
{
    if fullscreen {
        vec![Step::ExitFullscreen, Step::Tell(Notice::ExitedFullscreen)]
    } else {
        vec![Step::RequestFullscreen, Step::Tell(Notice::EnteredFullscreen)]
    }
}

/// What the page believes and has asked for.
pub struct Grip {
    pub captured: bool,
    pub cursor_hidden: bool,
    pub keyboard_locked: bool,
}

/// What the page believes and has asked for after these steps.
pub open spec fn gripped(grip: Grip, steps: Seq<Step>) -> Grip
    decreases steps.len(),
{
    if steps.len() == 0 {
        grip
    } else {
        let before = gripped(grip, steps.drop_last());
        match steps.last() {
            Step::SetCaptured(on) => Grip { captured: on, ..before },
            Step::MarkBody(on) => Grip { cursor_hidden: on, ..before },
            Step::LockKeyboard => Grip { keyboard_locked: true, ..before },
            Step::UnlockKeyboard => Grip { keyboard_locked: false, ..before },
            _ => before,
        }
    }
}

/// The page follows the browser: while it has the pointer, its own cursor is
/// hidden and the keyboard is its own too, and none of the three outlasts the
/// others, however the lock ends.
pub proof fn the_page_follows_the_lock(grip: Grip, locked: bool)
    ensures
        gripped(grip, lock_change(locked)) == (Grip {
            captured: locked,
            cursor_hidden: locked,
            keyboard_locked: locked,
        }),
        gripped(grip, giving_back()) == (Grip {
            captured: false,
            cursor_hidden: false,
            keyboard_locked: false,
        }),
        lock_change(locked).contains(Step::CenterCursor) <==> locked,
        giving_back().contains(Step::ExitLock),
{
    reveal_with_fuel(gripped, 5);
    if locked {
        assert(lock_change(locked)[3] == Step::CenterCursor);
    }
    assert(giving_back()[0] == Step::ExitLock);
}

/// The button takes the pointer or gives it back, whichever it is not; a cursor
/// that was never anywhere starts in the middle.
pub proof fn the_button_takes_or_gives_back(locked: bool, has_cursor: bool, steps: Vec<Step>)
    requires
        call_ensures(toggle, (locked, has_cursor), steps),
    ensures
        steps@.contains(Step::RequestLock) <==> !locked,
        steps@.contains(Step::ExitLock) <==> locked,
        steps@.contains(Step::CenterCursor) <==> !locked && !has_cursor,
{
    if locked {
        assert(steps@[0] == Step::ExitLock);
    } else if has_cursor {
        assert(steps@[0] == Step::RequestLock);
    } else {
        assert(steps@[0] == Step::CenterCursor);
        assert(steps@[1] == Step::RequestLock);
    }
}

/// Fullscreen is asked for where it is not there, and left where it is.
pub proof fn fullscreen_is_entered_or_left(fullscreen: bool, steps: Vec<Step>)
    requires
        call_ensures(toggle_fullscreen, (fullscreen,), steps),
    ensures
        steps@.contains(Step::RequestFullscreen) <==> !fullscreen,
        steps@.contains(Step::ExitFullscreen) <==> fullscreen,
{
    if fullscreen {
        assert(steps@[0] == Step::ExitFullscreen);
    } else {
        assert(steps@[0] == Step::RequestFullscreen);
    }
}

} // verus!
