//! Physical keys to Linux evdev keycodes, and the modifier table that goes with
//! them.

use crate::text::same;
use vstd::prelude::*;

verus! {

/// The `BTN_*` code of a mouse button.
pub open spec fn button_code(button: i16) -> Option<u32> {
    if button == 0 {
        Some(0x110)
    } else if button == 1 {
        Some(0x112)
    } else if button == 2 {
        Some(0x111)
    } else {
        None
    }
}

/// Browser `MouseEvent.button` to Linux `BTN_*` code: left, middle, right.
pub fn evdev_button(button: i16) -> (code: Option<u32>)
    ensures
        code == button_code(button),
{
    match button {
        0 => Some(0x110),
        1 => Some(0x112),
        2 => Some(0x111),
        _ => None,
    }
}

/// The evdev keycode of a physical key (US layout, common subset).
pub open spec fn keycode_of(code: Seq<char>) -> Option<u32> {
    if code == "Escape"@ {
        Some(1)
    } else if code == "Digit1"@ {
        Some(2)
    } else if code == "Digit2"@ {
        Some(3)
    } else if code == "Digit3"@ {
        Some(4)
    } else if code == "Digit4"@ {
        Some(5)
    } else if code == "Digit5"@ {
        Some(6)
    } else if code == "Digit6"@ {
        Some(7)
    } else if code == "Digit7"@ {
        Some(8)
    } else if code == "Digit8"@ {
        Some(9)
    } else if code == "Digit9"@ {
        Some(10)
    } else if code == "Digit0"@ {
        Some(11)
    } else if code == "Minus"@ {
        Some(12)
    } else if code == "Equal"@ {
        Some(13)
    } else if code == "Backspace"@ {
        Some(14)
    } else if code == "Tab"@ {
        Some(15)
    } else if code == "KeyQ"@ {
        Some(16)
    } else if code == "KeyW"@ {
        Some(17)
    } else if code == "KeyE"@ {
        Some(18)
    } else if code == "KeyR"@ {
        Some(19)
    } else if code == "KeyT"@ {
        Some(20)
    } else if code == "KeyY"@ {
        Some(21)
    } else if code == "KeyU"@ {
        Some(22)
    } else if code == "KeyI"@ {
        Some(23)
    } else if code == "KeyO"@ {
        Some(24)
    } else if code == "KeyP"@ {
        Some(25)
    } else if code == "BracketLeft"@ {
        Some(26)
    } else if code == "BracketRight"@ {
        Some(27)
    } else if code == "Enter"@ {
        Some(28)
    } else if code == "ControlLeft"@ {
        Some(29)
    } else if code == "KeyA"@ {
        Some(30)
    } else if code == "KeyS"@ {
        Some(31)
    } else if code == "KeyD"@ {
        Some(32)
    } else if code == "KeyF"@ {
        Some(33)
    } else if code == "KeyG"@ {
        Some(34)
    } else if code == "KeyH"@ {
        Some(35)
    } else if code == "KeyJ"@ {
        Some(36)
    } else if code == "KeyK"@ {
        Some(37)
    } else if code == "KeyL"@ {
        Some(38)
    } else if code == "Semicolon"@ {
        Some(39)
    } else if code == "Quote"@ {
        Some(40)
    } else if code == "Backquote"@ {
        Some(41)
    } else if code == "ShiftLeft"@ {
        Some(42)
    } else if code == "Backslash"@ {
        Some(43)
    } else if code == "KeyZ"@ {
        Some(44)
    } else if code == "KeyX"@ {
        Some(45)
    } else if code == "KeyC"@ {
        Some(46)
    } else if code == "KeyV"@ {
        Some(47)
    } else if code == "KeyB"@ {
        Some(48)
    } else if code == "KeyN"@ {
        Some(49)
    } else if code == "KeyM"@ {
        Some(50)
    } else if code == "Comma"@ {
        Some(51)
    } else if code == "Period"@ {
        Some(52)
    } else if code == "Slash"@ {
        Some(53)
    } else if code == "ShiftRight"@ {
        Some(54)
    } else if code == "NumpadMultiply"@ {
        Some(55)
    } else if code == "AltLeft"@ {
        Some(56)
    } else if code == "Space"@ {
        Some(57)
    } else if code == "CapsLock"@ {
        Some(58)
    } else if code == "F1"@ {
        Some(59)
    } else if code == "F2"@ {
        Some(60)
    } else if code == "F3"@ {
        Some(61)
    } else if code == "F4"@ {
        Some(62)
    } else if code == "F5"@ {
        Some(63)
    } else if code == "F6"@ {
        Some(64)
    } else if code == "F7"@ {
        Some(65)
    } else if code == "F8"@ {
        Some(66)
    } else if code == "F9"@ {
        Some(67)
    } else if code == "F10"@ {
        Some(68)
    } else if code == "NumLock"@ {
        Some(69)
    } else if code == "ScrollLock"@ {
        Some(70)
    } else if code == "Numpad7"@ {
        Some(71)
    } else if code == "Numpad8"@ {
        Some(72)
    } else if code == "Numpad9"@ {
        Some(73)
    } else if code == "NumpadSubtract"@ {
        Some(74)
    } else if code == "Numpad4"@ {
        Some(75)
    } else if code == "Numpad5"@ {
        Some(76)
    } else if code == "Numpad6"@ {
        Some(77)
    } else if code == "NumpadAdd"@ {
        Some(78)
    } else if code == "Numpad1"@ {
        Some(79)
    } else if code == "Numpad2"@ {
        Some(80)
    } else if code == "Numpad3"@ {
        Some(81)
    } else if code == "Numpad0"@ {
        Some(82)
    } else if code == "NumpadDecimal"@ {
        Some(83)
    } else if code == "IntlBackslash"@ {
        Some(86)
    } else if code == "F11"@ {
        Some(87)
    } else if code == "F12"@ {
        Some(88)
    } else if code == "IntlRo"@ {
        Some(89)
    } else if code == "NumpadEnter"@ {
        Some(96)
    } else if code == "ControlRight"@ {
        Some(97)
    } else if code == "NumpadDivide"@ {
        Some(98)
    } else if code == "PrintScreen"@ {
        Some(99)
    } else if code == "AltRight"@ {
        Some(100)
    } else if code == "Home"@ {
        Some(102)
    } else if code == "ArrowUp"@ {
        Some(103)
    } else if code == "PageUp"@ {
        Some(104)
    } else if code == "ArrowLeft"@ {
        Some(105)
    } else if code == "ArrowRight"@ {
        Some(106)
    } else if code == "End"@ {
        Some(107)
    } else if code == "ArrowDown"@ {
        Some(108)
    } else if code == "PageDown"@ {
        Some(109)
    } else if code == "Insert"@ {
        Some(110)
    } else if code == "Delete"@ {
        Some(111)
    } else if code == "NumpadEqual"@ {
        Some(117)
    } else if code == "Pause"@ {
        Some(119)
    } else if code == "IntlYen"@ {
        Some(124)
    } else if code == "MetaLeft"@ {
        Some(125)
    } else if code == "MetaRight"@ {
        Some(126)
    } else if code == "ContextMenu"@ {
        Some(127)
    } else {
        None
    }
}

/// `KeyboardEvent.code` to Linux evdev keycode (US layout, common subset).
///
/// The numeric keypad has scancodes distinct from the digit row, and a client
/// reading them gets the arrows and Home/End that NumLock-off produces, which
/// is why mapping them to the digits would be wrong rather than approximate.
pub fn evdev_key(code: &str) -> (key: Option<u32>)
    ensures
        key == keycode_of(code@),
{
    if same(code, "Escape") {
        Some(1)
    } else if same(code, "Digit1") {
        Some(2)
    } else if same(code, "Digit2") {
        Some(3)
    } else if same(code, "Digit3") {
        Some(4)
    } else if same(code, "Digit4") {
        Some(5)
    } else if same(code, "Digit5") {
        Some(6)
    } else if same(code, "Digit6") {
        Some(7)
    } else if same(code, "Digit7") {
        Some(8)
    } else if same(code, "Digit8") {
        Some(9)
    } else if same(code, "Digit9") {
        Some(10)
    } else if same(code, "Digit0") {
        Some(11)
    } else if same(code, "Minus") {
        Some(12)
    } else if same(code, "Equal") {
        Some(13)
    } else if same(code, "Backspace") {
        Some(14)
    } else if same(code, "Tab") {
        Some(15)
    } else if same(code, "KeyQ") {
        Some(16)
    } else if same(code, "KeyW") {
        Some(17)
    } else if same(code, "KeyE") {
        Some(18)
    } else if same(code, "KeyR") {
        Some(19)
    } else if same(code, "KeyT") {
        Some(20)
    } else if same(code, "KeyY") {
        Some(21)
    } else if same(code, "KeyU") {
        Some(22)
    } else if same(code, "KeyI") {
        Some(23)
    } else if same(code, "KeyO") {
        Some(24)
    } else if same(code, "KeyP") {
        Some(25)
    } else if same(code, "BracketLeft") {
        Some(26)
    } else if same(code, "BracketRight") {
        Some(27)
    } else if same(code, "Enter") {
        Some(28)
    } else if same(code, "ControlLeft") {
        Some(29)
    } else if same(code, "KeyA") {
        Some(30)
    } else if same(code, "KeyS") {
        Some(31)
    } else if same(code, "KeyD") {
        Some(32)
    } else if same(code, "KeyF") {
        Some(33)
    } else if same(code, "KeyG") {
        Some(34)
    } else if same(code, "KeyH") {
        Some(35)
    } else if same(code, "KeyJ") {
        Some(36)
    } else if same(code, "KeyK") {
        Some(37)
    } else if same(code, "KeyL") {
        Some(38)
    } else if same(code, "Semicolon") {
        Some(39)
    } else if same(code, "Quote") {
        Some(40)
    } else if same(code, "Backquote") {
        Some(41)
    } else if same(code, "ShiftLeft") {
        Some(42)
    } else if same(code, "Backslash") {
        Some(43)
    } else if same(code, "KeyZ") {
        Some(44)
    } else if same(code, "KeyX") {
        Some(45)
    } else if same(code, "KeyC") {
        Some(46)
    } else if same(code, "KeyV") {
        Some(47)
    } else if same(code, "KeyB") {
        Some(48)
    } else if same(code, "KeyN") {
        Some(49)
    } else if same(code, "KeyM") {
        Some(50)
    } else if same(code, "Comma") {
        Some(51)
    } else if same(code, "Period") {
        Some(52)
    } else if same(code, "Slash") {
        Some(53)
    } else if same(code, "ShiftRight") {
        Some(54)
    } else if same(code, "NumpadMultiply") {
        Some(55)
    } else if same(code, "AltLeft") {
        Some(56)
    } else if same(code, "Space") {
        Some(57)
    } else if same(code, "CapsLock") {
        Some(58)
    } else if same(code, "F1") {
        Some(59)
    } else if same(code, "F2") {
        Some(60)
    } else if same(code, "F3") {
        Some(61)
    } else if same(code, "F4") {
        Some(62)
    } else if same(code, "F5") {
        Some(63)
    } else if same(code, "F6") {
        Some(64)
    } else if same(code, "F7") {
        Some(65)
    } else if same(code, "F8") {
        Some(66)
    } else if same(code, "F9") {
        Some(67)
    } else if same(code, "F10") {
        Some(68)
    } else if same(code, "NumLock") {
        Some(69)
    } else if same(code, "ScrollLock") {
        Some(70)
    } else if same(code, "Numpad7") {
        Some(71)
    } else if same(code, "Numpad8") {
        Some(72)
    } else if same(code, "Numpad9") {
        Some(73)
    } else if same(code, "NumpadSubtract") {
        Some(74)
    } else if same(code, "Numpad4") {
        Some(75)
    } else if same(code, "Numpad5") {
        Some(76)
    } else if same(code, "Numpad6") {
        Some(77)
    } else if same(code, "NumpadAdd") {
        Some(78)
    } else if same(code, "Numpad1") {
        Some(79)
    } else if same(code, "Numpad2") {
        Some(80)
    } else if same(code, "Numpad3") {
        Some(81)
    } else if same(code, "Numpad0") {
        Some(82)
    } else if same(code, "NumpadDecimal") {
        Some(83)
    } else if same(code, "IntlBackslash") {
        Some(86)
    } else if same(code, "F11") {
        Some(87)
    } else if same(code, "F12") {
        Some(88)
    } else if same(code, "IntlRo") {
        Some(89)
    } else if same(code, "NumpadEnter") {
        Some(96)
    } else if same(code, "ControlRight") {
        Some(97)
    } else if same(code, "NumpadDivide") {
        Some(98)
    } else if same(code, "PrintScreen") {
        Some(99)
    } else if same(code, "AltRight") {
        Some(100)
    } else if same(code, "Home") {
        Some(102)
    } else if same(code, "ArrowUp") {
        Some(103)
    } else if same(code, "PageUp") {
        Some(104)
    } else if same(code, "ArrowLeft") {
        Some(105)
    } else if same(code, "ArrowRight") {
        Some(106)
    } else if same(code, "End") {
        Some(107)
    } else if same(code, "ArrowDown") {
        Some(108)
    } else if same(code, "PageDown") {
        Some(109)
    } else if same(code, "Insert") {
        Some(110)
    } else if same(code, "Delete") {
        Some(111)
    } else if same(code, "NumpadEqual") {
        Some(117)
    } else if same(code, "Pause") {
        Some(119)
    } else if same(code, "IntlYen") {
        Some(124)
    } else if same(code, "MetaLeft") {
        Some(125)
    } else if same(code, "MetaRight") {
        Some(126)
    } else if same(code, "ContextMenu") {
        Some(127)
    } else {
        None
    }
}

/// The physical key of an evdev keycode.
pub open spec fn key_of(keycode: u32) -> Seq<char> {
    if keycode == 1 {
        "Escape"@
    } else if keycode == 2 {
        "Digit1"@
    } else if keycode == 3 {
        "Digit2"@
    } else if keycode == 4 {
        "Digit3"@
    } else if keycode == 5 {
        "Digit4"@
    } else if keycode == 6 {
        "Digit5"@
    } else if keycode == 7 {
        "Digit6"@
    } else if keycode == 8 {
        "Digit7"@
    } else if keycode == 9 {
        "Digit8"@
    } else if keycode == 10 {
        "Digit9"@
    } else if keycode == 11 {
        "Digit0"@
    } else if keycode == 12 {
        "Minus"@
    } else if keycode == 13 {
        "Equal"@
    } else if keycode == 14 {
        "Backspace"@
    } else if keycode == 15 {
        "Tab"@
    } else if keycode == 16 {
        "KeyQ"@
    } else if keycode == 17 {
        "KeyW"@
    } else if keycode == 18 {
        "KeyE"@
    } else if keycode == 19 {
        "KeyR"@
    } else if keycode == 20 {
        "KeyT"@
    } else if keycode == 21 {
        "KeyY"@
    } else if keycode == 22 {
        "KeyU"@
    } else if keycode == 23 {
        "KeyI"@
    } else if keycode == 24 {
        "KeyO"@
    } else if keycode == 25 {
        "KeyP"@
    } else if keycode == 26 {
        "BracketLeft"@
    } else if keycode == 27 {
        "BracketRight"@
    } else if keycode == 28 {
        "Enter"@
    } else if keycode == 29 {
        "ControlLeft"@
    } else if keycode == 30 {
        "KeyA"@
    } else if keycode == 31 {
        "KeyS"@
    } else if keycode == 32 {
        "KeyD"@
    } else if keycode == 33 {
        "KeyF"@
    } else if keycode == 34 {
        "KeyG"@
    } else if keycode == 35 {
        "KeyH"@
    } else if keycode == 36 {
        "KeyJ"@
    } else if keycode == 37 {
        "KeyK"@
    } else if keycode == 38 {
        "KeyL"@
    } else if keycode == 39 {
        "Semicolon"@
    } else if keycode == 40 {
        "Quote"@
    } else if keycode == 41 {
        "Backquote"@
    } else if keycode == 42 {
        "ShiftLeft"@
    } else if keycode == 43 {
        "Backslash"@
    } else if keycode == 44 {
        "KeyZ"@
    } else if keycode == 45 {
        "KeyX"@
    } else if keycode == 46 {
        "KeyC"@
    } else if keycode == 47 {
        "KeyV"@
    } else if keycode == 48 {
        "KeyB"@
    } else if keycode == 49 {
        "KeyN"@
    } else if keycode == 50 {
        "KeyM"@
    } else if keycode == 51 {
        "Comma"@
    } else if keycode == 52 {
        "Period"@
    } else if keycode == 53 {
        "Slash"@
    } else if keycode == 54 {
        "ShiftRight"@
    } else if keycode == 55 {
        "NumpadMultiply"@
    } else if keycode == 56 {
        "AltLeft"@
    } else if keycode == 57 {
        "Space"@
    } else if keycode == 58 {
        "CapsLock"@
    } else if keycode == 59 {
        "F1"@
    } else if keycode == 60 {
        "F2"@
    } else if keycode == 61 {
        "F3"@
    } else if keycode == 62 {
        "F4"@
    } else if keycode == 63 {
        "F5"@
    } else if keycode == 64 {
        "F6"@
    } else if keycode == 65 {
        "F7"@
    } else if keycode == 66 {
        "F8"@
    } else if keycode == 67 {
        "F9"@
    } else if keycode == 68 {
        "F10"@
    } else if keycode == 69 {
        "NumLock"@
    } else if keycode == 70 {
        "ScrollLock"@
    } else if keycode == 71 {
        "Numpad7"@
    } else if keycode == 72 {
        "Numpad8"@
    } else if keycode == 73 {
        "Numpad9"@
    } else if keycode == 74 {
        "NumpadSubtract"@
    } else if keycode == 75 {
        "Numpad4"@
    } else if keycode == 76 {
        "Numpad5"@
    } else if keycode == 77 {
        "Numpad6"@
    } else if keycode == 78 {
        "NumpadAdd"@
    } else if keycode == 79 {
        "Numpad1"@
    } else if keycode == 80 {
        "Numpad2"@
    } else if keycode == 81 {
        "Numpad3"@
    } else if keycode == 82 {
        "Numpad0"@
    } else if keycode == 83 {
        "NumpadDecimal"@
    } else if keycode == 86 {
        "IntlBackslash"@
    } else if keycode == 87 {
        "F11"@
    } else if keycode == 88 {
        "F12"@
    } else if keycode == 89 {
        "IntlRo"@
    } else if keycode == 96 {
        "NumpadEnter"@
    } else if keycode == 97 {
        "ControlRight"@
    } else if keycode == 98 {
        "NumpadDivide"@
    } else if keycode == 99 {
        "PrintScreen"@
    } else if keycode == 100 {
        "AltRight"@
    } else if keycode == 102 {
        "Home"@
    } else if keycode == 103 {
        "ArrowUp"@
    } else if keycode == 104 {
        "PageUp"@
    } else if keycode == 105 {
        "ArrowLeft"@
    } else if keycode == 106 {
        "ArrowRight"@
    } else if keycode == 107 {
        "End"@
    } else if keycode == 108 {
        "ArrowDown"@
    } else if keycode == 109 {
        "PageDown"@
    } else if keycode == 110 {
        "Insert"@
    } else if keycode == 111 {
        "Delete"@
    } else if keycode == 117 {
        "NumpadEqual"@
    } else if keycode == 119 {
        "Pause"@
    } else if keycode == 124 {
        "IntlYen"@
    } else if keycode == 125 {
        "MetaLeft"@
    } else if keycode == 126 {
        "MetaRight"@
    } else if keycode == 127 {
        "ContextMenu"@
    } else {
        Seq::empty()
    }
}

/// No two keys share a keycode: what the compositor is told names the key that
/// was pressed.
pub proof fn a_keycode_names_its_key(code: Seq<char>)
    requires
        keycode_of(code) is Some,
    ensures
        key_of(keycode_of(code)->0) == code,
{
}

/// The modifiers, in the order in which they are brought into agreement.
///
/// Left and right count as the same modifier, because they are, except for alt,
/// where they are not. On any layout with a third level the right-hand alt key
/// is `AltGr`, which is no alt at all, and the browser says so: it reports
/// `AltGraph` and leaves `Alt` false. Counted as alt, it would be released
/// before every keystroke it was meant to shift.
#[derive(Debug, Clone, Copy, PartialEq, Eq, Structural)]
pub enum Modifier {
    Shift,
    Control,
    Alt,
    AltGraph,
    Meta,
}

/// How many modifiers there are.
pub const MODIFIERS: usize = 5;

/// The `i`th modifier.
pub open spec fn modifier_at(i: int) -> Modifier {
    if i == 0 {
        Modifier::Shift
    } else if i == 1 {
        Modifier::Control
    } else if i == 2 {
        Modifier::Alt
    } else if i == 3 {
        Modifier::AltGraph
    } else {
        Modifier::Meta
    }
}

/// The keycodes that produce a modifier, the left-hand one first.
pub open spec fn modifier_codes(modifier: Modifier) -> Seq<u32> {
    match modifier {
        Modifier::Shift => seq![42, 54],
        Modifier::Control => seq![29, 97],
        Modifier::Alt => seq![56],
        Modifier::AltGraph => seq![100],
        Modifier::Meta => seq![125, 126],
    }
}

/// Does the keycode produce any modifier?
pub open spec fn is_modifier(keycode: u32) -> bool {
    exists|m: Modifier| #[trigger] modifier_codes(m).contains(keycode)
}

impl Modifier {
    /// The `i`th modifier.
    pub fn at(i: usize) -> (modifier: Self)
        ensures
            modifier == modifier_at(i as int),
    {
        match i {
            0 => Modifier::Shift,
            1 => Modifier::Control,
            2 => Modifier::Alt,
            3 => Modifier::AltGraph,
            _ => Modifier::Meta,
        }
    }

    /// The modifier's name, as the browser is asked about it.
    pub fn name(self) -> (name: &'static str)
        ensures
            name@ == (match self {
                Modifier::Shift => "Shift"@,
                Modifier::Control => "Control"@,
                Modifier::Alt => "Alt"@,
                Modifier::AltGraph => "AltGraph"@,
                Modifier::Meta => "Meta"@,
            }),
    {
        match self {
            Modifier::Shift => "Shift",
            Modifier::Control => "Control",
            Modifier::Alt => "Alt",
            Modifier::AltGraph => "AltGraph",
            Modifier::Meta => "Meta",
        }
    }

    /// The keycodes that produce the modifier, the left-hand one first.
    pub fn codes(self) -> (codes: Vec<u32>)
        ensures
            codes@ == modifier_codes(self),
    {
        match self {
            Modifier::Shift => vec![42, 54],
            Modifier::Control => vec![29, 97],
            Modifier::Alt => vec![56],
            Modifier::AltGraph => vec![100],
            Modifier::Meta => vec![125, 126],
        }
    }

    /// Does the keycode produce this modifier?
    pub fn has(self, keycode: u32) -> (found: bool)
        ensures
            found == modifier_codes(self).contains(keycode),
    {
        proof {
            let codes = modifier_codes(self);
            if codes.len() == 2 {
                assert(codes.contains(codes[0]));
                assert(codes.contains(codes[1]));
            } else {
                assert(codes.contains(codes[0]));
            }
        }
        match self {
            Modifier::Shift => keycode == 42 || keycode == 54,
            Modifier::Control => keycode == 29 || keycode == 97,
            Modifier::Alt => keycode == 56,
            Modifier::AltGraph => keycode == 100,
            Modifier::Meta => keycode == 125 || keycode == 126,
        }
    }
}

/// The modifier table and the key table agree: every keycode that produces a
/// modifier is the keycode of a physical key, so a modifier that is held down
/// on the compositor's side was a key that could be pressed here.
pub proof fn modifiers_are_keys(modifier: Modifier, i: int)
    requires
        0 <= i < modifier_codes(modifier).len(),
    ensures
        keycode_of(key_of(modifier_codes(modifier)[i])) == Some(modifier_codes(modifier)[i]),
{
    reveal_strlit("ShiftLeft");
    reveal_strlit("ShiftRight");
    reveal_strlit("ControlLeft");
    reveal_strlit("ControlRight");
    reveal_strlit("AltLeft");
    reveal_strlit("AltRight");
    reveal_strlit("MetaLeft");
    reveal_strlit("MetaRight");
    every_key_has_its_keycode(modifier_codes(modifier)[i]);
}

/// Every key of the table is found by its name: it has the keycode that names it.
#[verifier::rlimit(100)]
pub proof fn every_key_has_its_keycode(keycode: u32)
    requires
        key_of(keycode).len() > 0,
    ensures
        keycode_of(key_of(keycode)) == Some(keycode),
{
    reveal_strlit("AltLeft");
    reveal_strlit("AltRight");
    reveal_strlit("ArrowDown");
    reveal_strlit("ArrowLeft");
    reveal_strlit("ArrowRight");
    reveal_strlit("ArrowUp");
    reveal_strlit("Backquote");
    reveal_strlit("Backslash");
    reveal_strlit("Backspace");
    reveal_strlit("BracketLeft");
    reveal_strlit("BracketRight");
    reveal_strlit("CapsLock");
    reveal_strlit("Comma");
    reveal_strlit("ContextMenu");
    reveal_strlit("ControlLeft");
    reveal_strlit("ControlRight");
    reveal_strlit("Delete");
    reveal_strlit("Digit0");
    reveal_strlit("Digit1");
    reveal_strlit("Digit2");
    reveal_strlit("Digit3");
    reveal_strlit("Digit4");
    reveal_strlit("Digit5");
    reveal_strlit("Digit6");
    reveal_strlit("Digit7");
    reveal_strlit("Digit8");
    reveal_strlit("Digit9");
    reveal_strlit("End");
    reveal_strlit("Enter");
    reveal_strlit("Equal");
    reveal_strlit("Escape");
    reveal_strlit("F1");
    reveal_strlit("F10");
    reveal_strlit("F11");
    reveal_strlit("F12");
    reveal_strlit("F2");
    reveal_strlit("F3");
    reveal_strlit("F4");
    reveal_strlit("F5");
    reveal_strlit("F6");
    reveal_strlit("F7");
    reveal_strlit("F8");
    reveal_strlit("F9");
    reveal_strlit("Home");
    reveal_strlit("Insert");
    reveal_strlit("IntlBackslash");
    reveal_strlit("IntlRo");
    reveal_strlit("IntlYen");
    reveal_strlit("KeyA");
    reveal_strlit("KeyB");
    reveal_strlit("KeyC");
    reveal_strlit("KeyD");
    reveal_strlit("KeyE");
    reveal_strlit("KeyF");
    reveal_strlit("KeyG");
    reveal_strlit("KeyH");
    reveal_strlit("KeyI");
    reveal_strlit("KeyJ");
    reveal_strlit("KeyK");
    reveal_strlit("KeyL");
    reveal_strlit("KeyM");
    reveal_strlit("KeyN");
    reveal_strlit("KeyO");
    reveal_strlit("KeyP");
    reveal_strlit("KeyQ");
    reveal_strlit("KeyR");
    reveal_strlit("KeyS");
    reveal_strlit("KeyT");
    reveal_strlit("KeyU");
    reveal_strlit("KeyV");
    reveal_strlit("KeyW");
    reveal_strlit("KeyX");
    reveal_strlit("KeyY");
    reveal_strlit("KeyZ");
    reveal_strlit("MetaLeft");
    reveal_strlit("MetaRight");
    reveal_strlit("Minus");
    reveal_strlit("NumLock");
    reveal_strlit("Numpad0");
    reveal_strlit("Numpad1");
    reveal_strlit("Numpad2");
    reveal_strlit("Numpad3");
    reveal_strlit("Numpad4");
    reveal_strlit("Numpad5");
    reveal_strlit("Numpad6");
    reveal_strlit("Numpad7");
    reveal_strlit("Numpad8");
    reveal_strlit("Numpad9");
    reveal_strlit("NumpadAdd");
    reveal_strlit("NumpadDecimal");
    reveal_strlit("NumpadDivide");
    reveal_strlit("NumpadEnter");
    reveal_strlit("NumpadEqual");
    reveal_strlit("NumpadMultiply");
    reveal_strlit("NumpadSubtract");
    reveal_strlit("PageDown");
    reveal_strlit("PageUp");
    reveal_strlit("Pause");
    reveal_strlit("Period");
    reveal_strlit("PrintScreen");
    reveal_strlit("Quote");
    reveal_strlit("ScrollLock");
    reveal_strlit("Semicolon");
    reveal_strlit("ShiftLeft");
    reveal_strlit("ShiftRight");
    reveal_strlit("Slash");
    reveal_strlit("Space");
    reveal_strlit("Tab");
    assert("Escape"@.len() == 6 && "Escape"@[0] == 'E' && "Escape"@[1] == 's' && "Escape"@[2] ==
        'c' && "Escape"@[3] == 'a' && "Escape"@[4] == 'p' && "Escape"@[5] == 'e');
    assert("Digit1"@.len() == 6 && "Digit1"@[0] == 'D' && "Digit1"@[1] == 'i' && "Digit1"@[2] ==
        'g' && "Digit1"@[3] == 'i' && "Digit1"@[4] == 't' && "Digit1"@[5] == '1');
    assert("Digit2"@.len() == 6 && "Digit2"@[0] == 'D' && "Digit2"@[1] == 'i' && "Digit2"@[2] ==
        'g' && "Digit2"@[3] == 'i' && "Digit2"@[4] == 't' && "Digit2"@[5] == '2');
    assert("Digit3"@.len() == 6 && "Digit3"@[0] == 'D' && "Digit3"@[1] == 'i' && "Digit3"@[2] ==
        'g' && "Digit3"@[3] == 'i' && "Digit3"@[4] == 't' && "Digit3"@[5] == '3');
    assert("Digit4"@.len() == 6 && "Digit4"@[0] == 'D' && "Digit4"@[1] == 'i' && "Digit4"@[2] ==
        'g' && "Digit4"@[3] == 'i' && "Digit4"@[4] == 't' && "Digit4"@[5] == '4');
    assert("Digit5"@.len() == 6 && "Digit5"@[0] == 'D' && "Digit5"@[1] == 'i' && "Digit5"@[2] ==
        'g' && "Digit5"@[3] == 'i' && "Digit5"@[4] == 't' && "Digit5"@[5] == '5');
    assert("Digit6"@.len() == 6 && "Digit6"@[0] == 'D' && "Digit6"@[1] == 'i' && "Digit6"@[2] ==
        'g' && "Digit6"@[3] == 'i' && "Digit6"@[4] == 't' && "Digit6"@[5] == '6');
    assert("Digit7"@.len() == 6 && "Digit7"@[0] == 'D' && "Digit7"@[1] == 'i' && "Digit7"@[2] ==
        'g' && "Digit7"@[3] == 'i' && "Digit7"@[4] == 't' && "Digit7"@[5] == '7');
    assert("Digit8"@.len() == 6 && "Digit8"@[0] == 'D' && "Digit8"@[1] == 'i' && "Digit8"@[2] ==
        'g' && "Digit8"@[3] == 'i' && "Digit8"@[4] == 't' && "Digit8"@[5] == '8');
    assert("Digit9"@.len() == 6 && "Digit9"@[0] == 'D' && "Digit9"@[1] == 'i' && "Digit9"@[2] ==
        'g' && "Digit9"@[3] == 'i' && "Digit9"@[4] == 't' && "Digit9"@[5] == '9');
    assert("Digit0"@.len() == 6 && "Digit0"@[0] == 'D' && "Digit0"@[1] == 'i' && "Digit0"@[2] ==
        'g' && "Digit0"@[3] == 'i' && "Digit0"@[4] == 't' && "Digit0"@[5] == '0');
    assert("Minus"@.len() == 5 && "Minus"@[0] == 'M' && "Minus"@[1] == 'i' && "Minus"@[2] == 'n'
        && "Minus"@[3] == 'u' && "Minus"@[4] == 's');
    assert("Equal"@.len() == 5 && "Equal"@[0] == 'E' && "Equal"@[1] == 'q' && "Equal"@[2] == 'u'
        && "Equal"@[3] == 'a' && "Equal"@[4] == 'l');
    assert("Backspace"@.len() == 9 && "Backspace"@[0] == 'B' && "Backspace"@[1] == 'a'
        && "Backspace"@[2] == 'c' && "Backspace"@[3] == 'k' && "Backspace"@[4] == 's'
        && "Backspace"@[5] == 'p' && "Backspace"@[6] == 'a' && "Backspace"@[7] == 'c'
        && "Backspace"@[8] == 'e');
    assert("Tab"@.len() == 3 && "Tab"@[0] == 'T' && "Tab"@[1] == 'a' && "Tab"@[2] == 'b');
    assert("KeyQ"@.len() == 4 && "KeyQ"@[0] == 'K' && "KeyQ"@[1] == 'e' && "KeyQ"@[2] == 'y'
        && "KeyQ"@[3] == 'Q');
    assert("KeyW"@.len() == 4 && "KeyW"@[0] == 'K' && "KeyW"@[1] == 'e' && "KeyW"@[2] == 'y'
        && "KeyW"@[3] == 'W');
    assert("KeyE"@.len() == 4 && "KeyE"@[0] == 'K' && "KeyE"@[1] == 'e' && "KeyE"@[2] == 'y'
        && "KeyE"@[3] == 'E');
    assert("KeyR"@.len() == 4 && "KeyR"@[0] == 'K' && "KeyR"@[1] == 'e' && "KeyR"@[2] == 'y'
        && "KeyR"@[3] == 'R');
    assert("KeyT"@.len() == 4 && "KeyT"@[0] == 'K' && "KeyT"@[1] == 'e' && "KeyT"@[2] == 'y'
        && "KeyT"@[3] == 'T');
    assert("KeyY"@.len() == 4 && "KeyY"@[0] == 'K' && "KeyY"@[1] == 'e' && "KeyY"@[2] == 'y'
        && "KeyY"@[3] == 'Y');
    assert("KeyU"@.len() == 4 && "KeyU"@[0] == 'K' && "KeyU"@[1] == 'e' && "KeyU"@[2] == 'y'
        && "KeyU"@[3] == 'U');
    assert("KeyI"@.len() == 4 && "KeyI"@[0] == 'K' && "KeyI"@[1] == 'e' && "KeyI"@[2] == 'y'
        && "KeyI"@[3] == 'I');
    assert("KeyO"@.len() == 4 && "KeyO"@[0] == 'K' && "KeyO"@[1] == 'e' && "KeyO"@[2] == 'y'
        && "KeyO"@[3] == 'O');
    assert("KeyP"@.len() == 4 && "KeyP"@[0] == 'K' && "KeyP"@[1] == 'e' && "KeyP"@[2] == 'y'
        && "KeyP"@[3] == 'P');
    assert("BracketLeft"@.len() == 11 && "BracketLeft"@[0] == 'B' && "BracketLeft"@[1] == 'r'
        && "BracketLeft"@[2] == 'a' && "BracketLeft"@[3] == 'c' && "BracketLeft"@[4] == 'k'
        && "BracketLeft"@[5] == 'e' && "BracketLeft"@[6] == 't' && "BracketLeft"@[7] == 'L'
        && "BracketLeft"@[8] == 'e' && "BracketLeft"@[9] == 'f' && "BracketLeft"@[10] == 't');
    assert("BracketRight"@.len() == 12 && "BracketRight"@[0] == 'B' && "BracketRight"@[1] == 'r'
        && "BracketRight"@[2] == 'a' && "BracketRight"@[3] == 'c' && "BracketRight"@[4] == 'k'
        && "BracketRight"@[5] == 'e' && "BracketRight"@[6] == 't' && "BracketRight"@[7] == 'R'
        && "BracketRight"@[8] == 'i' && "BracketRight"@[9] == 'g' && "BracketRight"@[10] == 'h'
        && "BracketRight"@[11] == 't');
    assert("Enter"@.len() == 5 && "Enter"@[0] == 'E' && "Enter"@[1] == 'n' && "Enter"@[2] == 't'
        && "Enter"@[3] == 'e' && "Enter"@[4] == 'r');
    assert("ControlLeft"@.len() == 11 && "ControlLeft"@[0] == 'C' && "ControlLeft"@[1] == 'o'
        && "ControlLeft"@[2] == 'n' && "ControlLeft"@[3] == 't' && "ControlLeft"@[4] == 'r'
        && "ControlLeft"@[5] == 'o' && "ControlLeft"@[6] == 'l' && "ControlLeft"@[7] == 'L'
        && "ControlLeft"@[8] == 'e' && "ControlLeft"@[9] == 'f' && "ControlLeft"@[10] == 't');
    assert("KeyA"@.len() == 4 && "KeyA"@[0] == 'K' && "KeyA"@[1] == 'e' && "KeyA"@[2] == 'y'
        && "KeyA"@[3] == 'A');
    assert("KeyS"@.len() == 4 && "KeyS"@[0] == 'K' && "KeyS"@[1] == 'e' && "KeyS"@[2] == 'y'
        && "KeyS"@[3] == 'S');
    assert("KeyD"@.len() == 4 && "KeyD"@[0] == 'K' && "KeyD"@[1] == 'e' && "KeyD"@[2] == 'y'
        && "KeyD"@[3] == 'D');
    assert("KeyF"@.len() == 4 && "KeyF"@[0] == 'K' && "KeyF"@[1] == 'e' && "KeyF"@[2] == 'y'
        && "KeyF"@[3] == 'F');
    assert("KeyG"@.len() == 4 && "KeyG"@[0] == 'K' && "KeyG"@[1] == 'e' && "KeyG"@[2] == 'y'
        && "KeyG"@[3] == 'G');
    assert("KeyH"@.len() == 4 && "KeyH"@[0] == 'K' && "KeyH"@[1] == 'e' && "KeyH"@[2] == 'y'
        && "KeyH"@[3] == 'H');
    assert("KeyJ"@.len() == 4 && "KeyJ"@[0] == 'K' && "KeyJ"@[1] == 'e' && "KeyJ"@[2] == 'y'
        && "KeyJ"@[3] == 'J');
    assert("KeyK"@.len() == 4 && "KeyK"@[0] == 'K' && "KeyK"@[1] == 'e' && "KeyK"@[2] == 'y'
        && "KeyK"@[3] == 'K');
    assert("KeyL"@.len() == 4 && "KeyL"@[0] == 'K' && "KeyL"@[1] == 'e' && "KeyL"@[2] == 'y'
        && "KeyL"@[3] == 'L');
    assert("Semicolon"@.len() == 9 && "Semicolon"@[0] == 'S' && "Semicolon"@[1] == 'e'
        && "Semicolon"@[2] == 'm' && "Semicolon"@[3] == 'i' && "Semicolon"@[4] == 'c'
        && "Semicolon"@[5] == 'o' && "Semicolon"@[6] == 'l' && "Semicolon"@[7] == 'o'
        && "Semicolon"@[8] == 'n');
    assert("Quote"@.len() == 5 && "Quote"@[0] == 'Q' && "Quote"@[1] == 'u' && "Quote"@[2] == 'o'
        && "Quote"@[3] == 't' && "Quote"@[4] == 'e');
    assert("Backquote"@.len() == 9 && "Backquote"@[0] == 'B' && "Backquote"@[1] == 'a'
        && "Backquote"@[2] == 'c' && "Backquote"@[3] == 'k' && "Backquote"@[4] == 'q'
        && "Backquote"@[5] == 'u' && "Backquote"@[6] == 'o' && "Backquote"@[7] == 't'
        && "Backquote"@[8] == 'e');
    assert("ShiftLeft"@.len() == 9 && "ShiftLeft"@[0] == 'S' && "ShiftLeft"@[1] == 'h'
        && "ShiftLeft"@[2] == 'i' && "ShiftLeft"@[3] == 'f' && "ShiftLeft"@[4] == 't'
        && "ShiftLeft"@[5] == 'L' && "ShiftLeft"@[6] == 'e' && "ShiftLeft"@[7] == 'f'
        && "ShiftLeft"@[8] == 't');
    assert("Backslash"@.len() == 9 && "Backslash"@[0] == 'B' && "Backslash"@[1] == 'a'
        && "Backslash"@[2] == 'c' && "Backslash"@[3] == 'k' && "Backslash"@[4] == 's'
        && "Backslash"@[5] == 'l' && "Backslash"@[6] == 'a' && "Backslash"@[7] == 's'
        && "Backslash"@[8] == 'h');
    assert("KeyZ"@.len() == 4 && "KeyZ"@[0] == 'K' && "KeyZ"@[1] == 'e' && "KeyZ"@[2] == 'y'
        && "KeyZ"@[3] == 'Z');
    assert("KeyX"@.len() == 4 && "KeyX"@[0] == 'K' && "KeyX"@[1] == 'e' && "KeyX"@[2] == 'y'
        && "KeyX"@[3] == 'X');
    assert("KeyC"@.len() == 4 && "KeyC"@[0] == 'K' && "KeyC"@[1] == 'e' && "KeyC"@[2] == 'y'
        && "KeyC"@[3] == 'C');
    assert("KeyV"@.len() == 4 && "KeyV"@[0] == 'K' && "KeyV"@[1] == 'e' && "KeyV"@[2] == 'y'
        && "KeyV"@[3] == 'V');
    assert("KeyB"@.len() == 4 && "KeyB"@[0] == 'K' && "KeyB"@[1] == 'e' && "KeyB"@[2] == 'y'
        && "KeyB"@[3] == 'B');
    assert("KeyN"@.len() == 4 && "KeyN"@[0] == 'K' && "KeyN"@[1] == 'e' && "KeyN"@[2] == 'y'
        && "KeyN"@[3] == 'N');
    assert("KeyM"@.len() == 4 && "KeyM"@[0] == 'K' && "KeyM"@[1] == 'e' && "KeyM"@[2] == 'y'
        && "KeyM"@[3] == 'M');
    assert("Comma"@.len() == 5 && "Comma"@[0] == 'C' && "Comma"@[1] == 'o' && "Comma"@[2] == 'm'
        && "Comma"@[3] == 'm' && "Comma"@[4] == 'a');
    assert("Period"@.len() == 6 && "Period"@[0] == 'P' && "Period"@[1] == 'e' && "Period"@[2] ==
        'r' && "Period"@[3] == 'i' && "Period"@[4] == 'o' && "Period"@[5] == 'd');
    assert("Slash"@.len() == 5 && "Slash"@[0] == 'S' && "Slash"@[1] == 'l' && "Slash"@[2] == 'a'
        && "Slash"@[3] == 's' && "Slash"@[4] == 'h');
    assert("ShiftRight"@.len() == 10 && "ShiftRight"@[0] == 'S' && "ShiftRight"@[1] == 'h'
        && "ShiftRight"@[2] == 'i' && "ShiftRight"@[3] == 'f' && "ShiftRight"@[4] == 't'
        && "ShiftRight"@[5] == 'R' && "ShiftRight"@[6] == 'i' && "ShiftRight"@[7] == 'g'
        && "ShiftRight"@[8] == 'h' && "ShiftRight"@[9] == 't');
    assert("NumpadMultiply"@.len() == 14 && "NumpadMultiply"@[0] == 'N' && "NumpadMultiply"@[1]
        == 'u' && "NumpadMultiply"@[2] == 'm' && "NumpadMultiply"@[3] == 'p' && "NumpadMultiply"@[4]
        == 'a' && "NumpadMultiply"@[5] == 'd' && "NumpadMultiply"@[6] == 'M' && "NumpadMultiply"@[7]
        == 'u' && "NumpadMultiply"@[8] == 'l' && "NumpadMultiply"@[9] == 't'
        && "NumpadMultiply"@[10] == 'i' && "NumpadMultiply"@[11] == 'p' && "NumpadMultiply"@[12] ==
        'l' && "NumpadMultiply"@[13] == 'y');
    assert("AltLeft"@.len() == 7 && "AltLeft"@[0] == 'A' && "AltLeft"@[1] == 'l'
        && "AltLeft"@[2] == 't' && "AltLeft"@[3] == 'L' && "AltLeft"@[4] == 'e' && "AltLeft"@[5] ==
        'f' && "AltLeft"@[6] == 't');
    assert("Space"@.len() == 5 && "Space"@[0] == 'S' && "Space"@[1] == 'p' && "Space"@[2] == 'a'
        && "Space"@[3] == 'c' && "Space"@[4] == 'e');
    assert("CapsLock"@.len() == 8 && "CapsLock"@[0] == 'C' && "CapsLock"@[1] == 'a'
        && "CapsLock"@[2] == 'p' && "CapsLock"@[3] == 's' && "CapsLock"@[4] == 'L' && "CapsLock"@[5]
        == 'o' && "CapsLock"@[6] == 'c' && "CapsLock"@[7] == 'k');
    assert("F1"@.len() == 2 && "F1"@[0] == 'F' && "F1"@[1] == '1');
    assert("F2"@.len() == 2 && "F2"@[0] == 'F' && "F2"@[1] == '2');
    assert("F3"@.len() == 2 && "F3"@[0] == 'F' && "F3"@[1] == '3');
    assert("F4"@.len() == 2 && "F4"@[0] == 'F' && "F4"@[1] == '4');
    assert("F5"@.len() == 2 && "F5"@[0] == 'F' && "F5"@[1] == '5');
    assert("F6"@.len() == 2 && "F6"@[0] == 'F' && "F6"@[1] == '6');
    assert("F7"@.len() == 2 && "F7"@[0] == 'F' && "F7"@[1] == '7');
    assert("F8"@.len() == 2 && "F8"@[0] == 'F' && "F8"@[1] == '8');
    assert("F9"@.len() == 2 && "F9"@[0] == 'F' && "F9"@[1] == '9');
    assert("F10"@.len() == 3 && "F10"@[0] == 'F' && "F10"@[1] == '1' && "F10"@[2] == '0');
    assert("NumLock"@.len() == 7 && "NumLock"@[0] == 'N' && "NumLock"@[1] == 'u'
        && "NumLock"@[2] == 'm' && "NumLock"@[3] == 'L' && "NumLock"@[4] == 'o' && "NumLock"@[5] ==
        'c' && "NumLock"@[6] == 'k');
    assert("ScrollLock"@.len() == 10 && "ScrollLock"@[0] == 'S' && "ScrollLock"@[1] == 'c'
        && "ScrollLock"@[2] == 'r' && "ScrollLock"@[3] == 'o' && "ScrollLock"@[4] == 'l'
        && "ScrollLock"@[5] == 'l' && "ScrollLock"@[6] == 'L' && "ScrollLock"@[7] == 'o'
        && "ScrollLock"@[8] == 'c' && "ScrollLock"@[9] == 'k');
    assert("Numpad7"@.len() == 7 && "Numpad7"@[0] == 'N' && "Numpad7"@[1] == 'u'
        && "Numpad7"@[2] == 'm' && "Numpad7"@[3] == 'p' && "Numpad7"@[4] == 'a' && "Numpad7"@[5] ==
        'd' && "Numpad7"@[6] == '7');
    assert("Numpad8"@.len() == 7 && "Numpad8"@[0] == 'N' && "Numpad8"@[1] == 'u'
        && "Numpad8"@[2] == 'm' && "Numpad8"@[3] == 'p' && "Numpad8"@[4] == 'a' && "Numpad8"@[5] ==
        'd' && "Numpad8"@[6] == '8');
    assert("Numpad9"@.len() == 7 && "Numpad9"@[0] == 'N' && "Numpad9"@[1] == 'u'
        && "Numpad9"@[2] == 'm' && "Numpad9"@[3] == 'p' && "Numpad9"@[4] == 'a' && "Numpad9"@[5] ==
        'd' && "Numpad9"@[6] == '9');
    assert("NumpadSubtract"@.len() == 14 && "NumpadSubtract"@[0] == 'N' && "NumpadSubtract"@[1]
        == 'u' && "NumpadSubtract"@[2] == 'm' && "NumpadSubtract"@[3] == 'p' && "NumpadSubtract"@[4]
        == 'a' && "NumpadSubtract"@[5] == 'd' && "NumpadSubtract"@[6] == 'S' && "NumpadSubtract"@[7]
        == 'u' && "NumpadSubtract"@[8] == 'b' && "NumpadSubtract"@[9] == 't'
        && "NumpadSubtract"@[10] == 'r' && "NumpadSubtract"@[11] == 'a' && "NumpadSubtract"@[12] ==
        'c' && "NumpadSubtract"@[13] == 't');
    assert("Numpad4"@.len() == 7 && "Numpad4"@[0] == 'N' && "Numpad4"@[1] == 'u'
        && "Numpad4"@[2] == 'm' && "Numpad4"@[3] == 'p' && "Numpad4"@[4] == 'a' && "Numpad4"@[5] ==
        'd' && "Numpad4"@[6] == '4');
    assert("Numpad5"@.len() == 7 && "Numpad5"@[0] == 'N' && "Numpad5"@[1] == 'u'
        && "Numpad5"@[2] == 'm' && "Numpad5"@[3] == 'p' && "Numpad5"@[4] == 'a' && "Numpad5"@[5] ==
        'd' && "Numpad5"@[6] == '5');
    assert("Numpad6"@.len() == 7 && "Numpad6"@[0] == 'N' && "Numpad6"@[1] == 'u'
        && "Numpad6"@[2] == 'm' && "Numpad6"@[3] == 'p' && "Numpad6"@[4] == 'a' && "Numpad6"@[5] ==
        'd' && "Numpad6"@[6] == '6');
    assert("NumpadAdd"@.len() == 9 && "NumpadAdd"@[0] == 'N' && "NumpadAdd"@[1] == 'u'
        && "NumpadAdd"@[2] == 'm' && "NumpadAdd"@[3] == 'p' && "NumpadAdd"@[4] == 'a'
        && "NumpadAdd"@[5] == 'd' && "NumpadAdd"@[6] == 'A' && "NumpadAdd"@[7] == 'd'
        && "NumpadAdd"@[8] == 'd');
    assert("Numpad1"@.len() == 7 && "Numpad1"@[0] == 'N' && "Numpad1"@[1] == 'u'
        && "Numpad1"@[2] == 'm' && "Numpad1"@[3] == 'p' && "Numpad1"@[4] == 'a' && "Numpad1"@[5] ==
        'd' && "Numpad1"@[6] == '1');
    assert("Numpad2"@.len() == 7 && "Numpad2"@[0] == 'N' && "Numpad2"@[1] == 'u'
        && "Numpad2"@[2] == 'm' && "Numpad2"@[3] == 'p' && "Numpad2"@[4] == 'a' && "Numpad2"@[5] ==
        'd' && "Numpad2"@[6] == '2');
    assert("Numpad3"@.len() == 7 && "Numpad3"@[0] == 'N' && "Numpad3"@[1] == 'u'
        && "Numpad3"@[2] == 'm' && "Numpad3"@[3] == 'p' && "Numpad3"@[4] == 'a' && "Numpad3"@[5] ==
        'd' && "Numpad3"@[6] == '3');
    assert("Numpad0"@.len() == 7 && "Numpad0"@[0] == 'N' && "Numpad0"@[1] == 'u'
        && "Numpad0"@[2] == 'm' && "Numpad0"@[3] == 'p' && "Numpad0"@[4] == 'a' && "Numpad0"@[5] ==
        'd' && "Numpad0"@[6] == '0');
    assert("NumpadDecimal"@.len() == 13 && "NumpadDecimal"@[0] == 'N' && "NumpadDecimal"@[1] ==
        'u' && "NumpadDecimal"@[2] == 'm' && "NumpadDecimal"@[3] == 'p' && "NumpadDecimal"@[4] ==
        'a' && "NumpadDecimal"@[5] == 'd' && "NumpadDecimal"@[6] == 'D' && "NumpadDecimal"@[7] ==
        'e' && "NumpadDecimal"@[8] == 'c' && "NumpadDecimal"@[9] == 'i' && "NumpadDecimal"@[10] ==
        'm' && "NumpadDecimal"@[11] == 'a' && "NumpadDecimal"@[12] == 'l');
    assert("IntlBackslash"@.len() == 13 && "IntlBackslash"@[0] == 'I' && "IntlBackslash"@[1] ==
        'n' && "IntlBackslash"@[2] == 't' && "IntlBackslash"@[3] == 'l' && "IntlBackslash"@[4] ==
        'B' && "IntlBackslash"@[5] == 'a' && "IntlBackslash"@[6] == 'c' && "IntlBackslash"@[7] ==
        'k' && "IntlBackslash"@[8] == 's' && "IntlBackslash"@[9] == 'l' && "IntlBackslash"@[10] ==
        'a' && "IntlBackslash"@[11] == 's' && "IntlBackslash"@[12] == 'h');
    assert("F11"@.len() == 3 && "F11"@[0] == 'F' && "F11"@[1] == '1' && "F11"@[2] == '1');
    assert("F12"@.len() == 3 && "F12"@[0] == 'F' && "F12"@[1] == '1' && "F12"@[2] == '2');
    assert("IntlRo"@.len() == 6 && "IntlRo"@[0] == 'I' && "IntlRo"@[1] == 'n' && "IntlRo"@[2] ==
        't' && "IntlRo"@[3] == 'l' && "IntlRo"@[4] == 'R' && "IntlRo"@[5] == 'o');
    assert("NumpadEnter"@.len() == 11 && "NumpadEnter"@[0] == 'N' && "NumpadEnter"@[1] == 'u'
        && "NumpadEnter"@[2] == 'm' && "NumpadEnter"@[3] == 'p' && "NumpadEnter"@[4] == 'a'
        && "NumpadEnter"@[5] == 'd' && "NumpadEnter"@[6] == 'E' && "NumpadEnter"@[7] == 'n'
        && "NumpadEnter"@[8] == 't' && "NumpadEnter"@[9] == 'e' && "NumpadEnter"@[10] == 'r');
    assert("ControlRight"@.len() == 12 && "ControlRight"@[0] == 'C' && "ControlRight"@[1] == 'o'
        && "ControlRight"@[2] == 'n' && "ControlRight"@[3] == 't' && "ControlRight"@[4] == 'r'
        && "ControlRight"@[5] == 'o' && "ControlRight"@[6] == 'l' && "ControlRight"@[7] == 'R'
        && "ControlRight"@[8] == 'i' && "ControlRight"@[9] == 'g' && "ControlRight"@[10] == 'h'
        && "ControlRight"@[11] == 't');
    assert("NumpadDivide"@.len() == 12 && "NumpadDivide"@[0] == 'N' && "NumpadDivide"@[1] == 'u'
        && "NumpadDivide"@[2] == 'm' && "NumpadDivide"@[3] == 'p' && "NumpadDivide"@[4] == 'a'
        && "NumpadDivide"@[5] == 'd' && "NumpadDivide"@[6] == 'D' && "NumpadDivide"@[7] == 'i'
        && "NumpadDivide"@[8] == 'v' && "NumpadDivide"@[9] == 'i' && "NumpadDivide"@[10] == 'd'
        && "NumpadDivide"@[11] == 'e');
    assert("PrintScreen"@.len() == 11 && "PrintScreen"@[0] == 'P' && "PrintScreen"@[1] == 'r'
        && "PrintScreen"@[2] == 'i' && "PrintScreen"@[3] == 'n' && "PrintScreen"@[4] == 't'
        && "PrintScreen"@[5] == 'S' && "PrintScreen"@[6] == 'c' && "PrintScreen"@[7] == 'r'
        && "PrintScreen"@[8] == 'e' && "PrintScreen"@[9] == 'e' && "PrintScreen"@[10] == 'n');
    assert("AltRight"@.len() == 8 && "AltRight"@[0] == 'A' && "AltRight"@[1] == 'l'
        && "AltRight"@[2] == 't' && "AltRight"@[3] == 'R' && "AltRight"@[4] == 'i' && "AltRight"@[5]
        == 'g' && "AltRight"@[6] == 'h' && "AltRight"@[7] == 't');
    assert("Home"@.len() == 4 && "Home"@[0] == 'H' && "Home"@[1] == 'o' && "Home"@[2] == 'm'
        && "Home"@[3] == 'e');
    assert("ArrowUp"@.len() == 7 && "ArrowUp"@[0] == 'A' && "ArrowUp"@[1] == 'r'
        && "ArrowUp"@[2] == 'r' && "ArrowUp"@[3] == 'o' && "ArrowUp"@[4] == 'w' && "ArrowUp"@[5] ==
        'U' && "ArrowUp"@[6] == 'p');
    assert("PageUp"@.len() == 6 && "PageUp"@[0] == 'P' && "PageUp"@[1] == 'a' && "PageUp"@[2] ==
        'g' && "PageUp"@[3] == 'e' && "PageUp"@[4] == 'U' && "PageUp"@[5] == 'p');
    assert("ArrowLeft"@.len() == 9 && "ArrowLeft"@[0] == 'A' && "ArrowLeft"@[1] == 'r'
        && "ArrowLeft"@[2] == 'r' && "ArrowLeft"@[3] == 'o' && "ArrowLeft"@[4] == 'w'
        && "ArrowLeft"@[5] == 'L' && "ArrowLeft"@[6] == 'e' && "ArrowLeft"@[7] == 'f'
        && "ArrowLeft"@[8] == 't');
    assert("ArrowRight"@.len() == 10 && "ArrowRight"@[0] == 'A' && "ArrowRight"@[1] == 'r'
        && "ArrowRight"@[2] == 'r' && "ArrowRight"@[3] == 'o' && "ArrowRight"@[4] == 'w'
        && "ArrowRight"@[5] == 'R' && "ArrowRight"@[6] == 'i' && "ArrowRight"@[7] == 'g'
        && "ArrowRight"@[8] == 'h' && "ArrowRight"@[9] == 't');
    assert("End"@.len() == 3 && "End"@[0] == 'E' && "End"@[1] == 'n' && "End"@[2] == 'd');
    assert("ArrowDown"@.len() == 9 && "ArrowDown"@[0] == 'A' && "ArrowDown"@[1] == 'r'
        && "ArrowDown"@[2] == 'r' && "ArrowDown"@[3] == 'o' && "ArrowDown"@[4] == 'w'
        && "ArrowDown"@[5] == 'D' && "ArrowDown"@[6] == 'o' && "ArrowDown"@[7] == 'w'
        && "ArrowDown"@[8] == 'n');
    assert("PageDown"@.len() == 8 && "PageDown"@[0] == 'P' && "PageDown"@[1] == 'a'
        && "PageDown"@[2] == 'g' && "PageDown"@[3] == 'e' && "PageDown"@[4] == 'D' && "PageDown"@[5]
        == 'o' && "PageDown"@[6] == 'w' && "PageDown"@[7] == 'n');
    assert("Insert"@.len() == 6 && "Insert"@[0] == 'I' && "Insert"@[1] == 'n' && "Insert"@[2] ==
        's' && "Insert"@[3] == 'e' && "Insert"@[4] == 'r' && "Insert"@[5] == 't');
    assert("Delete"@.len() == 6 && "Delete"@[0] == 'D' && "Delete"@[1] == 'e' && "Delete"@[2] ==
        'l' && "Delete"@[3] == 'e' && "Delete"@[4] == 't' && "Delete"@[5] == 'e');
    assert("NumpadEqual"@.len() == 11 && "NumpadEqual"@[0] == 'N' && "NumpadEqual"@[1] == 'u'
        && "NumpadEqual"@[2] == 'm' && "NumpadEqual"@[3] == 'p' && "NumpadEqual"@[4] == 'a'
        && "NumpadEqual"@[5] == 'd' && "NumpadEqual"@[6] == 'E' && "NumpadEqual"@[7] == 'q'
        && "NumpadEqual"@[8] == 'u' && "NumpadEqual"@[9] == 'a' && "NumpadEqual"@[10] == 'l');
    assert("Pause"@.len() == 5 && "Pause"@[0] == 'P' && "Pause"@[1] == 'a' && "Pause"@[2] == 'u'
        && "Pause"@[3] == 's' && "Pause"@[4] == 'e');
    assert("IntlYen"@.len() == 7 && "IntlYen"@[0] == 'I' && "IntlYen"@[1] == 'n'
        && "IntlYen"@[2] == 't' && "IntlYen"@[3] == 'l' && "IntlYen"@[4] == 'Y' && "IntlYen"@[5] ==
        'e' && "IntlYen"@[6] == 'n');
    assert("MetaLeft"@.len() == 8 && "MetaLeft"@[0] == 'M' && "MetaLeft"@[1] == 'e'
        && "MetaLeft"@[2] == 't' && "MetaLeft"@[3] == 'a' && "MetaLeft"@[4] == 'L' && "MetaLeft"@[5]
        == 'e' && "MetaLeft"@[6] == 'f' && "MetaLeft"@[7] == 't');
    assert("MetaRight"@.len() == 9 && "MetaRight"@[0] == 'M' && "MetaRight"@[1] == 'e'
        && "MetaRight"@[2] == 't' && "MetaRight"@[3] == 'a' && "MetaRight"@[4] == 'R'
        && "MetaRight"@[5] == 'i' && "MetaRight"@[6] == 'g' && "MetaRight"@[7] == 'h'
        && "MetaRight"@[8] == 't');
    assert("ContextMenu"@.len() == 11 && "ContextMenu"@[0] == 'C' && "ContextMenu"@[1] == 'o'
        && "ContextMenu"@[2] == 'n' && "ContextMenu"@[3] == 't' && "ContextMenu"@[4] == 'e'
        && "ContextMenu"@[5] == 'x' && "ContextMenu"@[6] == 't' && "ContextMenu"@[7] == 'M'
        && "ContextMenu"@[8] == 'e' && "ContextMenu"@[9] == 'n' && "ContextMenu"@[10] == 'u');
    assert(key_of(1) == "Escape"@ && keycode_of("Escape"@) == Some(1u32));
    assert(key_of(2) == "Digit1"@ && keycode_of("Digit1"@) == Some(2u32));
    assert(key_of(3) == "Digit2"@ && keycode_of("Digit2"@) == Some(3u32));
    assert(key_of(4) == "Digit3"@ && keycode_of("Digit3"@) == Some(4u32));
    assert(key_of(5) == "Digit4"@ && keycode_of("Digit4"@) == Some(5u32));
    assert(key_of(6) == "Digit5"@ && keycode_of("Digit5"@) == Some(6u32));
    assert(key_of(7) == "Digit6"@ && keycode_of("Digit6"@) == Some(7u32));
    assert(key_of(8) == "Digit7"@ && keycode_of("Digit7"@) == Some(8u32));
    assert(key_of(9) == "Digit8"@ && keycode_of("Digit8"@) == Some(9u32));
    assert(key_of(10) == "Digit9"@ && keycode_of("Digit9"@) == Some(10u32));
    assert(key_of(11) == "Digit0"@ && keycode_of("Digit0"@) == Some(11u32));
    assert(key_of(12) == "Minus"@ && keycode_of("Minus"@) == Some(12u32));
    assert(key_of(13) == "Equal"@ && keycode_of("Equal"@) == Some(13u32));
    assert(key_of(14) == "Backspace"@ && keycode_of("Backspace"@) == Some(14u32));
    assert(key_of(15) == "Tab"@ && keycode_of("Tab"@) == Some(15u32));
    assert(key_of(16) == "KeyQ"@ && keycode_of("KeyQ"@) == Some(16u32));
    assert(key_of(17) == "KeyW"@ && keycode_of("KeyW"@) == Some(17u32));
    assert(key_of(18) == "KeyE"@ && keycode_of("KeyE"@) == Some(18u32));
    assert(key_of(19) == "KeyR"@ && keycode_of("KeyR"@) == Some(19u32));
    assert(key_of(20) == "KeyT"@ && keycode_of("KeyT"@) == Some(20u32));
    assert(key_of(21) == "KeyY"@ && keycode_of("KeyY"@) == Some(21u32));
    assert(key_of(22) == "KeyU"@ && keycode_of("KeyU"@) == Some(22u32));
    assert(key_of(23) == "KeyI"@ && keycode_of("KeyI"@) == Some(23u32));
    assert(key_of(24) == "KeyO"@ && keycode_of("KeyO"@) == Some(24u32));
    assert(key_of(25) == "KeyP"@ && keycode_of("KeyP"@) == Some(25u32));
    assert(key_of(26) == "BracketLeft"@ && keycode_of("BracketLeft"@) == Some(26u32));
    assert(key_of(27) == "BracketRight"@ && keycode_of("BracketRight"@) == Some(27u32));
    assert(key_of(28) == "Enter"@ && keycode_of("Enter"@) == Some(28u32));
    assert(key_of(29) == "ControlLeft"@ && keycode_of("ControlLeft"@) == Some(29u32));
    assert(key_of(30) == "KeyA"@ && keycode_of("KeyA"@) == Some(30u32));
    assert(key_of(31) == "KeyS"@ && keycode_of("KeyS"@) == Some(31u32));
    assert(key_of(32) == "KeyD"@ && keycode_of("KeyD"@) == Some(32u32));
    assert(key_of(33) == "KeyF"@ && keycode_of("KeyF"@) == Some(33u32));
    assert(key_of(34) == "KeyG"@ && keycode_of("KeyG"@) == Some(34u32));
    assert(key_of(35) == "KeyH"@ && keycode_of("KeyH"@) == Some(35u32));
    assert(key_of(36) == "KeyJ"@ && keycode_of("KeyJ"@) == Some(36u32));
    assert(key_of(37) == "KeyK"@ && keycode_of("KeyK"@) == Some(37u32));
    assert(key_of(38) == "KeyL"@ && keycode_of("KeyL"@) == Some(38u32));
    assert(key_of(39) == "Semicolon"@ && keycode_of("Semicolon"@) == Some(39u32));
    assert(key_of(40) == "Quote"@ && keycode_of("Quote"@) == Some(40u32));
    assert(key_of(41) == "Backquote"@ && keycode_of("Backquote"@) == Some(41u32));
    assert(key_of(42) == "ShiftLeft"@ && keycode_of("ShiftLeft"@) == Some(42u32));
    assert(key_of(43) == "Backslash"@ && keycode_of("Backslash"@) == Some(43u32));
    assert(key_of(44) == "KeyZ"@ && keycode_of("KeyZ"@) == Some(44u32));
    assert(key_of(45) == "KeyX"@ && keycode_of("KeyX"@) == Some(45u32));
    assert(key_of(46) == "KeyC"@ && keycode_of("KeyC"@) == Some(46u32));
    assert(key_of(47) == "KeyV"@ && keycode_of("KeyV"@) == Some(47u32));
    assert(key_of(48) == "KeyB"@ && keycode_of("KeyB"@) == Some(48u32));
    assert(key_of(49) == "KeyN"@ && keycode_of("KeyN"@) == Some(49u32));
    assert(key_of(50) == "KeyM"@ && keycode_of("KeyM"@) == Some(50u32));
    assert(key_of(51) == "Comma"@ && keycode_of("Comma"@) == Some(51u32));
    assert(key_of(52) == "Period"@ && keycode_of("Period"@) == Some(52u32));
    assert(key_of(53) == "Slash"@ && keycode_of("Slash"@) == Some(53u32));
    assert(key_of(54) == "ShiftRight"@ && keycode_of("ShiftRight"@) == Some(54u32));
    assert(key_of(55) == "NumpadMultiply"@ && keycode_of("NumpadMultiply"@) == Some(55u32));
    assert(key_of(56) == "AltLeft"@ && keycode_of("AltLeft"@) == Some(56u32));
    assert(key_of(57) == "Space"@ && keycode_of("Space"@) == Some(57u32));
    assert(key_of(58) == "CapsLock"@ && keycode_of("CapsLock"@) == Some(58u32));
    assert(key_of(59) == "F1"@ && keycode_of("F1"@) == Some(59u32));
    assert(key_of(60) == "F2"@ && keycode_of("F2"@) == Some(60u32));
    assert(key_of(61) == "F3"@ && keycode_of("F3"@) == Some(61u32));
    assert(key_of(62) == "F4"@ && keycode_of("F4"@) == Some(62u32));
    assert(key_of(63) == "F5"@ && keycode_of("F5"@) == Some(63u32));
    assert(key_of(64) == "F6"@ && keycode_of("F6"@) == Some(64u32));
    assert(key_of(65) == "F7"@ && keycode_of("F7"@) == Some(65u32));
    assert(key_of(66) == "F8"@ && keycode_of("F8"@) == Some(66u32));
    assert(key_of(67) == "F9"@ && keycode_of("F9"@) == Some(67u32));
    assert(key_of(68) == "F10"@ && keycode_of("F10"@) == Some(68u32));
    assert(key_of(69) == "NumLock"@ && keycode_of("NumLock"@) == Some(69u32));
    assert(key_of(70) == "ScrollLock"@ && keycode_of("ScrollLock"@) == Some(70u32));
    assert(key_of(71) == "Numpad7"@ && keycode_of("Numpad7"@) == Some(71u32));
    assert(key_of(72) == "Numpad8"@ && keycode_of("Numpad8"@) == Some(72u32));
    assert(key_of(73) == "Numpad9"@ && keycode_of("Numpad9"@) == Some(73u32));
    assert(key_of(74) == "NumpadSubtract"@ && keycode_of("NumpadSubtract"@) == Some(74u32));
    assert(key_of(75) == "Numpad4"@ && keycode_of("Numpad4"@) == Some(75u32));
    assert(key_of(76) == "Numpad5"@ && keycode_of("Numpad5"@) == Some(76u32));
    assert(key_of(77) == "Numpad6"@ && keycode_of("Numpad6"@) == Some(77u32));
    assert(key_of(78) == "NumpadAdd"@ && keycode_of("NumpadAdd"@) == Some(78u32));
    assert(key_of(79) == "Numpad1"@ && keycode_of("Numpad1"@) == Some(79u32));
    assert(key_of(80) == "Numpad2"@ && keycode_of("Numpad2"@) == Some(80u32));
    assert(key_of(81) == "Numpad3"@ && keycode_of("Numpad3"@) == Some(81u32));
    assert(key_of(82) == "Numpad0"@ && keycode_of("Numpad0"@) == Some(82u32));
    assert(key_of(83) == "NumpadDecimal"@ && keycode_of("NumpadDecimal"@) == Some(83u32));
    assert(key_of(86) == "IntlBackslash"@ && keycode_of("IntlBackslash"@) == Some(86u32));
    assert(key_of(87) == "F11"@ && keycode_of("F11"@) == Some(87u32));
    assert(key_of(88) == "F12"@ && keycode_of("F12"@) == Some(88u32));
    assert(key_of(89) == "IntlRo"@ && keycode_of("IntlRo"@) == Some(89u32));
    assert(key_of(96) == "NumpadEnter"@ && keycode_of("NumpadEnter"@) == Some(96u32));
    assert(key_of(97) == "ControlRight"@ && keycode_of("ControlRight"@) == Some(97u32));
    assert(key_of(98) == "NumpadDivide"@ && keycode_of("NumpadDivide"@) == Some(98u32));
    assert(key_of(99) == "PrintScreen"@ && keycode_of("PrintScreen"@) == Some(99u32));
    assert(key_of(100) == "AltRight"@ && keycode_of("AltRight"@) == Some(100u32));
    assert(key_of(102) == "Home"@ && keycode_of("Home"@) == Some(102u32));
    assert(key_of(103) == "ArrowUp"@ && keycode_of("ArrowUp"@) == Some(103u32));
    assert(key_of(104) == "PageUp"@ && keycode_of("PageUp"@) == Some(104u32));
    assert(key_of(105) == "ArrowLeft"@ && keycode_of("ArrowLeft"@) == Some(105u32));
    assert(key_of(106) == "ArrowRight"@ && keycode_of("ArrowRight"@) == Some(106u32));
    assert(key_of(107) == "End"@ && keycode_of("End"@) == Some(107u32));
    assert(key_of(108) == "ArrowDown"@ && keycode_of("ArrowDown"@) == Some(108u32));
    assert(key_of(109) == "PageDown"@ && keycode_of("PageDown"@) == Some(109u32));
    assert(key_of(110) == "Insert"@ && keycode_of("Insert"@) == Some(110u32));
    assert(key_of(111) == "Delete"@ && keycode_of("Delete"@) == Some(111u32));
    assert(key_of(117) == "NumpadEqual"@ && keycode_of("NumpadEqual"@) == Some(117u32));
    assert(key_of(119) == "Pause"@ && keycode_of("Pause"@) == Some(119u32));
    assert(key_of(124) == "IntlYen"@ && keycode_of("IntlYen"@) == Some(124u32));
    assert(key_of(125) == "MetaLeft"@ && keycode_of("MetaLeft"@) == Some(125u32));
    assert(key_of(126) == "MetaRight"@ && keycode_of("MetaRight"@) == Some(126u32));
    assert(key_of(127) == "ContextMenu"@ && keycode_of("ContextMenu"@) == Some(127u32));
}

/// The digits have keycodes that follow each other as the keys do.
pub proof fn digits_stand_in_a_row()
    ensures
        forall|i: int|
            0 <= i < 10 ==> keycode_of("Digit"@.push(#[trigger] "1234567890"@[i])) == Some(
                (2 + i) as u32,
            ),
{
    reveal_strlit("1234567890");
    reveal_strlit("Digit");
    reveal_strlit("Digit0");
    reveal_strlit("Digit1");
    reveal_strlit("Digit2");
    reveal_strlit("Digit3");
    reveal_strlit("Digit4");
    reveal_strlit("Digit5");
    reveal_strlit("Digit6");
    reveal_strlit("Digit7");
    reveal_strlit("Digit8");
    reveal_strlit("Digit9");
    assert forall|i: int| 0 <= i < 10 implies keycode_of(
        "Digit"@.push(#[trigger] "1234567890"@[i]),
    ) == Some((2 + i) as u32) by {
        if i == 0 {
            assert("Digit"@.push("1234567890"@[i]) =~= "Digit1"@);
            every_key_has_its_keycode(2);
        }
        if i == 1 {
            assert("Digit"@.push("1234567890"@[i]) =~= "Digit2"@);
            every_key_has_its_keycode(3);
        }
        if i == 2 {
            assert("Digit"@.push("1234567890"@[i]) =~= "Digit3"@);
            every_key_has_its_keycode(4);
        }
        if i == 3 {
            assert("Digit"@.push("1234567890"@[i]) =~= "Digit4"@);
            every_key_has_its_keycode(5);
        }
        if i == 4 {
            assert("Digit"@.push("1234567890"@[i]) =~= "Digit5"@);
            every_key_has_its_keycode(6);
        }
        if i == 5 {
            assert("Digit"@.push("1234567890"@[i]) =~= "Digit6"@);
            every_key_has_its_keycode(7);
        }
        if i == 6 {
            assert("Digit"@.push("1234567890"@[i]) =~= "Digit7"@);
            every_key_has_its_keycode(8);
        }
        if i == 7 {
            assert("Digit"@.push("1234567890"@[i]) =~= "Digit8"@);
            every_key_has_its_keycode(9);
        }
        if i == 8 {
            assert("Digit"@.push("1234567890"@[i]) =~= "Digit9"@);
            every_key_has_its_keycode(10);
        }
        if i == 9 {
            assert("Digit"@.push("1234567890"@[i]) =~= "Digit0"@);
            every_key_has_its_keycode(11);
        }
    }
}

/// The letters of a row have keycodes that follow each other as the keys do.
pub proof fn letters_stand_in_rows()
    ensures
        forall|i: int|
            0 <= i < 10 ==> keycode_of("Key"@.push(#[trigger] "QWERTYUIOP"@[i])) == Some(
                (16 + i) as u32,
            ),
        forall|i: int|
            0 <= i < 9 ==> keycode_of("Key"@.push(#[trigger] "ASDFGHJKL"@[i])) == Some(
                (30 + i) as u32,
            ),
        forall|i: int|
            0 <= i < 7 ==> keycode_of("Key"@.push(#[trigger] "ZXCVBNM"@[i])) == Some(
                (44 + i) as u32,
            ),
{
    reveal_strlit("ASDFGHJKL");
    reveal_strlit("Key");
    reveal_strlit("KeyA");
    reveal_strlit("KeyB");
    reveal_strlit("KeyC");
    reveal_strlit("KeyD");
    reveal_strlit("KeyE");
    reveal_strlit("KeyF");
    reveal_strlit("KeyG");
    reveal_strlit("KeyH");
    reveal_strlit("KeyI");
    reveal_strlit("KeyJ");
    reveal_strlit("KeyK");
    reveal_strlit("KeyL");
    reveal_strlit("KeyM");
    reveal_strlit("KeyN");
    reveal_strlit("KeyO");
    reveal_strlit("KeyP");
    reveal_strlit("KeyQ");
    reveal_strlit("KeyR");
    reveal_strlit("KeyS");
    reveal_strlit("KeyT");
    reveal_strlit("KeyU");
    reveal_strlit("KeyV");
    reveal_strlit("KeyW");
    reveal_strlit("KeyX");
    reveal_strlit("KeyY");
    reveal_strlit("KeyZ");
    reveal_strlit("QWERTYUIOP");
    reveal_strlit("ZXCVBNM");
    assert forall|i: int| 0 <= i < 10 implies keycode_of(
        "Key"@.push(#[trigger] "QWERTYUIOP"@[i]),
    ) == Some((16 + i) as u32) by {
        if i == 0 {
            assert("Key"@.push("QWERTYUIOP"@[i]) =~= "KeyQ"@);
            every_key_has_its_keycode(16);
        }
        if i == 1 {
            assert("Key"@.push("QWERTYUIOP"@[i]) =~= "KeyW"@);
            every_key_has_its_keycode(17);
        }
        if i == 2 {
            assert("Key"@.push("QWERTYUIOP"@[i]) =~= "KeyE"@);
            every_key_has_its_keycode(18);
        }
        if i == 3 {
            assert("Key"@.push("QWERTYUIOP"@[i]) =~= "KeyR"@);
            every_key_has_its_keycode(19);
        }
        if i == 4 {
            assert("Key"@.push("QWERTYUIOP"@[i]) =~= "KeyT"@);
            every_key_has_its_keycode(20);
        }
        if i == 5 {
            assert("Key"@.push("QWERTYUIOP"@[i]) =~= "KeyY"@);
            every_key_has_its_keycode(21);
        }
        if i == 6 {
            assert("Key"@.push("QWERTYUIOP"@[i]) =~= "KeyU"@);
            every_key_has_its_keycode(22);
        }
        if i == 7 {
            assert("Key"@.push("QWERTYUIOP"@[i]) =~= "KeyI"@);
            every_key_has_its_keycode(23);
        }
        if i == 8 {
            assert("Key"@.push("QWERTYUIOP"@[i]) =~= "KeyO"@);
            every_key_has_its_keycode(24);
        }
        if i == 9 {
            assert("Key"@.push("QWERTYUIOP"@[i]) =~= "KeyP"@);
            every_key_has_its_keycode(25);
        }
    }
    assert forall|i: int| 0 <= i < 9 implies keycode_of(
        "Key"@.push(#[trigger] "ASDFGHJKL"@[i]),
    ) == Some((30 + i) as u32) by {
        if i == 0 {
            assert("Key"@.push("ASDFGHJKL"@[i]) =~= "KeyA"@);
            every_key_has_its_keycode(30);
        }
        if i == 1 {
            assert("Key"@.push("ASDFGHJKL"@[i]) =~= "KeyS"@);
            every_key_has_its_keycode(31);
        }
        if i == 2 {
            assert("Key"@.push("ASDFGHJKL"@[i]) =~= "KeyD"@);
            every_key_has_its_keycode(32);
        }
        if i == 3 {
            assert("Key"@.push("ASDFGHJKL"@[i]) =~= "KeyF"@);
            every_key_has_its_keycode(33);
        }
        if i == 4 {
            assert("Key"@.push("ASDFGHJKL"@[i]) =~= "KeyG"@);
            every_key_has_its_keycode(34);
        }
        if i == 5 {
            assert("Key"@.push("ASDFGHJKL"@[i]) =~= "KeyH"@);
            every_key_has_its_keycode(35);
        }
        if i == 6 {
            assert("Key"@.push("ASDFGHJKL"@[i]) =~= "KeyJ"@);
            every_key_has_its_keycode(36);
        }
        if i == 7 {
            assert("Key"@.push("ASDFGHJKL"@[i]) =~= "KeyK"@);
            every_key_has_its_keycode(37);
        }
        if i == 8 {
            assert("Key"@.push("ASDFGHJKL"@[i]) =~= "KeyL"@);
            every_key_has_its_keycode(38);
        }
    }
    assert forall|i: int| 0 <= i < 7 implies keycode_of(
        "Key"@.push(#[trigger] "ZXCVBNM"@[i]),
    ) == Some((44 + i) as u32) by {
        if i == 0 {
            assert("Key"@.push("ZXCVBNM"@[i]) =~= "KeyZ"@);
            every_key_has_its_keycode(44);
        }
        if i == 1 {
            assert("Key"@.push("ZXCVBNM"@[i]) =~= "KeyX"@);
            every_key_has_its_keycode(45);
        }
        if i == 2 {
            assert("Key"@.push("ZXCVBNM"@[i]) =~= "KeyC"@);
            every_key_has_its_keycode(46);
        }
        if i == 3 {
            assert("Key"@.push("ZXCVBNM"@[i]) =~= "KeyV"@);
            every_key_has_its_keycode(47);
        }
        if i == 4 {
            assert("Key"@.push("ZXCVBNM"@[i]) =~= "KeyB"@);
            every_key_has_its_keycode(48);
        }
        if i == 5 {
            assert("Key"@.push("ZXCVBNM"@[i]) =~= "KeyN"@);
            every_key_has_its_keycode(49);
        }
        if i == 6 {
            assert("Key"@.push("ZXCVBNM"@[i]) =~= "KeyM"@);
            every_key_has_its_keycode(50);
        }
    }
}

/// The digits of the keypad have keycodes that follow each other as the keys do.
pub proof fn the_keypad_stands_in_rows()
    ensures
        forall|i: int|
            0 <= i < 3 ==> keycode_of("Numpad"@.push(#[trigger] "789"@[i])) == Some(
                (71 + i) as u32,
            ),
        forall|i: int|
            0 <= i < 3 ==> keycode_of("Numpad"@.push(#[trigger] "456"@[i])) == Some(
                (75 + i) as u32,
            ),
        forall|i: int|
            0 <= i < 4 ==> keycode_of("Numpad"@.push(#[trigger] "1230"@[i])) == Some(
                (79 + i) as u32,
            ),
{
    reveal_strlit("1230");
    reveal_strlit("456");
    reveal_strlit("789");
    reveal_strlit("Numpad");
    reveal_strlit("Numpad0");
    reveal_strlit("Numpad1");
    reveal_strlit("Numpad2");
    reveal_strlit("Numpad3");
    reveal_strlit("Numpad4");
    reveal_strlit("Numpad5");
    reveal_strlit("Numpad6");
    reveal_strlit("Numpad7");
    reveal_strlit("Numpad8");
    reveal_strlit("Numpad9");
    assert forall|i: int| 0 <= i < 3 implies keycode_of(
        "Numpad"@.push(#[trigger] "789"@[i]),
    ) == Some((71 + i) as u32) by {
        if i == 0 {
            assert("Numpad"@.push("789"@[i]) =~= "Numpad7"@);
            every_key_has_its_keycode(71);
        }
        if i == 1 {
            assert("Numpad"@.push("789"@[i]) =~= "Numpad8"@);
            every_key_has_its_keycode(72);
        }
        if i == 2 {
            assert("Numpad"@.push("789"@[i]) =~= "Numpad9"@);
            every_key_has_its_keycode(73);
        }
    }
    assert forall|i: int| 0 <= i < 3 implies keycode_of(
        "Numpad"@.push(#[trigger] "456"@[i]),
    ) == Some((75 + i) as u32) by {
        if i == 0 {
            assert("Numpad"@.push("456"@[i]) =~= "Numpad4"@);
            every_key_has_its_keycode(75);
        }
        if i == 1 {
            assert("Numpad"@.push("456"@[i]) =~= "Numpad5"@);
            every_key_has_its_keycode(76);
        }
        if i == 2 {
            assert("Numpad"@.push("456"@[i]) =~= "Numpad6"@);
            every_key_has_its_keycode(77);
        }
    }
    assert forall|i: int| 0 <= i < 4 implies keycode_of(
        "Numpad"@.push(#[trigger] "1230"@[i]),
    ) == Some((79 + i) as u32) by {
        if i == 0 {
            assert("Numpad"@.push("1230"@[i]) =~= "Numpad1"@);
            every_key_has_its_keycode(79);
        }
        if i == 1 {
            assert("Numpad"@.push("1230"@[i]) =~= "Numpad2"@);
            every_key_has_its_keycode(80);
        }
        if i == 2 {
            assert("Numpad"@.push("1230"@[i]) =~= "Numpad3"@);
            every_key_has_its_keycode(81);
        }
        if i == 3 {
            assert("Numpad"@.push("1230"@[i]) =~= "Numpad0"@);
            every_key_has_its_keycode(82);
        }
    }
}

/// A modifier is what the keys that bear its name produce, on either side, and no
/// others. The two alt keys are two modifiers.
pub proof fn a_modifier_is_its_own_keys(modifier: Modifier, keycode: u32)
    ensures
        modifier_codes(modifier).contains(keycode) <==> match modifier {
            Modifier::Shift => key_of(keycode) == "ShiftLeft"@ || key_of(keycode) == "ShiftRight"@,
            Modifier::Control => key_of(keycode) == "ControlLeft"@ || key_of(keycode)
                == "ControlRight"@,
            Modifier::Alt => key_of(keycode) == "AltLeft"@,
            Modifier::AltGraph => key_of(keycode) == "AltRight"@,
            Modifier::Meta => key_of(keycode) == "MetaLeft"@ || key_of(keycode) == "MetaRight"@,
        },
{
    reveal_strlit("ShiftLeft");
    reveal_strlit("ShiftRight");
    reveal_strlit("ControlLeft");
    reveal_strlit("ControlRight");
    reveal_strlit("AltLeft");
    reveal_strlit("AltRight");
    reveal_strlit("MetaLeft");
    reveal_strlit("MetaRight");
    assert(key_of(42) == "ShiftLeft"@ && key_of(54) == "ShiftRight"@);
    assert(key_of(29) == "ControlLeft"@ && key_of(97) == "ControlRight"@);
    assert(key_of(56) == "AltLeft"@ && key_of(100) == "AltRight"@);
    assert(key_of(125) == "MetaLeft"@ && key_of(126) == "MetaRight"@);
    every_key_has_its_keycode(42);
    every_key_has_its_keycode(54);
    every_key_has_its_keycode(29);
    every_key_has_its_keycode(97);
    every_key_has_its_keycode(56);
    every_key_has_its_keycode(100);
    every_key_has_its_keycode(125);
    every_key_has_its_keycode(126);
    if key_of(keycode).len() > 0 {
        every_key_has_its_keycode(keycode);
    }
    let codes = modifier_codes(modifier);
    assert(codes.contains(codes[0]));
    if codes.len() == 2 {
        assert(codes.contains(codes[1]));
    }
}

/// Every modifier has one place in the order, and the places run out after the
/// last.
pub proof fn every_modifier_has_its_turn(modifier: Modifier)
    ensures
        exists|i: int| 0 <= i < MODIFIERS && #[trigger] modifier_at(i) == modifier,
        forall|i: int, j: int|
            0 <= i < j < MODIFIERS ==> #[trigger] modifier_at(i) != #[trigger] modifier_at(j),
{
    assert(modifier_at(0) == Modifier::Shift);
    assert(modifier_at(1) == Modifier::Control);
    assert(modifier_at(2) == Modifier::Alt);
    assert(modifier_at(3) == Modifier::AltGraph);
    assert(modifier_at(4) == Modifier::Meta);
}

} // verus!
