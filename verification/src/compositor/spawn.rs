//! The environment every application Webland starts is given.
//!
//! Webland is a session of its own, not a window on the host's. What decides
//! which of the two an application joins is the D-Bus session bus: a
//! single-instance application asks the bus whether a copy of itself is already
//! running, and hands it the request if one is. So the session runs a bus of its
//! own and points every child at it. `DISPLAY` gets the same treatment: with the
//! host's inherited, an X client started here would open on the host's screen.

use crate::text::{decimal, format_decimal, trim, trimmed};
use vstd::prelude::*;

verus! {

/// The null sink every application Webland starts plays into.
pub const AUDIO_SINK: &'static str = "webland";

/// What every child of the compositor is told about the session it joins.
#[derive(Debug)]
pub struct Env {
    /// Our Wayland socket.
    pub display: String,
    /// Our X display number, when `XWayland` is running.
    pub xdisplay: Option<u32>,
    /// The session bus children are pointed at, when there is one.
    pub bus: Option<String>,
}

/// A private bus, known by where it listens.
#[derive(Debug)]
pub struct Bus {
    pub address: String,
}

impl View for Bus {
    type V = Seq<char>;

    open spec fn view(&self) -> Seq<char> {
        self.address@
    }
}

/// What an [`Env`] holds.
#[verifier::ext_equal]
pub struct EnvView {
    pub display: Seq<char>,
    pub xdisplay: Option<u32>,
    pub bus: Option<Seq<char>>,
}

impl View for Env {
    type V = EnvView;

    open spec fn view(&self) -> EnvView {
        EnvView { display: self.display@, xdisplay: self.xdisplay, bus: self.bus.deep_view() }
    }
}

/// What a child's environment gains and loses: a value is set, none removes.
pub open spec fn changes(env: EnvView) -> Seq<(Seq<char>, Option<Seq<char>>)> {
    seq![
        ("WAYLAND_DISPLAY"@, Some(env.display)),
        ("XDG_SESSION_TYPE"@, Some("wayland"@)),
        ("PULSE_SINK"@, Some(AUDIO_SINK@)),
        (
            "DISPLAY"@,
            match env.xdisplay {
                Some(number) => Some(":"@ + decimal(number as nat)),
                None => None,
            },
        ),
        ("DBUS_SESSION_BUS_ADDRESS"@, env.bus),
    ]
}

impl Env {
    /// Point children at our Wayland socket, our X display, and the session's
    /// own bus.
    ///
    /// The bus belongs to the caller rather than to this type: the tray has to
    /// watch the same one applications register on, so the session starts it
    /// once and hands it to both.
    #[must_use]
    pub fn new(display: &str, xdisplay: Option<u32>, bus: Option<&Bus>) -> (env: Self)
        ensures
            env@ == (EnvView {
                display: display@,
                xdisplay,
                bus: match bus {
                    Some(running) => Some(running@),
                    None => None,
                },
            }),
    {
        let bus = match bus {
            Some(running) => Some(running.address.clone()),
            None => None,
        };
        Env { display: display.to_string(), xdisplay, bus }
    }

    /// What a command that is to join this session has to set and to remove.
    ///
    /// Toolkits pick their backend from the session type. Without a bus of our
    /// own the host's is taken away rather than left in place: without one, an
    /// application starts its own copy here instead of handing the window to the
    /// host's.
    #[must_use]
    pub fn delta(&self) -> (list: Vec<(String, Option<String>)>)
        ensures
            list.deep_view() == changes(self@),
    {
        let display = match self.xdisplay {
            Some(number) => {
                let mut text = ":".to_string();
                text.append(format_decimal(number as u64).as_str());
                Some(text)
            },
            None => None,
        };
        let bus = self.bus.clone();
        let list = vec![
            ("WAYLAND_DISPLAY".to_string(), Some(self.display.clone())),
            ("XDG_SESSION_TYPE".to_string(), Some("wayland".to_string())),
            ("PULSE_SINK".to_string(), Some(AUDIO_SINK.to_string())),
            ("DISPLAY".to_string(), display),
            ("DBUS_SESSION_BUS_ADDRESS".to_string(), bus),
        ];
        assert(list.deep_view() =~= changes(self@));
        list
    }
}

impl Bus {
    /// The bus that a daemon's first line of output names: the line, trimmed,
    /// is its address. A daemon that printed nothing has none.
    #[must_use]
    pub fn announced(line: &str) -> (bus: Option<Self>)
        ensures
            match bus {
                Some(running) => running@ == trimmed(line@) && running@.len() > 0,
                None => trimmed(line@).len() == 0,
            },
    {
        let address = trim(line);
        if address.as_str().unicode_len() == 0 {
            None
        } else {
            Some(Bus { address })
        }
    }

    /// Where to reach this bus: what children are told, and what the tray
    /// watches.
    #[must_use]
    pub fn address(&self) -> (address: &str)
        ensures
            address@ == self@,
    {
        self.address.as_str()
    }
}

/// Nothing of the host session is inherited: whatever there is to point a child
/// at, its Wayland socket, its X display and its bus are each set to ours or
/// taken away.
pub proof fn nothing_is_inherited(env: EnvView)
    ensures
        changes(env).contains(("WAYLAND_DISPLAY"@, Some(env.display))),
        env.xdisplay is None ==> changes(env).contains(("DISPLAY"@, None)),
        env.xdisplay is Some ==> changes(env).contains(
            ("DISPLAY"@, Some(":"@ + decimal(env.xdisplay->0 as nat))),
        ),
        changes(env).contains(("DBUS_SESSION_BUS_ADDRESS"@, env.bus)),
{
    let list = changes(env);
    assert(list[0] == ("WAYLAND_DISPLAY"@, Some(env.display)));
    assert(list[3].0 == "DISPLAY"@);
    assert(list[4] == ("DBUS_SESSION_BUS_ADDRESS"@, env.bus));
}

/// Every application is told the same of each thing, once: which kind of session
/// it is in and where its sound goes as well as where its windows do.
pub proof fn a_child_joins_this_session(env: EnvView, i: int, j: int)
    ensures
        ({
            let list = changes(env);
            &&& list.contains(("XDG_SESSION_TYPE"@, Some("wayland"@)))
            &&& list.contains(("PULSE_SINK"@, Some("webland"@)))
            &&& 0 <= i < j < list.len() ==> list[i].0 != list[j].0
        }),
{
    reveal_strlit("WAYLAND_DISPLAY");
    reveal_strlit("XDG_SESSION_TYPE");
    reveal_strlit("PULSE_SINK");
    reveal_strlit("DISPLAY");
    reveal_strlit("DBUS_SESSION_BUS_ADDRESS");
    assert("WAYLAND_DISPLAY"@.len() == 15);
    assert("XDG_SESSION_TYPE"@.len() == 16);
    assert("PULSE_SINK"@.len() == 10);
    assert("DISPLAY"@.len() == 7);
    assert("DBUS_SESSION_BUS_ADDRESS"@.len() == 24);
    let list = changes(env);
    assert(list[1] == ("XDG_SESSION_TYPE"@, Some("wayland"@)));
    assert(list[2] == ("PULSE_SINK"@, Some("webland"@)));
}

} // verus!
