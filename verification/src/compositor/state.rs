//! The compositor's state, as far as anything is decided from it.
//!
//! Wayland objects and X windows are named by numbers that whoever holds the
//! protocol objects hands out.

use crate::compositor::popups::Popup;
use crate::compositor::tracking::contains;
use crate::geometry::{Size, SurfaceId};
use crate::protocol::messages::{InputEvent, WindowRequest};
use vstd::prelude::*;

verus! {

/// A mapped X window.
#[derive(Debug, Clone, Copy, PartialEq, Eq, Structural)]
pub struct X11Window {
    pub window: u32,
    /// The surface it draws into.
    pub surface: Option<u32>,
    /// Whether it has been told that it is focused.
    pub activated: bool,
}

/// Compositor state.
pub struct Webland {
    /// The size to configure toplevels at, as the browser last reported it.
    pub size: (i32, i32),
    /// The surface the browser last raised, which is where input goes.
    pub focus: Option<SurfaceId>,
    /// Set by the browser on connect: send whole surfaces on the next frame,
    /// because a joiner has nothing for a damage rectangle to land on.
    pub keyframe: bool,
    /// Send the launcher's list on the next pass.
    pub announce_applications: bool,
    /// Tell the browser about the cursor on the next pass.
    pub announce_cursor: bool,
    /// The browser's clipboard, which is what clients are given when they paste.
    pub clipboard: String,
    /// What the pointer currently looks like, as a CSS cursor keyword.
    pub cursor: String,
    /// Move, maximize and minimize asked for by a client's own titlebar, waiting
    /// to go to the browser, which owns where windows sit.
    pub requests: Vec<(u32, WindowRequest)>,
    /// The windows of Wayland clients.
    pub toplevels: Vec<u32>,
    /// Open popups, oldest first, so a submenu always follows the menu it came
    /// from.
    pub popups: Vec<Popup>,
    /// Mapped X windows.
    pub x11: Vec<X11Window>,
    /// Toplevels that asked the compositor to decorate them, and so must not be
    /// given a second titlebar by the shell.
    pub server_decorated: Vec<u32>,
}

/// What a [`Webland`] holds.
#[verifier::ext_equal]
pub struct WeblandView {
    pub size: (i32, i32),
    pub focus: Option<SurfaceId>,
    pub keyframe: bool,
    pub announce_applications: bool,
    pub announce_cursor: bool,
    pub clipboard: Seq<char>,
    pub cursor: Seq<char>,
    pub requests: Seq<(u32, WindowRequest)>,
    pub toplevels: Seq<u32>,
    pub popups: Seq<Popup>,
    pub x11: Seq<X11Window>,
    pub server_decorated: Seq<u32>,
}

impl View for Webland {
    type V = WeblandView;

    open spec fn view(&self) -> WeblandView {
        WeblandView {
            size: self.size,
            focus: self.focus,
            keyframe: self.keyframe,
            announce_applications: self.announce_applications,
            announce_cursor: self.announce_cursor,
            clipboard: self.clipboard@,
            cursor: self.cursor@,
            requests: self.requests@,
            toplevels: self.toplevels@,
            popups: self.popups@,
            x11: self.x11@,
            server_decorated: self.server_decorated@,
        }
    }
}

/// Something for the holder of the protocol objects to do.
#[derive(Debug, Clone, Copy, PartialEq, Eq)]
pub enum Action {
    /// Offer the browser's clipboard as the selection, under every text type.
    OfferSelection,
    /// Tell a popup that it is done.
    PopupDone { object: u32 },
    /// Tell an X window whether it is focused.
    ActivateX11 { window: u32, active: bool },
    /// Start the application with this id.
    Launch { id: u32 },
    /// Ask a window to close.
    CloseToplevel { object: u32 },
    /// Ask an X window to close.
    CloseX11 { window: u32 },
    /// Configure a window: a size of `None` leaves it to the client, and
    /// `maximized` says whether that state goes on, comes off or stays.
    ConfigureToplevel { object: u32, size: Option<(i32, i32)>, maximized: Option<bool> },
    /// Put an X window at a size.
    ConfigureX11 { window: u32, size: (i32, i32) },
    /// Point the output at a new size, as a monitor changing mode.
    SetOutputMode { size: (i32, i32) },
    /// Give a surface the keyboard.
    FocusKeyboard { object: u32 },
    /// Inject an input event into the seat, targeting a surface.
    Inject { object: u32, event: InputEvent },
}

/// What each item of a list gives, one after the other.
pub open spec fn each<T, A>(items: Seq<T>, actions: spec_fn(T) -> Seq<A>) -> Seq<A>
    decreases items.len(),
{
    if items.len() == 0 {
        seq![]
    } else {
        each(items.drop_last(), actions) + actions(items.last())
    }
}

/// One more item adds what it gives.
pub proof fn each_step<T, A>(items: Seq<T>, actions: spec_fn(T) -> Seq<A>, n: int)
    requires
        0 <= n < items.len(),
    ensures
        each(items.take(n + 1), actions) == each(items.take(n), actions) + actions(items[n]),
{
    assert(items.take(n + 1).drop_last() =~= items.take(n));
    assert(items.take(n + 1).last() == items[n]);
}

/// The surface of an X window, where it has one.
pub open spec fn surface_of(window: X11Window) -> Seq<u32> {
    match window.surface {
        Some(object) => seq![object],
        None => seq![],
    }
}

/// Every surface the browser is shown: windows, the menus they open, and the
/// windows that came from X.
pub open spec fn streamed(
    toplevels: Seq<u32>,
    popups: Seq<Popup>,
    x11: Seq<X11Window>,
) -> Seq<u32> {
    toplevels + popups.map_values(|popup: Popup| popup.object) + each(
        x11,
        |window: X11Window| surface_of(window),
    )
}

/// What an X window has to be told about the focus: only where it changes.
pub open spec fn activation(window: X11Window, focused: Option<u32>) -> Seq<Action> {
    if window.activated != (window.surface == focused) {
        seq![
            Action::ActivateX11 { window: window.window, active: window.surface == focused },
        ]
    } else {
        seq![]
    }
}

/// An X window that knows whether it is focused.
pub open spec fn activated(window: X11Window, focused: Option<u32>) -> X11Window {
    X11Window { activated: window.surface == focused, ..window }
}

/// What a pointer looks like, as the client under it has said.
pub enum CursorImage {
    /// The client draws its own, or wants none.
    Hidden,
    /// A shape by its name, which is also CSS's name for it.
    Named(String),
    /// A picture of the client's own, which the browser is not sent.
    Surface,
}

/// The CSS keyword for what the pointer should look like.
pub open spec fn cursor_keyword(image: CursorImage) -> Seq<char> {
    match image {
        CursorImage::Hidden => "none"@,
        CursorImage::Named(name) => name@,
        CursorImage::Surface => "default"@,
    }
}

impl WeblandView {
    /// The state once the pointer looks like this.
    pub open spec fn pointing(self, image: CursorImage) -> WeblandView {
        WeblandView {
            cursor: cursor_keyword(image),
            announce_cursor: self.announce_cursor || self.cursor != cursor_keyword(image),
            ..self
        }
    }

    /// The state once a window has spoken of decorations.
    pub open spec fn decorating(self, object: u32) -> WeblandView {
        if self.server_decorated.contains(object) {
            self
        } else {
            WeblandView { server_decorated: self.server_decorated.push(object), ..self }
        }
    }

    /// The state with an X window in it, where that has a surface and is not in
    /// it yet.
    pub open spec fn with_x11(self, window: X11Window) -> WeblandView {
        if window.surface is None || (exists|i: int|
            0 <= i < self.x11.len() && (#[trigger] self.x11[i]).window == window.window) {
            self
        } else {
            WeblandView { x11: self.x11.push(window), ..self }
        }
    }

    /// The state without an X window.
    pub open spec fn without_x11(self, window: u32) -> WeblandView {
        WeblandView {
            x11: self.x11.filter(|known: X11Window| known.window != window),
            ..self
        }
    }
}

/// The larger of a number and one.
pub open spec fn at_least_one(value: i32) -> i32 {
    if value < 1 {
        1
    } else {
        value
    }
}

/// A size in the signed pixels that clients are configured in, at least one
/// pixel each way.
pub open spec fn visible(size: Size) -> (i32, i32) {
    (
        (if size.width < 1 {
            1
        } else {
            size.width
        }) as i32,
        (if size.height < 1 {
            1
        } else {
            size.height
        }) as i32,
    )
}

/// A size in the signed pixels that clients are configured in.
pub fn visible_size(size: Size) -> (pixels: (i32, i32))
    ensures
        pixels == visible(size),
{
    let width: u32 = if size.width < 1 {
        1
    } else {
        size.width
    };
    let height: u32 = if size.height < 1 {
        1
    } else {
        size.height
    };
    (width as i32, height as i32)
}

impl Webland {
    /// A desktop with nothing on it yet.
    pub fn new(size: (i32, i32)) -> (state: Self)
        ensures
            state@ == (WeblandView {
                size,
                focus: None,
                keyframe: false,
                announce_applications: false,
                announce_cursor: false,
                clipboard: Seq::empty(),
                cursor: "default"@,
                requests: Seq::empty(),
                toplevels: Seq::empty(),
                popups: Seq::empty(),
                x11: Seq::empty(),
                server_decorated: Seq::empty(),
            }),
    {
        Webland {
            size,
            focus: None,
            keyframe: false,
            announce_applications: false,
            announce_cursor: false,
            clipboard: String::new(),
            cursor: "default".to_owned(),
            requests: Vec::new(),
            toplevels: Vec::new(),
            popups: Vec::new(),
            x11: Vec::new(),
            server_decorated: Vec::new(),
        }
    }

    /// Every surface the browser is shown.
    ///
    /// One list, because two things walk it: the capture that sends pixels and
    /// the frame clock that asks for the next ones. A surface in one but not the
    /// other is a window that either freezes or is never drawn.
    pub fn streamed_surfaces(&self) -> (surfaces: Vec<u32>)
        ensures
            surfaces@ == streamed(self@.toplevels, self@.popups, self@.x11),
    {
        let mut surfaces: Vec<u32> = Vec::new();
        surfaces.extend_from_slice(self.toplevels.as_slice());
        assert(surfaces@ =~= self@.toplevels);
        let ghost object = |popup: Popup| popup.object;
        let mut i: usize = 0;
        while i < self.popups.len()
            invariant
                i <= self.popups@.len(),
                object == (|popup: Popup| popup.object),
                surfaces@ =~= self@.toplevels + self@.popups.take(i as int).map_values(object),
            decreases self.popups@.len() - i,
        {
            surfaces.push(self.popups[i].object);
            i = i + 1;
        }
        assert(self@.popups.take(i as int) =~= self@.popups);
        let ghost shown = surfaces@;
        let ghost surface = |window: X11Window| surface_of(window);
        let mut j: usize = 0;
        while j < self.x11.len()
            invariant
                j <= self.x11@.len(),
                surface == (|window: X11Window| surface_of(window)),
                surfaces@ =~= shown + each(self@.x11.take(j as int), surface),
            decreases self.x11@.len() - j,
        {
            proof {
                each_step(self@.x11, surface, j as int);
            }
            if let Some(object) = self.x11[j].surface {
                surfaces.push(object);
            }
            j = j + 1;
        }
        assert(self@.x11.take(j as int) =~= self@.x11);
        surfaces
    }

    /// Tell the X windows which of them the browser just raised.
    ///
    /// Keyboard focus itself follows the Wayland seat; this is the hint an X
    /// client reads to know whether to draw itself active or dimmed.
    pub fn activate_x11(&mut self, focused: Option<u32>) -> (actions: Vec<Action>)
        ensures
            actions@ == each(
                old(self)@.x11,
                |window: X11Window| activation(window, focused),
            ),
            final(self)@ == (WeblandView {
                x11: old(self)@.x11.map_values(|window: X11Window| activated(window, focused)),
                ..old(self)@
            }),
    {
        let ghost all = self.x11@;
        let ghost tell = |window: X11Window| activation(window, focused);
        let ghost settle = |window: X11Window| activated(window, focused);
        let mut actions: Vec<Action> = Vec::new();
        let mut i: usize = 0;
        assert(self.x11@ =~= all.take(0).map_values(settle) + all.skip(0));
        while i < self.x11.len()
            invariant
                self.x11@.len() == all.len(),
                i <= all.len(),
                tell == (|window: X11Window| activation(window, focused)),
                settle == (|window: X11Window| activated(window, focused)),
                actions@ =~= each(all.take(i as int), tell),
                self.x11@ =~= all.take(i as int).map_values(settle) + all.skip(i as int),
                self@ == (WeblandView { x11: self.x11@, ..old(self)@ }),
            decreases all.len() - i,
        {
            proof {
                each_step(all, tell, i as int);
                assert(self.x11@[i as int] == all[i as int]);
            }
            let window = self.x11[i];
            let active = window.surface == focused;
            if window.activated != active {
                actions.push(Action::ActivateX11 { window: window.window, active });
            }
            self.x11[i] = X11Window { window: window.window, surface: window.surface, activated: active };
            i = i + 1;
            assert(self.x11@ =~= all.take(i as int).map_values(settle) + all.skip(i as int));
        }
        assert(all.take(i as int) =~= all);
        actions
    }

    /// A gesture a self-decorating client made on its own titlebar.
    ///
    /// The shell owns window position, stacking and which windows are hidden, so
    /// none of this can be answered here: it is queued for the browser.
    pub fn request(&mut self, object: u32, request: WindowRequest)
        ensures
            final(self)@ == (WeblandView {
                requests: old(self)@.requests.push((object, request)),
                ..old(self)@
            }),
    {
        self.requests.push((object, request));
    }

    /// A toplevel spoke of decorations at all, so the compositor decorates it.
    pub fn decoration_requested(&mut self, object: u32)
        ensures
            final(self)@ == (WeblandView {
                server_decorated: if old(self)@.server_decorated.contains(object) {
                    old(self)@.server_decorated
                } else {
                    old(self)@.server_decorated.push(object)
                },
                ..old(self)@
            }),
            final(self)@ == old(self)@.decorating(object),
    {
        if !contains(&self.server_decorated, object) {
            self.server_decorated.push(object);
        }
    }

    /// Whether a window draws its own titlebar.
    ///
    /// A client that never creates a decoration object has no way to be told the
    /// compositor decorates, so it is taken to decorate itself. An X client says
    /// the same thing through its motif hints, which `x11_hint` holds.
    pub fn decorates_itself(&self, object: u32, x11_hint: Option<bool>) -> (decorates: bool)
        ensures
            decorates == (match x11_hint {
                Some(hint) => hint,
                None => !self@.server_decorated.contains(object),
            }),
    {
        match x11_hint {
            Some(hint) => hint,
            None => !contains(&self.server_decorated, object),
        }
    }

    /// The client under the pointer has said what the pointer should look like.
    pub fn cursor_image(&mut self, image: CursorImage)
        ensures
            final(self)@ == (WeblandView {
                cursor: cursor_keyword(image),
                announce_cursor: old(self)@.announce_cursor || old(self)@.cursor
                    != cursor_keyword(image),
                ..old(self)@
            }),
            final(self)@ == old(self)@.pointing(image),
    {
        let name = match image {
            CursorImage::Hidden => "none".to_owned(),
            CursorImage::Named(name) => name,
            CursorImage::Surface => "default".to_owned(),
        };
        if self.cursor != name {
            self.cursor = name;
            self.announce_cursor = true;
        }
    }

    /// Take an X window into the set the browser is shown, once it has a surface
    /// to show and where it is not in it yet.
    pub fn adopt_x11(&mut self, window: X11Window)
        ensures
            final(self)@ == (if window.surface is None || (exists|i: int|
                0 <= i < old(self)@.x11.len() && (#[trigger] old(self)@.x11[i]).window
                    == window.window) {
                old(self)@
            } else {
                WeblandView { x11: old(self)@.x11.push(window), ..old(self)@ }
            }),
            final(self)@ == old(self)@.with_x11(window),
    {
        if window.surface.is_none() {
            return;
        }
        let mut i: usize = 0;
        while i < self.x11.len()
            invariant
                i <= self.x11@.len(),
                self@ == old(self)@,
                forall|j: int| 0 <= j < i ==> self.x11@[j].window != window.window,
            decreases self.x11@.len() - i,
        {
            if self.x11[i].window == window.window {
                assert(old(self)@.x11[i as int].window == window.window);
                return;
            }
            i = i + 1;
        }
        self.x11.push(window);
    }

    /// Take an X window out of the set the browser is shown.
    pub fn drop_x11(&mut self, window: u32)
        ensures
            final(self)@ == (WeblandView {
                x11: old(self)@.x11.filter(|known: X11Window| known.window != window),
                ..old(self)@
            }),
            final(self)@ == old(self)@.without_x11(window),
    {
        let ghost all = self.x11@;
        let ghost stays = |known: X11Window| known.window != window;
        let mut kept: Vec<X11Window> = Vec::new();
        let mut i: usize = 0;
        proof {
            reveal(Seq::filter);
        }
        while i < self.x11.len()
            invariant
                self@ == old(self)@,
                self.x11@ == all,
                i <= all.len(),
                stays == (|known: X11Window| known.window != window),
                kept@ =~= all.take(i as int).filter(stays),
            decreases all.len() - i,
        {
            proof {
                reveal(Seq::filter);
                assert(all.take(i + 1).drop_last() =~= all.take(i as int));
            }
            if self.x11[i].window != window {
                kept.push(self.x11[i]);
            }
            i = i + 1;
        }
        assert(all.take(i as int) =~= all);
        self.x11 = kept;
    }

    /// The size an X window is put at: the whole of what the browser shows.
    pub fn x11_size(&self) -> (size: (i32, i32))
        ensures
            size == (at_least_one(self@.size.0), at_least_one(self@.size.1)),
    {
        let (width, height): (i32, i32) = self.size;
        (
            if width < 1 {
                1
            } else {
                width
            },
            if height < 1 {
                1
            } else {
                height
            },
        )
    }

    /// The answer to an X client asking to move or resize itself.
    ///
    /// The size is granted and the position is not: where a window sits is the
    /// browser's, and a client that could re-anchor itself would jump out from
    /// under the chrome drawn around it.
    pub fn configure_request(&self, width: Option<u32>, height: Option<u32>) -> (size: (i32, i32))
        ensures
            size.0 == (match width {
                Some(w) => at_least_one(w as i32),
                None => at_least_one(self@.size.0),
            }),
            size.1 == (match height {
                Some(h) => at_least_one(h as i32),
                None => at_least_one(self@.size.1),
            }),
    {
        let shown: (i32, i32) = self.x11_size();
        let w: i32 = match width {
            Some(w) => w as i32,
            None => shown.0,
        };
        let h: i32 = match height {
            Some(h) => h as i32,
            None => shown.1,
        };
        (
            if w < 1 {
                1
            } else {
                w
            },
            if h < 1 {
                1
            } else {
                h
            },
        )
    }
}

/// What a pointer looks like is told once: the browser hears of it where it
/// changed or something was already owed to it, and a shape goes by its own
/// name. A pointer that a client hides, or draws itself, has no shape of ours.
pub proof fn a_pointer_is_announced_where_it_changes(state: WeblandView, name: String)
    ensures
        ({
            let after = state.pointing(CursorImage::Named(name));
            &&& after.cursor == name@
            &&& after.announce_cursor <==> state.announce_cursor || state.cursor != name@
        }),
        state.pointing(CursorImage::Hidden).cursor == "none"@,
        state.pointing(CursorImage::Surface).cursor == "default"@,
        !state.announce_cursor && state.cursor == "none"@ ==> state.pointing(CursorImage::Hidden)
            == state,
{
}

/// A window that spoke of decorations is decorated by the shell from then on, and
/// only that one; speaking twice changes nothing.
pub proof fn who_speaks_of_decorations_is_decorated(
    state: WeblandView,
    object: u32,
    other: u32,
)
    ensures
        state.decorating(object).server_decorated.contains(object),
        other != object ==> state.decorating(object).server_decorated.contains(other)
            == state.server_decorated.contains(other),
        state.decorating(object).decorating(object) == state.decorating(object),
{
    let before = state.server_decorated;
    let after = state.decorating(object).server_decorated;
    if !before.contains(object) {
        assert(after[before.len() as int] == object);
        if before.contains(other) {
            let k = choose|k: int| 0 <= k < before.len() && before[k] == other;
            assert(after[k] == other);
        }
        if after.contains(other) && other != object {
            let k = choose|k: int| 0 <= k < after.len() && after[k] == other;
            assert(before[k] == other);
        }
    }
}

/// A window draws its own titlebar unless it spoke of decorations; an X window's
/// own hint decides for it, either way.
pub proof fn a_silent_window_decorates_itself(
    state: &Webland,
    object: u32,
    hint: Option<bool>,
    decorates: bool,
)
    requires
        call_ensures(Webland::decorates_itself, (state, object, hint), decorates),
    ensures
        hint is None ==> (decorates <==> !state@.server_decorated.contains(object)),
        hint is Some ==> decorates == hint->0,
{
}

/// An X window with a surface is shown once it was taken in, and shown once
/// however often it is; one without a surface is not shown. Dropping it takes it
/// out again and touches no other.
pub proof fn an_x_window_is_shown_until_it_is_dropped(
    state: WeblandView,
    window: X11Window,
    other: X11Window,
)
    ensures
        window.surface is None ==> state.with_x11(window) == state,
        window.surface is Some && (forall|i: int|
            0 <= i < state.x11.len() ==> (#[trigger] state.x11[i]).window != window.window)
            ==> state.with_x11(window).x11 == state.x11.push(window) && state.with_x11(
            window,
        ).with_x11(window) == state.with_x11(window),
        state.x11.contains(other) && other.window != window.window ==> state.without_x11(
            window.window,
        ).x11.contains(other),
        forall|i: int|
            0 <= i < state.without_x11(window.window).x11.len() ==> (#[trigger] state.without_x11(
                window.window,
            ).x11[i]).window != window.window,
{
    let stays = |known: X11Window| known.window != window.window;
    if window.surface is Some && (forall|i: int|
        0 <= i < state.x11.len() ==> (#[trigger] state.x11[i]).window != window.window) {
        let after = state.with_x11(window);
        assert(after.x11[state.x11.len() as int].window == window.window);
    }
    if state.x11.contains(other) && stays(other) {
        let i = choose|i: int| 0 <= i < state.x11.len() && state.x11[i] == other;
        state.x11.lemma_filter_contains(stays, i);
    }
    let kept = state.without_x11(window.window).x11;
    assert forall|i: int| 0 <= i < kept.len() implies (#[trigger] kept[i]).window
        != window.window by {
        state.x11.lemma_filter_pred(stays, i);
    }
}

/// An X client gets the size it asks for, at least one pixel each way; a side it
/// does not ask about is that of the desktop.
pub proof fn an_x_client_gets_the_size_it_asks_for(
    state: &Webland,
    width: Option<u32>,
    height: Option<u32>,
    size: (i32, i32),
)
    requires
        call_ensures(Webland::configure_request, (state, width, height), size),
    ensures
        size.0 >= 1 && size.1 >= 1,
        width matches Some(w) ==> (1 <= w <= i32::MAX ==> size.0 == w),
        height matches Some(h) ==> (1 <= h <= i32::MAX ==> size.1 == h),
        width is None && state@.size.0 >= 1 ==> size.0 == state@.size.0,
        height is None && state@.size.1 >= 1 ==> size.1 == state@.size.1,
{
}

/// A size that can be seen and counted is left as it is, width for width and
/// height for height; nothing is ever smaller than one pixel.
pub proof fn a_visible_size_is_left_alone(size: Size)
    requires
        size.width <= i32::MAX,
        size.height <= i32::MAX,
    ensures
        size.width >= 1 ==> visible(size).0 == size.width,
        size.height >= 1 ==> visible(size).1 == size.height,
        visible(size).0 >= 1 && visible(size).1 >= 1,
{
}

/// An X window fills what the browser shows, and is never put at nothing.
pub proof fn an_x_window_fills_the_screen(state: Webland, size: (i32, i32))
    requires
        call_ensures(Webland::x11_size, (&state,), size),
    ensures
        size.0 >= 1 && size.1 >= 1,
        state@.size.0 >= 1 ==> size.0 == state@.size.0,
        state@.size.1 >= 1 ==> size.1 == state@.size.1,
{
}

} // verus!
