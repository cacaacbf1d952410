//! The messages themselves, and where their fields stand in a frame.

use crate::geometry::{Point, Rect, Size, SurfaceId};
use vstd::prelude::*;

verus! {

/// Protocol version negotiated at connect time.
pub const VERSION: u32 = 0;

/// How a surface frame's pixels are encoded in [`SurfaceFrame::payload`].
///
/// A terminal is just a highly compressible video: every surface travels this
/// path, `Raw` for the `wl_shm` easy case and a real codec for dmabuf clients
/// encoded on the GPU.
#[derive(Debug, Clone, Copy, PartialEq, Eq, Structural)]
pub enum Codec {
    /// Uncompressed pixels. The `wl_shm` path, and the simplest to bring up.
    Raw,
    /// Raw pixels, deflate-compressed (see `deflate` and `inflate`). A CPU-side
    /// stopgap that makes the `wl_shm` path usable before GPU video encode.
    Deflate,
    /// H.264 bitstream, VA-API encoded directly from a client dmabuf.
    H264,
}

/// An application the compositor is willing to start.
///
/// The browser picks one by `id` and never sends a command line. That is the
/// whole point of naming them: the compositor runs only what it found itself, so
/// a launcher cannot become a way to run arbitrary programs on the host.
#[derive(Debug, PartialEq, Eq)]
pub struct Application {
    pub id: u32,
    pub name: String,
    /// The `.desktop` file's basename (`firefox`, `org.gnome.Nautilus`), which
    /// is also what a Wayland client reports as its `app_id`. It is the only
    /// thing the two sides have in common, and so the only way the panel can
    /// put an application's icon on its window's task button.
    pub app_id: String,
    /// The application's icon as a `data:` URL, when one was found; the
    /// launcher is a list a person reads, and it reads faster with pictures.
    pub icon: Option<String>,
}

/// One icon in the system tray, as its application describes itself.
///
/// The `id` is the item's address on the session bus and the handle for
/// everything the browser can do with it. It is opaque on this side of the
/// wire: the browser sends it back, it never parses it.
#[derive(Debug, PartialEq, Eq)]
pub struct TrayItem {
    pub id: String,
    /// What the item calls itself, for a tooltip. Often empty.
    pub title: String,
    /// The icon as a `data:` URL; the item's own pixmap re-encoded, or the
    /// file its icon name resolved to in the icon theme.
    pub icon: Option<String>,
}

/// One row of a tray item's menu.
///
/// Flattened from `com.canonical.dbusmenu`, which is a tree of properties the
/// browser has no business knowing about. What survives is what a menu is: a
/// label, whether it can be clicked, whether it is ticked, and its children.
#[derive(Debug, PartialEq, Eq)]
pub struct TrayMenuItem {
    /// The dbusmenu id, sent back to say which row was clicked.
    pub id: i32,
    pub label: String,
    pub enabled: bool,
    /// `Some` for a checkbox or radio row, and then whether it is ticked.
    pub checked: Option<bool>,
    /// A rule rather than a row: no label, nothing to click.
    pub separator: bool,
    pub children: Vec<TrayMenuItem>,
}

/// Where a popup hangs: which surface it belongs to, and where on it.
///
/// A menu is not a window. It has no chrome, no place in the panel and no
/// position of its own; the client decided where it goes relative to the
/// surface that opened it, and the browser's only job is to put it there and
/// keep it there while that surface moves.
#[derive(Debug, Clone, Copy, PartialEq, Eq, Structural)]
pub struct Anchor {
    pub parent: SurfaceId,
    /// Offset from the parent window's top-left, in the same pixels as `size`.
    pub x: i32,
    pub y: i32,
}

/// A surface appeared; the browser should allocate a scene node for it.
#[derive(Debug, Clone, Copy, PartialEq, Eq, Structural)]
pub struct SurfaceCreated {
    pub id: SurfaceId,
    pub size: Size,
    /// The window itself within that image, in the same pixels.
    ///
    /// A client that draws its own shadow commits a buffer bigger than its
    /// window and says so in its geometry; the margin is transparent to the
    /// client and black once encoded, so the browser is told what to show and
    /// clips the rest away.
    pub content: Rect,
    /// Set when this surface is a popup (a menu, a tooltip, a combobox list)
    /// rather than a window of its own.
    pub parent: Option<Anchor>,
    /// Whether the shell should draw this window's chrome.
    ///
    /// False for a client that decorates itself: a GTK application, whose
    /// headerbar is part of the window it drew. Such a client never asks for a
    /// decoration mode, because it does not implement the protocol that would
    /// let the compositor answer, so the shell drawing a titlebar of its own
    /// would put a second one directly above the client's.
    pub decorated: bool,
}

/// A window-management gesture that began inside the client, not the shell.
///
/// A self-decorating client's own titlebar is where these come from: dragging it
/// is `Move`, double-clicking it is `Maximize`, and its buttons are the rest.
/// The shell owns window position and stacking, so the client can only ask.
#[derive(Debug, Clone, Copy, PartialEq, Eq, Structural)]
pub enum WindowRequest {
    /// Follow the pointer until the button comes up, as a titlebar drag does.
    Move,
    Maximize,
    Unmaximize,
    Minimize,
}

/// New contents for a surface.
///
/// `damage` bounds the changed region so an idle surface costs nothing;
/// `payload` is `codec`-encoded.
#[derive(Debug, PartialEq, Eq)]
pub struct SurfaceFrame {
    pub id: SurfaceId,
    pub codec: Codec,
    pub damage: Vec<Rect>,
    pub payload: Vec<u8>,
}

/// Pressed or released, shared by pointer buttons and keys.
#[derive(Debug, Clone, Copy, PartialEq, Eq, Structural)]
pub enum Press {
    Down,
    Up,
}

/// Input originating in the browser, on its way to a Wayland client.
///
/// `keycode` is a raw evdev code, the unit the compositor ultimately needs.
/// Deltas are doubles, held as their IEEE 754 bit patterns like a [`Point`].
///
/// Motion and scroll name the surface they landed on, and nothing else does.
/// That is the split Wayland already makes: the pointer goes where it is
/// pointed, and the keyboard goes where the focus is, while buttons and wheel
/// notches follow the pointer's own focus, which the surface below establishes.
/// Without the id every one of these went to the focused window, so hovering or
/// scrolling an unfocused one moved the pointer inside the focused one instead.
#[derive(Debug, Clone, Copy, PartialEq, Eq, Structural)]
pub enum InputEvent {
    /// `position` is in the named surface's own pixels.
    PointerMotion {
        id: SurfaceId,
        position: Point,
    },
    PointerMotionRelative {
        dx: u64,
        dy: u64,
    },
    PointerButton {
        button: u32,
        state: Press,
    },
    PointerScroll {
        id: SurfaceId,
        dx: u64,
        dy: u64,
    },
    Key {
        keycode: u32,
        state: Press,
    },
}

/// Backend → browser. One of the two server-originated messages.
#[derive(Debug, PartialEq, Eq)]
#[allow(inconsistent_fields)]
pub enum ServerMessage {
    SurfaceCreated(SurfaceCreated),
    SurfaceFrame(SurfaceFrame),
    /// What the launcher may start, sent when a browser connects.
    Applications(Vec<Application>),
    /// The surface's title changed, or was seen for the first time.
    ///
    /// Separate from `SurfaceCreated` because a client sets its title whenever
    /// it likes (a terminal rewrites it on every command) and the browser
    /// wants the new one without a new surface.
    SurfaceTitle {
        id: SurfaceId,
        title: String,
    },
    /// Which application the surface belongs to, as the client names itself.
    ///
    /// Its own message for the same reason as the title: a client may set it
    /// after mapping, and an X11 client's class arrives whenever its window
    /// manager gets round to reading it.
    SurfaceAppId {
        id: SurfaceId,
        app_id: String,
    },
    /// The surface's client asked the shell to move, maximize or minimize it.
    ///
    /// Only self-decorating clients send these, and only because their own
    /// titlebar is the one the user grabbed. A client that lets the compositor
    /// decorate never asks: the shell's own chrome is already the one being
    /// clicked, and it acts without a round trip.
    SurfaceRequest {
        id: SurfaceId,
        request: WindowRequest,
    },
    /// The system tray's contents, whenever they change.
    ///
    /// Whole list rather than a delta: a tray holds a handful of icons, and a
    /// browser that just connected needs the whole thing anyway.
    Tray {
        items: Vec<TrayItem>,
    },
    /// The menu of one tray item, in answer to [`ClientMessage::TrayMenuOpen`].
    ///
    /// Fetched when it is asked for, never cached: a tray menu says what an
    /// application is doing right now (connected networks, playing or paused)
    /// and a stale one is worse than a slow one.
    TrayMenu {
        id: String,
        items: Vec<TrayMenuItem>,
    },
    /// A piece of the session's audio, as a WebM/Opus byte stream.
    ///
    /// Opaque and ordered: the browser appends these to a media source in the
    /// order they arrive and nothing here looks inside them. The first chunk a
    /// connection receives is the stream's header, so the capture is started
    /// per browser rather than shared; a browser that joined halfway through
    /// somebody else's stream would have nothing to initialise a decoder with.
    Audio {
        payload: Vec<u8>,
    },
    /// A client put this text on the clipboard; the browser should too, so a
    /// copy inside webland can be pasted anywhere on the machine.
    Clipboard {
        text: String,
    },
    /// A surface has requested or released a pointer lock constraint (e.g. Minecraft in-game).
    PointerConstraint {
        id: SurfaceId,
        locked: bool,
    },
    /// What the pointer should look like over a client's surface.
    ///
    /// The name is a CSS cursor keyword, which is also the XDG cursor name the
    /// client asked for; the two vocabularies are the same one, so the browser
    /// can hand it straight to the stylesheet. `none` hides the pointer, which
    /// is what a client that draws its own does.
    ///
    /// Sent for the seat, not per surface: there is one pointer, and only the
    /// surface it is over has any say in how it looks.
    Cursor {
        name: String,
    },
    /// The surface is gone; the browser should drop its scene node.
    ///
    /// Without this a closed window stays on screen forever: the browser has no
    /// other way to tell "this client exited" from "this surface is idle", and
    /// idle surfaces are supposed to cost nothing.
    SurfaceDestroyed {
        id: SurfaceId,
    },
}

/// Browser → backend. Input plus the frame-pacing ack.
#[derive(Debug, PartialEq, Eq)]
#[allow(inconsistent_fields)]
pub enum ClientMessage {
    /// Input on its way to a Wayland client.
    Input(InputEvent),
    /// The browser has presented a frame of this surface and is ready for the
    /// next one. This is what lets the browser drive the frame
    /// clock: the server holds back until it arrives, so the in-flight
    /// queue stays bounded.
    ///
    /// The surface is named because credit is per surface. A global clock would
    /// let one busy window spend the callbacks owed to every other one, so three
    /// applications would pace each other rather than each pacing itself.
    FramePresented { id: SurfaceId },
    /// The browser raised this surface; send input there from now on.
    ///
    /// Stacking is browser-side state the compositor is never told about. Focus
    /// is the one part it must know, because there is a single seat and somebody
    /// has to receive the keystrokes.
    Focus { id: SurfaceId },
    /// The browser's clipboard, as of the paste the user just asked for.
    ///
    /// Sent on the paste rather than whenever the clipboard changes, because a
    /// page cannot read a clipboard it was not handed: the paste event is the
    /// browser handing it over, and needs no permission to do it.
    Clipboard { text: String },
    /// Start the application with this id, as the launcher does.
    Launch { id: u32 },
    /// Click a tray icon: the item's own action, or its alternate one.
    ///
    /// What the action does is entirely the application's business; most
    /// present a window, some toggle something, some only have a menu and do
    /// nothing at all here.
    TrayActivate { id: String, secondary: bool },
    /// Ask for a tray item's menu, answered by [`ServerMessage::TrayMenu`].
    TrayMenuOpen { id: String },
    /// Pick a row of the menu last opened for this item.
    TrayMenuClick { id: String, item: i32 },
    /// Ask the surface's client to close, as a window button does.
    ///
    /// A request, not an order: the client may put up a save dialog, or ignore
    /// it. The surface goes away when the client says so, via `SurfaceDestroyed`.
    CloseSurface { id: SurfaceId },
    /// Maximize this surface to `size`, or restore it when `size` is `None`.
    ///
    /// Maximizing is the one window-management gesture the compositor has to
    /// hear about, because only the client can act on it: a shell that merely
    /// stretched the window would be scaling a smaller surface over a bigger
    /// box. The browser sends the size because the browser is the display and
    /// knows what is left over once its own panel has taken its strip.
    ///
    /// Minimizing sends nothing: a hidden window is browser-side state, exactly
    /// as moving and restacking are.
    SetMaximized { id: SurfaceId, size: Option<Size> },
    /// Configure this surface at `size`, as a resize grip does.
    ///
    /// Same reason as `SetMaximized`: only the client can redraw at a new size,
    /// and a shell that stretched the box instead would be scaling a surface
    /// rendered for a smaller one. Sent when the gesture ends rather than
    /// throughout it, every configure costs the client a reallocation and the
    /// wire a keyframe, so a drag would spend hundreds for one useful answer.
    SetSize { id: SurfaceId, size: Size },
    /// The size the browser wants surfaces configured at, in device pixels.
    ///
    /// Headless has no output, so without this the compositor invents a size
    /// from an environment variable and every client renders at it regardless of
    /// the window it is actually displayed in; too small, and then upscaled by
    /// the browser, which is what makes it look soft. The browser is the display
    /// here, so the browser is what knows the answer.
    Resize { size: Size },
    /// Send full contents for every surface on the next frame.
    ///
    /// Frames carry only damaged regions, so a browser joining mid-stream has
    /// nothing to apply them to. It asks once on connect; without this the
    /// server would have to spend a full surface periodically on the chance
    /// that someone is listening.
    RequestKeyframe,
}

/// What an [`Application`] says.
#[verifier::ext_equal]
pub struct ApplicationView {
    pub id: u32,
    pub name: Seq<char>,
    pub app_id: Seq<char>,
    pub icon: Option<Seq<char>>,
}

/// What a [`TrayItem`] says.
#[verifier::ext_equal]
pub struct TrayItemView {
    pub id: Seq<char>,
    pub title: Seq<char>,
    pub icon: Option<Seq<char>>,
}

/// What a [`TrayMenuItem`] says, its children with it.
#[verifier::ext_equal]
pub struct TrayMenuItemView {
    pub id: i32,
    pub label: Seq<char>,
    pub enabled: bool,
    pub checked: Option<bool>,
    pub separator: bool,
    pub children: Seq<TrayMenuItemView>,
}

/// What a [`SurfaceFrame`] says.
#[verifier::ext_equal]
pub struct SurfaceFrameView {
    pub id: SurfaceId,
    pub codec: Codec,
    pub damage: Seq<Rect>,
    pub payload: Seq<u8>,
}

/// What a [`ServerMessage`] says.
#[verifier::ext_equal]
#[allow(inconsistent_fields)]
pub enum ServerMessageView {
    SurfaceCreated(SurfaceCreated),
    SurfaceFrame(SurfaceFrameView),
    Applications(Seq<ApplicationView>),
    SurfaceTitle { id: SurfaceId, title: Seq<char> },
    SurfaceAppId { id: SurfaceId, app_id: Seq<char> },
    SurfaceRequest { id: SurfaceId, request: WindowRequest },
    Tray { items: Seq<TrayItemView> },
    TrayMenu { id: Seq<char>, items: Seq<TrayMenuItemView> },
    Audio { payload: Seq<u8> },
    Clipboard { text: Seq<char> },
    PointerConstraint { id: SurfaceId, locked: bool },
    Cursor { name: Seq<char> },
    SurfaceDestroyed { id: SurfaceId },
}

/// What a [`ClientMessage`] says.
#[verifier::ext_equal]
#[allow(inconsistent_fields)]
pub enum ClientMessageView {
    Input(InputEvent),
    FramePresented { id: SurfaceId },
    Focus { id: SurfaceId },
    Clipboard { text: Seq<char> },
    Launch { id: u32 },
    TrayActivate { id: Seq<char>, secondary: bool },
    TrayMenuOpen { id: Seq<char> },
    TrayMenuClick { id: Seq<char>, item: i32 },
    CloseSurface { id: SurfaceId },
    SetMaximized { id: SurfaceId, size: Option<Size> },
    SetSize { id: SurfaceId, size: Size },
    Resize { size: Size },
    RequestKeyframe,
}

impl DeepView for Codec {
    type V = Codec;

    open spec fn deep_view(&self) -> Codec {
        *self
    }
}

impl DeepView for Anchor {
    type V = Anchor;

    open spec fn deep_view(&self) -> Anchor {
        *self
    }
}

impl DeepView for SurfaceCreated {
    type V = SurfaceCreated;

    open spec fn deep_view(&self) -> SurfaceCreated {
        *self
    }
}

impl DeepView for WindowRequest {
    type V = WindowRequest;

    open spec fn deep_view(&self) -> WindowRequest {
        *self
    }
}

impl DeepView for Press {
    type V = Press;

    open spec fn deep_view(&self) -> Press {
        *self
    }
}

impl DeepView for InputEvent {
    type V = InputEvent;

    open spec fn deep_view(&self) -> InputEvent {
        *self
    }
}

impl DeepView for Application {
    type V = ApplicationView;

    open spec fn deep_view(&self) -> ApplicationView {
        ApplicationView {
            id: self.id,
            name: self.name@,
            app_id: self.app_id@,
            icon: self.icon.deep_view(),
        }
    }
}

impl DeepView for TrayItem {
    type V = TrayItemView;

    open spec fn deep_view(&self) -> TrayItemView {
        TrayItemView { id: self.id@, title: self.title@, icon: self.icon.deep_view() }
    }
}

/// A menu row and everything under it.
pub open spec fn menu_view(item: TrayMenuItem) -> TrayMenuItemView
    decreases item,
{
    TrayMenuItemView {
        id: item.id,
        label: item.label@,
        enabled: item.enabled,
        checked: item.checked,
        separator: item.separator,
        children: Seq::new(
            item.children@.len(),
            |i: int|
                if 0 <= i < item.children@.len() {
                    menu_view(item.children@[i])
                } else {
                    arbitrary()
                },
        ),
    }
}

impl DeepView for TrayMenuItem {
    type V = TrayMenuItemView;

    open spec fn deep_view(&self) -> TrayMenuItemView {
        menu_view(*self)
    }
}

impl DeepView for SurfaceFrame {
    type V = SurfaceFrameView;

    open spec fn deep_view(&self) -> SurfaceFrameView {
        SurfaceFrameView {
            id: self.id,
            codec: self.codec,
            damage: self.damage@,
            payload: self.payload@,
        }
    }
}

impl DeepView for ServerMessage {
    type V = ServerMessageView;

    open spec fn deep_view(&self) -> ServerMessageView {
        match self {
            ServerMessage::SurfaceCreated(created) => ServerMessageView::SurfaceCreated(*created),
            ServerMessage::SurfaceFrame(frame) => ServerMessageView::SurfaceFrame(
                frame.deep_view(),
            ),
            ServerMessage::Applications(list) => ServerMessageView::Applications(list.deep_view()),
            ServerMessage::SurfaceTitle { id, title } => ServerMessageView::SurfaceTitle {
                id: *id,
                title: title@,
            },
            ServerMessage::SurfaceAppId { id, app_id } => ServerMessageView::SurfaceAppId {
                id: *id,
                app_id: app_id@,
            },
            ServerMessage::SurfaceRequest { id, request } => ServerMessageView::SurfaceRequest {
                id: *id,
                request: *request,
            },
            ServerMessage::Tray { items } => ServerMessageView::Tray { items: items.deep_view() },
            ServerMessage::TrayMenu { id, items } => ServerMessageView::TrayMenu {
                id: id@,
                items: items.deep_view(),
            },
            ServerMessage::Audio { payload } => ServerMessageView::Audio { payload: payload@ },
            ServerMessage::Clipboard { text } => ServerMessageView::Clipboard { text: text@ },
            ServerMessage::PointerConstraint { id, locked } => {
                ServerMessageView::PointerConstraint { id: *id, locked: *locked }
            },
            ServerMessage::Cursor { name } => ServerMessageView::Cursor { name: name@ },
            ServerMessage::SurfaceDestroyed { id } => ServerMessageView::SurfaceDestroyed {
                id: *id,
            },
        }
    }
}

impl DeepView for ClientMessage {
    type V = ClientMessageView;

    open spec fn deep_view(&self) -> ClientMessageView {
        match self {
            ClientMessage::Input(event) => ClientMessageView::Input(*event),
            ClientMessage::FramePresented { id } => ClientMessageView::FramePresented { id: *id },
            ClientMessage::Focus { id } => ClientMessageView::Focus { id: *id },
            ClientMessage::Clipboard { text } => ClientMessageView::Clipboard { text: text@ },
            ClientMessage::Launch { id } => ClientMessageView::Launch { id: *id },
            ClientMessage::TrayActivate { id, secondary } => ClientMessageView::TrayActivate {
                id: id@,
                secondary: *secondary,
            },
            ClientMessage::TrayMenuOpen { id } => ClientMessageView::TrayMenuOpen { id: id@ },
            ClientMessage::TrayMenuClick { id, item } => ClientMessageView::TrayMenuClick {
                id: id@,
                item: *item,
            },
            ClientMessage::CloseSurface { id } => ClientMessageView::CloseSurface { id: *id },
            ClientMessage::SetMaximized { id, size } => ClientMessageView::SetMaximized {
                id: *id,
                size: *size,
            },
            ClientMessage::SetSize { id, size } => ClientMessageView::SetSize {
                id: *id,
                size: *size,
            },
            ClientMessage::Resize { size } => ClientMessageView::Resize { size: *size },
            ClientMessage::RequestKeyframe => ClientMessageView::RequestKeyframe,
        }
    }
}

impl Clone for Application {
    fn clone(&self) -> (copy: Self)
        ensures
            copy.deep_view() == self.deep_view(),
    {
        Application {
            id: self.id,
            name: self.name.clone(),
            app_id: self.app_id.clone(),
            icon: clone_text(&self.icon),
        }
    }
}

impl Clone for TrayItem {
    fn clone(&self) -> (copy: Self)
        ensures
            copy.deep_view() == self.deep_view(),
    {
        TrayItem {
            id: self.id.clone(),
            title: self.title.clone(),
            icon: clone_text(&self.icon),
        }
    }
}

/// A copy of an optional text.
fn clone_text(text: &Option<String>) -> (copy: Option<String>)
    ensures
        copy.deep_view() == text.deep_view(),
{
    match text {
        Some(inner) => Some(inner.clone()),
        None => None,
    }
}

/// A copy of a menu row and everything under it.
fn clone_menu(item: &TrayMenuItem) -> (copy: TrayMenuItem)
    ensures
        menu_view(copy) == menu_view(*item),
    decreases *item,
{
    let mut children: Vec<TrayMenuItem> = Vec::new();
    let mut i: usize = 0;
    while i < item.children.len()
        invariant
            i <= item.children@.len(),
            children@.len() == i,
            forall|j: int|
                0 <= j < i ==> menu_view(#[trigger] children@[j]) == menu_view(item.children@[j]),
        decreases item.children@.len() - i,
    {
        assert(decreases_to!(*item => item.children@[i as int]));
        children.push(clone_menu(&item.children[i]));
        i = i + 1;
    }
    let copy = TrayMenuItem {
        id: item.id,
        label: item.label.clone(),
        enabled: item.enabled,
        checked: item.checked,
        separator: item.separator,
        children,
    };
    assert(menu_view(copy).children =~= menu_view(*item).children);
    copy
}

impl Clone for TrayMenuItem {
    fn clone(&self) -> (copy: Self)
        ensures
            copy.deep_view() == self.deep_view(),
    {
        clone_menu(self)
    }
}

impl Clone for SurfaceFrame {
    fn clone(&self) -> (copy: Self)
        ensures
            copy.deep_view() == self.deep_view(),
    {
        let copy = SurfaceFrame {
            id: self.id,
            codec: self.codec,
            damage: self.damage.clone(),
            payload: self.payload.clone(),
        };
        assert(copy.damage@ =~= self.damage@);
        assert(copy.payload@ =~= self.payload@);
        copy
    }
}

/// A copy of a list of applications.
fn clone_applications(list: &Vec<Application>) -> (copy: Vec<Application>)
    ensures
        copy.deep_view() == list.deep_view(),
{
    let mut copy: Vec<Application> = Vec::new();
    let mut i: usize = 0;
    while i < list.len()
        invariant
            i <= list@.len(),
            copy.deep_view() == list.deep_view().take(i as int),
        decreases list@.len() - i,
    {
        let one = list[i].clone();
        let ghost before = copy.deep_view();
        copy.push(one);
        assert(copy.deep_view() =~= before.push(one.deep_view()));
        assert(list.deep_view().take(i + 1) =~= list.deep_view().take(i as int).push(
            list.deep_view()[i as int],
        ));
        i += 1;
    }
    assert(list.deep_view().take(i as int) =~= list.deep_view());
    copy
}

/// A copy of a list of tray icons.
fn clone_tray(list: &Vec<TrayItem>) -> (copy: Vec<TrayItem>)
    ensures
        copy.deep_view() == list.deep_view(),
{
    let mut copy: Vec<TrayItem> = Vec::new();
    let mut i: usize = 0;
    while i < list.len()
        invariant
            i <= list@.len(),
            copy.deep_view() == list.deep_view().take(i as int),
        decreases list@.len() - i,
    {
        let one = list[i].clone();
        let ghost before = copy.deep_view();
        copy.push(one);
        assert(copy.deep_view() =~= before.push(one.deep_view()));
        assert(list.deep_view().take(i + 1) =~= list.deep_view().take(i as int).push(
            list.deep_view()[i as int],
        ));
        i += 1;
    }
    assert(list.deep_view().take(i as int) =~= list.deep_view());
    copy
}

/// A copy of the rows of a menu.
fn clone_rows(list: &Vec<TrayMenuItem>) -> (copy: Vec<TrayMenuItem>)
    ensures
        copy.deep_view() == list.deep_view(),
{
    let mut copy: Vec<TrayMenuItem> = Vec::new();
    let mut i: usize = 0;
    while i < list.len()
        invariant
            i <= list@.len(),
            copy.deep_view() == list.deep_view().take(i as int),
        decreases list@.len() - i,
    {
        let one = list[i].clone();
        let ghost before = copy.deep_view();
        copy.push(one);
        assert(copy.deep_view() =~= before.push(one.deep_view()));
        assert(list.deep_view().take(i + 1) =~= list.deep_view().take(i as int).push(
            list.deep_view()[i as int],
        ));
        i += 1;
    }
    assert(list.deep_view().take(i as int) =~= list.deep_view());
    copy
}

impl Clone for ServerMessage {
    fn clone(&self) -> (copy: Self)
        ensures
            copy.deep_view() == self.deep_view(),
    {
        match self {
            ServerMessage::SurfaceCreated(created) => ServerMessage::SurfaceCreated(*created),
            ServerMessage::SurfaceFrame(frame) => ServerMessage::SurfaceFrame(frame.clone()),
            ServerMessage::Applications(list) => ServerMessage::Applications(
                clone_applications(list),
            ),
            ServerMessage::SurfaceTitle { id, title } => ServerMessage::SurfaceTitle {
                id: *id,
                title: title.clone(),
            },
            ServerMessage::SurfaceAppId { id, app_id } => ServerMessage::SurfaceAppId {
                id: *id,
                app_id: app_id.clone(),
            },
            ServerMessage::SurfaceRequest { id, request } => ServerMessage::SurfaceRequest {
                id: *id,
                request: *request,
            },
            ServerMessage::Tray { items } => ServerMessage::Tray { items: clone_tray(items) },
            ServerMessage::TrayMenu { id, items } => ServerMessage::TrayMenu {
                id: id.clone(),
                items: clone_rows(items),
            },
            ServerMessage::Audio { payload } => {
                let copied = payload.clone();
                assert(copied@ =~= payload@);
                ServerMessage::Audio { payload: copied }
            },
            ServerMessage::Clipboard { text } => ServerMessage::Clipboard { text: text.clone() },
            ServerMessage::PointerConstraint { id, locked } => ServerMessage::PointerConstraint {
                id: *id,
                locked: *locked,
            },
            ServerMessage::Cursor { name } => ServerMessage::Cursor { name: name.clone() },
            ServerMessage::SurfaceDestroyed { id } => ServerMessage::SurfaceDestroyed { id: *id },
        }
    }
}

impl Clone for ClientMessage {
    fn clone(&self) -> (copy: Self)
        ensures
            copy.deep_view() == self.deep_view(),
    {
        match self {
            ClientMessage::Input(event) => ClientMessage::Input(*event),
            ClientMessage::FramePresented { id } => ClientMessage::FramePresented { id: *id },
            ClientMessage::Focus { id } => ClientMessage::Focus { id: *id },
            ClientMessage::Clipboard { text } => ClientMessage::Clipboard { text: text.clone() },
            ClientMessage::Launch { id } => ClientMessage::Launch { id: *id },
            ClientMessage::TrayActivate { id, secondary } => ClientMessage::TrayActivate {
                id: id.clone(),
                secondary: *secondary,
            },
            ClientMessage::TrayMenuOpen { id } => ClientMessage::TrayMenuOpen { id: id.clone() },
            ClientMessage::TrayMenuClick { id, item } => ClientMessage::TrayMenuClick {
                id: id.clone(),
                item: *item,
            },
            ClientMessage::CloseSurface { id } => ClientMessage::CloseSurface { id: *id },
            ClientMessage::SetMaximized { id, size } => ClientMessage::SetMaximized {
                id: *id,
                size: *size,
            },
            ClientMessage::SetSize { id, size } => ClientMessage::SetSize { id: *id, size: *size },
            ClientMessage::Resize { size } => ClientMessage::Resize { size: *size },
            ClientMessage::RequestKeyframe => ClientMessage::RequestKeyframe,
        }
    }
}

/// Put one more message at the end of what goes out.
pub(crate) fn queue(messages: &mut Vec<ServerMessage>, message: ServerMessage)
    ensures
        final(messages).deep_view() == old(messages).deep_view().push(message.deep_view()),
{
    messages.push(message);
    assert(messages.deep_view() =~= old(messages).deep_view().push(message.deep_view()));
}

} // verus!
