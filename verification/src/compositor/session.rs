//! What the browser asks for, and what comes of it.
//!
//! Messages are taken one at a time into a batch; once there are no more, the
//! batch is settled into the actions to perform, in order.

use crate::compositor::popups::{ancestry_of, dismiss_popups, dismissed, kept_popups};
use crate::compositor::state::{
    activated, activation, at_least_one, each, each_step, streamed, surface_of, visible,
    visible_size, Action, Webland, WeblandView, X11Window,
};
use crate::compositor::tracking::{contains, holds_id, known_id, named_object, Known, StreamedView};
use crate::geometry::{Size, SurfaceId};
use crate::protocol::messages::{ClientMessage, ClientMessageView, InputEvent};
use vstd::prelude::*;

verus! {

/// What a run of messages asks for, beyond what was done on the spot.
pub struct Batch {
    pub events: Vec<InputEvent>,
    pub focus_changed: bool,
    pub resize: Option<Size>,
    pub closing: Vec<SurfaceId>,
    pub launching: Vec<u32>,
    pub maximizing: Vec<(SurfaceId, Option<Size>)>,
    pub sizing: Vec<(SurfaceId, Size)>,
}

/// What a [`Batch`] holds.
#[verifier::ext_equal]
pub struct BatchView {
    pub events: Seq<InputEvent>,
    pub focus_changed: bool,
    pub resize: Option<Size>,
    pub closing: Seq<SurfaceId>,
    pub launching: Seq<u32>,
    pub maximizing: Seq<(SurfaceId, Option<Size>)>,
    pub sizing: Seq<(SurfaceId, Size)>,
}

impl View for Batch {
    type V = BatchView;

    open spec fn view(&self) -> BatchView {
        BatchView {
            events: self.events@,
            focus_changed: self.focus_changed,
            resize: self.resize,
            closing: self.closing@,
            launching: self.launching@,
            maximizing: self.maximizing@,
            sizing: self.sizing@,
        }
    }
}

impl BatchView {
    /// The batch with one more message in it.
    pub open spec fn with(self, message: ClientMessageView) -> BatchView {
        match message {
            ClientMessageView::Input(event) => BatchView {
                events: self.events.push(event),
                ..self
            },
            ClientMessageView::Focus { .. } => BatchView { focus_changed: true, ..self },
            ClientMessageView::Resize { size } => BatchView { resize: Some(size), ..self },
            ClientMessageView::CloseSurface { id } => BatchView {
                closing: self.closing.push(id),
                ..self
            },
            ClientMessageView::Launch { id } => BatchView {
                launching: self.launching.push(id),
                ..self
            },
            ClientMessageView::SetMaximized { id, size } => BatchView {
                maximizing: self.maximizing.push((id, size)),
                ..self
            },
            ClientMessageView::SetSize { id, size } => BatchView {
                sizing: self.sizing.push((id, size)),
                ..self
            },
            _ => self,
        }
    }
}

impl WeblandView {
    /// The state once a message has been taken.
    pub open spec fn taking(self, message: ClientMessageView) -> WeblandView {
        match message {
            ClientMessageView::RequestKeyframe => WeblandView {
                keyframe: true,
                announce_applications: true,
                announce_cursor: true,
                ..self
            },
            ClientMessageView::Clipboard { text } => WeblandView { clipboard: text, ..self },
            ClientMessageView::Focus { id } => WeblandView { focus: Some(id), ..self },
            _ => self,
        }
    }
}

/// What a message asks for at once.
pub open spec fn answer(message: ClientMessageView) -> Option<Action> {
    if message is Clipboard {
        Some(Action::OfferSelection)
    } else {
        None
    }
}

/// The entries once a message has been taken: an ack credits the clock of the
/// surface it names, and no other.
pub open spec fn entries_taking(
    entries: Seq<StreamedView>,
    message: ClientMessageView,
    now: u64,
) -> Seq<StreamedView> {
    match message {
        ClientMessageView::FramePresented { id } => Seq::new(
            entries.len(),
            |i: int|
                if entries[i].id == id {
                    StreamedView { clock: entries[i].clock.after_ack(now), ..entries[i] }
                } else {
                    entries[i]
                },
        ),
        _ => entries,
    }
}

impl Batch {
    /// A batch that asks for nothing.
    pub fn new() -> (batch: Self)
        ensures
            batch@ == (BatchView {
                events: Seq::empty(),
                focus_changed: false,
                resize: None,
                closing: Seq::empty(),
                launching: Seq::empty(),
                maximizing: Seq::empty(),
                sizing: Seq::empty(),
            }),
    {
        Batch {
            events: Vec::new(),
            focus_changed: false,
            resize: None,
            closing: Vec::new(),
            launching: Vec::new(),
            maximizing: Vec::new(),
            sizing: Vec::new(),
        }
    }
}

impl Webland {
    /// Take one message from the browser.
    ///
    /// The clipboard is handled here rather than with the input: the paste
    /// keystroke is in the same batch and is injected after it, so the client
    /// asks for the selection only once the selection is the one the user meant.
    pub fn take(
        &mut self,
        known: &mut Known,
        batch: &mut Batch,
        message: ClientMessage,
        now: u64,
    ) -> (action: Option<Action>)
        requires
            old(known).valid(),
        ensures
            final(self)@ == old(self)@.taking(message.deep_view()),
            final(batch)@ == old(batch)@.with(message.deep_view()),
            final(known)@ == entries_taking(old(known)@, message.deep_view(), now),
            final(known).next == old(known).next,
            final(known).valid(),
            action == answer(message.deep_view()),
            action == (if message is Clipboard {
                Some(Action::OfferSelection)
            } else {
                None
            }),
    {
        match message {
            ClientMessage::Input(event) => {
                batch.events.push(event);
            },
            ClientMessage::FramePresented { id } => {
                acknowledge(known, id, now);
            },
            ClientMessage::RequestKeyframe => {
                self.keyframe = true;
                self.announce_applications = true;
                self.announce_cursor = true;
            },
            ClientMessage::Clipboard { text } => {
                self.clipboard = text;
                return Some(Action::OfferSelection);
            },
            ClientMessage::Focus { id } => {
                self.focus = Some(id);
                batch.focus_changed = true;
            },
            ClientMessage::Resize { size } => {
                batch.resize = Some(size);
            },
            ClientMessage::CloseSurface { id } => {
                batch.closing.push(id);
            },
            ClientMessage::Launch { id } => {
                batch.launching.push(id);
            },
            ClientMessage::SetMaximized { id, size } => {
                batch.maximizing.push((id, size));
            },
            ClientMessage::SetSize { id, size } => {
                batch.sizing.push((id, size));
            },
            // The tray lives on the session bus and is the server's business.
            ClientMessage::TrayActivate { id: _, secondary: _ } => {},
            ClientMessage::TrayMenuOpen { id: _ } => {},
            ClientMessage::TrayMenuClick { id: _, item: _ } => {},
        }
        None
    }
}

/// The browser presented a frame of this surface.
fn acknowledge(known: &mut Known, id: SurfaceId, now: u64)
    requires
        old(known).valid(),
    ensures
        final(known)@ == entries_taking(
            old(known)@,
            ClientMessageView::FramePresented { id },
            now,
        ),
        final(known).next == old(known).next,
        final(known).valid(),
{
    let ghost before = known@;
    let ghost after = entries_taking(before, ClientMessageView::FramePresented { id }, now);
    if let Some(i) = known.position_of(id) {
        known.entries[i].clock.on_ack(now);
        proof {
            assert forall|j: int| 0 <= j < before.len() implies known@[j] == after[j] by {
                assert(before[i as int].id == id);
                if j != i {
                    assert(before[j].id != before[i as int].id);
                    assert(known@[j] == before[j]);
                } else {
                    assert(known@[j] =~= after[j]);
                }
            }
        }
    } else {
        proof {
            assert forall|j: int| 0 <= j < before.len() implies known@[j] == after[j] by {
                assert(!holds_id(before, id, j));
            }
        }
    }
    assert(known@ =~= after);
    proof {
        assert forall|i: int, j: int| 0 <= i < j < after.len() implies (
        #[trigger] after[i]).object != (#[trigger] after[j]).object && after[i].id
            != after[j].id by {
            assert(before[i].object != before[j].object);
        }
        assert forall|i: int| 0 <= i < after.len() implies (#[trigger] after[i]).id.0
            < known.next by {
            assert(before[i].id.0 < known.next);
        }
    }
}

/// The X window that draws into a surface.
pub open spec fn x11_window(x11: Seq<X11Window>, object: u32) -> Option<u32>
    decreases x11.len(),
{
    if x11.len() == 0 {
        None
    } else if x11[0].surface == Some(object) {
        Some(x11[0].window)
    } else {
        x11_window(x11.drop_first(), object)
    }
}

/// What a surface id names: a window of a Wayland client, a window of X, or
/// nothing that is still around.
pub enum Named {
    Toplevel(u32),
    X11(u32),
    Gone,
}

impl WeblandView {
    /// What a surface id names.
    pub open spec fn named(self, entries: Seq<StreamedView>, id: SurfaceId) -> Named {
        match named_object(entries, id) {
            None => Named::Gone,
            Some(object) => if self.toplevels.contains(object) {
                Named::Toplevel(object)
            } else {
                match x11_window(self.x11, object) {
                    Some(window) => Named::X11(window),
                    None => Named::Gone,
                }
            },
        }
    }

    /// Asking a surface to close.
    pub open spec fn close(self, entries: Seq<StreamedView>, id: SurfaceId) -> Seq<Action> {
        match self.named(entries, id) {
            Named::Toplevel(object) => seq![Action::CloseToplevel { object }],
            Named::X11(window) => seq![Action::CloseX11 { window }],
            Named::Gone => seq![],
        }
    }

    /// Maximizing a surface to a size, or restoring it where there is none. The
    /// client is told the size and the state and redraws itself to fit; an X
    /// window is told a size and nothing else, and restoring means the size the
    /// browser is showing.
    pub open spec fn maximize(
        self,
        entries: Seq<StreamedView>,
        id: SurfaceId,
        size: Option<Size>,
    ) -> Seq<Action> {
        match self.named(entries, id) {
            Named::Toplevel(object) => seq![
                Action::ConfigureToplevel {
                    object,
                    size: match size {
                        Some(s) => Some((s.width as i32, s.height as i32)),
                        None => None,
                    },
                    maximized: Some(size is Some),
                },
            ],
            Named::X11(window) => seq![
                Action::ConfigureX11 {
                    window,
                    size: match size {
                        Some(s) => visible(s),
                        None => self.size,
                    },
                },
            ],
            Named::Gone => seq![],
        }
    }

    /// Configuring a surface at a size, as a resize grip does. Maximized comes
    /// off: a window dragged to a size of its own is not maximized any more.
    pub open spec fn resize(
        self,
        entries: Seq<StreamedView>,
        id: SurfaceId,
        size: Size,
    ) -> Seq<Action> {
        match self.named(entries, id) {
            Named::Toplevel(object) => seq![
                Action::ConfigureToplevel {
                    object,
                    size: Some(visible(size)),
                    maximized: Some(false),
                },
            ],
            Named::X11(window) => seq![Action::ConfigureX11 { window, size: visible(size) }],
            Named::Gone => seq![],
        }
    }

    /// The desktop at a new size: the output changes mode, and everything on it
    /// is told.
    pub open spec fn reconfigure(self, wanted: (i32, i32)) -> Seq<Action> {
        seq![Action::SetOutputMode { size: wanted }] + each(
            self.x11,
            |window: X11Window|
                seq![
                    Action::ConfigureX11 {
                        window: window.window,
                        size: (at_least_one(wanted.0), at_least_one(wanted.1)),
                    },
                ],
        ) + each(
            self.toplevels,
            |object: u32|
                seq![
                    Action::ConfigureToplevel { object, size: Some(wanted), maximized: None },
                ],
        )
    }

    /// What the browser's own resize asks for: nothing where nothing changes.
    pub open spec fn resized(self, resize: Option<Size>) -> Seq<Action> {
        match resize {
            Some(size) => if self.size != visible(size) {
                self.reconfigure(visible(size))
            } else {
                seq![]
            },
            None => seq![],
        }
    }

    /// The surface that input goes to: the one the browser raised, else the
    /// first there is.
    pub open spec fn target(self, entries: Seq<StreamedView>) -> Option<u32> {
        let surfaces = streamed(self.toplevels, self.popups, self.x11);
        let raised = match self.focus {
            Some(id) => named_object(entries, id),
            None => None,
        };
        if raised is Some && surfaces.contains(raised->0) {
            raised
        } else if surfaces.len() > 0 {
            Some(surfaces[0])
        } else {
            None
        }
    }

    /// Delivering one input event. The pointer follows the cursor: a motion or a
    /// wheel goes to the surface it names, everything else to the target. An
    /// event for a surface that is gone goes nowhere.
    pub open spec fn deliver(
        self,
        entries: Seq<StreamedView>,
        target: Option<u32>,
        event: InputEvent,
    ) -> Seq<Action> {
        let surfaces = streamed(self.toplevels, self.popups, self.x11);
        match aimed_at(event) {
            Some(id) => match named_object(entries, id) {
                Some(object) => if surfaces.contains(object) {
                    seq![Action::Inject { object, event }]
                } else {
                    seq![]
                },
                None => seq![],
            },
            None => match target {
                Some(object) => seq![Action::Inject { object, event }],
                None => seq![],
            },
        }
    }
}

/// The surface a pointer event was delivered to, for the events that name one.
pub open spec fn aimed_at(event: InputEvent) -> Option<SurfaceId> {
    match event {
        InputEvent::PointerMotion { id, .. } => Some(id),
        InputEvent::PointerScroll { id, .. } => Some(id),
        _ => None,
    }
}

/// The surface a pointer event was delivered to, for the events that name one.
///
/// Buttons are absent on purpose: a button has no surface of its own and goes to
/// whatever the pointer's focus is, which the motion that put the cursor there
/// has already set.
pub fn pointer_surface(event: &InputEvent) -> (id: Option<SurfaceId>)
    ensures
        id == aimed_at(*event),
{
    match *event {
        InputEvent::PointerMotion { id, position: _ } => Some(id),
        InputEvent::PointerScroll { id, dx: _, dy: _ } => Some(id),
        _ => None,
    }
}

/// The X window that draws into a surface.
fn x11_for(x11: &Vec<X11Window>, object: u32) -> (window: Option<u32>)
    ensures
        window == x11_window(x11@, object),
{
    let mut i: usize = 0;
    assert(x11@.skip(0) =~= x11@);
    while i < x11.len()
        invariant
            i <= x11@.len(),
            x11_window(x11@, object) == x11_window(x11@.skip(i as int), object),
        decreases x11@.len() - i,
    {
        assert(x11@.skip(i as int).drop_first() =~= x11@.skip(i + 1));
        if x11[i].surface == Some(object) {
            return Some(x11[i].window);
        }
        i = i + 1;
    }
    None
}

/// Start what the browser asked for.
fn launches(launching: &Vec<u32>) -> (actions: Vec<Action>)
    ensures
        actions@ == launching@.map_values(|id: u32| Action::Launch { id }),
{
    let mut actions: Vec<Action> = Vec::new();
    let mut i: usize = 0;
    while i < launching.len()
        invariant
            i <= launching@.len(),
            actions@.len() == i,
            forall|j: int| 0 <= j < i ==> actions@[j] == (Action::Launch { id: launching@[j] }),
        decreases launching@.len() - i,
    {
        actions.push(Action::Launch { id: launching[i] });
        i = i + 1;
    }
    assert(actions@ =~= launching@.map_values(|id: u32| Action::Launch { id }));
    actions
}

/// Append to a list.
fn append(actions: &mut Vec<Action>, more: Vec<Action>)
    ensures
        final(actions)@ == old(actions)@ + more@,
{
    let mut more = more;
    actions.append(&mut more);
}

impl Webland {
    /// What a surface id names.
    pub fn resolve(&self, known: &Known, id: SurfaceId) -> (named: Named)
        requires
            known.valid(),
        ensures
            named == self@.named(known@, id),
    {
        match known.object_for(id) {
            None => Named::Gone,
            Some(object) => if contains(&self.toplevels, object) {
                Named::Toplevel(object)
            } else {
                match x11_for(&self.x11, object) {
                    Some(window) => Named::X11(window),
                    None => Named::Gone,
                }
            },
        }
    }

    /// Ask the surfaces the browser closed to close.
    fn settle_closing(&self, known: &Known, closing: &Vec<SurfaceId>) -> (actions: Vec<Action>)
        requires
            known.valid(),
        ensures
            actions@ == each(closing@, |id: SurfaceId| self@.close(known@, id)),
    {
        let ghost close = |id: SurfaceId| self@.close(known@, id);
        let mut actions: Vec<Action> = Vec::new();
        let mut i: usize = 0;
        while i < closing.len()
            invariant
                known.valid(),
                i <= closing@.len(),
                close == (|id: SurfaceId| self@.close(known@, id)),
                actions@ =~= each(closing@.take(i as int), close),
            decreases closing@.len() - i,
        {
            proof {
                each_step(closing@, close, i as int);
            }
            match self.resolve(known, closing[i]) {
                Named::Toplevel(object) => {
                    actions.push(Action::CloseToplevel { object });
                },
                Named::X11(window) => {
                    actions.push(Action::CloseX11 { window });
                },
                Named::Gone => {},
            }
            i = i + 1;
        }
        assert(closing@.take(i as int) =~= closing@);
        actions
    }

    /// Configure the surfaces the browser maximized or restored.
    fn settle_maximizing(
        &self,
        known: &Known,
        maximizing: &Vec<(SurfaceId, Option<Size>)>,
    ) -> (actions: Vec<Action>)
        requires
            known.valid(),
        ensures
            actions@ == each(
                maximizing@,
                |item: (SurfaceId, Option<Size>)| self@.maximize(known@, item.0, item.1),
            ),
    {
        let ghost step = |item: (SurfaceId, Option<Size>)|
            self@.maximize(known@, item.0, item.1);
        let mut actions: Vec<Action> = Vec::new();
        let mut i: usize = 0;
        while i < maximizing.len()
            invariant
                known.valid(),
                i <= maximizing@.len(),
                step == (|item: (SurfaceId, Option<Size>)|
                    self@.maximize(known@, item.0, item.1)),
                actions@ =~= each(maximizing@.take(i as int), step),
            decreases maximizing@.len() - i,
        {
            proof {
                each_step(maximizing@, step, i as int);
            }
            let (id, size): (SurfaceId, Option<Size>) = maximizing[i];
            match self.resolve(known, id) {
                Named::Toplevel(object) => {
                    let pixels: Option<(i32, i32)> = match size {
                        Some(s) => Some((s.width as i32, s.height as i32)),
                        None => None,
                    };
                    actions.push(
                        Action::ConfigureToplevel {
                            object,
                            size: pixels,
                            maximized: Some(size.is_some()),
                        },
                    );
                },
                Named::X11(window) => {
                    let pixels: (i32, i32) = match size {
                        Some(s) => visible_size(s),
                        None => self.size,
                    };
                    actions.push(Action::ConfigureX11 { window, size: pixels });
                },
                Named::Gone => {},
            }
            i = i + 1;
        }
        assert(maximizing@.take(i as int) =~= maximizing@);
        actions
    }

    /// Configure the surfaces whose grip the browser let go of.
    fn settle_sizing(&self, known: &Known, sizing: &Vec<(SurfaceId, Size)>) -> (actions: Vec<
        Action,
    >)
        requires
            known.valid(),
        ensures
            actions@ == each(
                sizing@,
                |item: (SurfaceId, Size)| self@.resize(known@, item.0, item.1),
            ),
    {
        let ghost step = |item: (SurfaceId, Size)| self@.resize(known@, item.0, item.1);
        let mut actions: Vec<Action> = Vec::new();
        let mut i: usize = 0;
        while i < sizing.len()
            invariant
                known.valid(),
                i <= sizing@.len(),
                step == (|item: (SurfaceId, Size)| self@.resize(known@, item.0, item.1)),
                actions@ =~= each(sizing@.take(i as int), step),
            decreases sizing@.len() - i,
        {
            proof {
                each_step(sizing@, step, i as int);
            }
            let (id, size): (SurfaceId, Size) = sizing[i];
            match self.resolve(known, id) {
                Named::Toplevel(object) => {
                    actions.push(
                        Action::ConfigureToplevel {
                            object,
                            size: Some(visible_size(size)),
                            maximized: Some(false),
                        },
                    );
                },
                Named::X11(window) => {
                    actions.push(Action::ConfigureX11 { window, size: visible_size(size) });
                },
                Named::Gone => {},
            }
            i = i + 1;
        }
        assert(sizing@.take(i as int) =~= sizing@);
        actions
    }

    /// Reconfigure everything when the browser's window changes size.
    ///
    /// The client redraws at the new size and the next capture picks it up,
    /// which is what turns a browser resize into a sharp surface rather than a
    /// scaled one.
    fn settle_resize(&mut self, resize: Option<Size>) -> (actions: Vec<Action>)
        ensures
            actions@ == old(self)@.resized(resize),
            final(self)@ == (WeblandView {
                size: match resize {
                    Some(size) => visible(size),
                    None => old(self)@.size,
                },
                ..old(self)@
            }),
    {
        let mut actions: Vec<Action> = Vec::new();
        let wanted: (i32, i32) = match resize {
            Some(size) => visible_size(size),
            None => {
                return actions;
            },
        };
        if self.size.0 == wanted.0 && self.size.1 == wanted.1 {
            return actions;
        }
        self.size = wanted;
        actions.push(Action::SetOutputMode { size: wanted });
        let shown: (i32, i32) = self.x11_size();
        let ghost x11_step = |window: X11Window|
            seq![
                Action::ConfigureX11 {
                    window: window.window,
                    size: (at_least_one(wanted.0), at_least_one(wanted.1)),
                },
            ];
        let ghost step = |object: u32|
            seq![Action::ConfigureToplevel { object, size: Some(wanted), maximized: None }];
        let ghost head = actions@;
        let mut i: usize = 0;
        while i < self.x11.len()
            invariant
                i <= self.x11@.len(),
                shown == (at_least_one(wanted.0), at_least_one(wanted.1)),
                x11_step == (|window: X11Window|
                    seq![
                        Action::ConfigureX11 {
                            window: window.window,
                            size: (at_least_one(wanted.0), at_least_one(wanted.1)),
                        },
                    ]),
                actions@ =~= head + each(self.x11@.take(i as int), x11_step),
            decreases self.x11@.len() - i,
        {
            proof {
                each_step(self.x11@, x11_step, i as int);
            }
            actions.push(Action::ConfigureX11 { window: self.x11[i].window, size: shown });
            i = i + 1;
        }
        assert(self.x11@.take(i as int) =~= self.x11@);
        let ghost head = actions@;
        let mut j: usize = 0;
        while j < self.toplevels.len()
            invariant
                j <= self.toplevels@.len(),
                step == (|object: u32|
                    seq![
                        Action::ConfigureToplevel { object, size: Some(wanted), maximized: None },
                    ]),
                actions@ =~= head + each(self.toplevels@.take(j as int), step),
            decreases self.toplevels@.len() - j,
        {
            proof {
                each_step(self.toplevels@, step, j as int);
            }
            actions.push(
                Action::ConfigureToplevel {
                    object: self.toplevels[j],
                    size: Some(wanted),
                    maximized: None,
                },
            );
            j = j + 1;
        }
        assert(self.toplevels@.take(j as int) =~= self.toplevels@);
        actions
    }

    /// The surface that input goes to.
    ///
    /// Looked for over everything that is streamed, not over the toplevels: a
    /// popup and an X window are both surfaces the browser shows and the user
    /// clicks.
    fn input_target(&self, known: &Known, surfaces: &Vec<u32>) -> (target: Option<u32>)
        requires
            known.valid(),
            surfaces@ == streamed(self@.toplevels, self@.popups, self@.x11),
        ensures
            target == self@.target(known@),
    {
        let raised: Option<u32> = match self.focus {
            Some(id) => known.object_for(id),
            None => None,
        };
        if let Some(object) = raised {
            if contains(surfaces, object) {
                return Some(object);
            }
        }
        if surfaces.len() > 0 {
            Some(surfaces[0])
        } else {
            None
        }
    }

    /// Deliver the input events.
    fn settle_events(
        &self,
        known: &Known,
        surfaces: &Vec<u32>,
        target: Option<u32>,
        events: &Vec<InputEvent>,
    ) -> (actions: Vec<Action>)
        requires
            known.valid(),
            surfaces@ == streamed(self@.toplevels, self@.popups, self@.x11),
        ensures
            actions@ == each(
                events@,
                |event: InputEvent| self@.deliver(known@, target, event),
            ),
    {
        let ghost step = |event: InputEvent| self@.deliver(known@, target, event);
        let mut actions: Vec<Action> = Vec::new();
        let mut i: usize = 0;
        while i < events.len()
            invariant
                known.valid(),
                surfaces@ == streamed(self@.toplevels, self@.popups, self@.x11),
                i <= events@.len(),
                step == (|event: InputEvent| self@.deliver(known@, target, event)),
                actions@ =~= each(events@.take(i as int), step),
            decreases events@.len() - i,
        {
            proof {
                each_step(events@, step, i as int);
            }
            let event = events[i];
            let surface: Option<u32> = match pointer_surface(&event) {
                Some(id) => match known.object_for(id) {
                    Some(object) => if contains(surfaces, object) {
                        Some(object)
                    } else {
                        None
                    },
                    None => None,
                },
                None => target,
            };
            if let Some(object) = surface {
                actions.push(Action::Inject { object, event });
            }
            i = i + 1;
        }
        assert(events@.take(i as int) =~= events@);
        actions
    }
}

impl WeblandView {
    /// The object of the surface the browser raised.
    pub open spec fn raised(self, entries: Seq<StreamedView>) -> Option<u32> {
        match self.focus {
            Some(id) => named_object(entries, id),
            None => None,
        }
    }

    /// The state once the focus has moved: every popup the focused surface does
    /// not belong to is gone, and the X windows know which of them is focused.
    pub open spec fn refocused(self, entries: Seq<StreamedView>, changed: bool) -> WeblandView {
        if changed {
            let focused = self.raised(entries);
            WeblandView {
                popups: kept_popups(self.popups, ancestry_of(self.popups, focused)),
                x11: self.x11.map_values(|window: X11Window| activated(window, focused)),
                ..self
            }
        } else {
            self
        }
    }

    /// What moving the focus asks for.
    pub open spec fn refocus(self, entries: Seq<StreamedView>, changed: bool) -> Seq<Action> {
        if changed {
            let focused = self.raised(entries);
            dismissed(self.popups, ancestry_of(self.popups, focused)).map_values(
                |object: u32| Action::PopupDone { object },
            ) + each(self.x11, |window: X11Window| activation(window, focused))
        } else {
            seq![]
        }
    }

    /// Whether the target is given the focus: nobody has it, and the browser
    /// knows the target.
    pub open spec fn adopts(self, entries: Seq<StreamedView>) -> bool {
        self.focus is None && self.target(entries) is Some && known_id(
            entries,
            self.target(entries)->0,
        ) is Some
    }

    /// The state once the target has been given the focus.
    pub open spec fn adopted(self, entries: Seq<StreamedView>) -> WeblandView {
        if self.adopts(entries) {
            let target = self.target(entries);
            WeblandView {
                focus: known_id(entries, target->0),
                x11: self.x11.map_values(|window: X11Window| activated(window, target)),
                ..self
            }
        } else {
            self
        }
    }

    /// The state once the batch is settled, up to the focus.
    pub open spec fn arranged(self, entries: Seq<StreamedView>, batch: BatchView) -> WeblandView {
        let refocused = self.refocused(entries, batch.focus_changed);
        WeblandView {
            size: match batch.resize {
                Some(size) => visible(size),
                None => self.size,
            },
            ..refocused
        }
    }

    /// The state once the batch is settled.
    pub open spec fn settled(self, entries: Seq<StreamedView>, batch: BatchView) -> WeblandView {
        self.arranged(entries, batch).adopted(entries)
    }

    /// What arranging the windows asks for, in order: the focus first, then what
    /// is started, closed, maximized and sized, then the browser's own resize.
    pub open spec fn arrange(self, entries: Seq<StreamedView>, batch: BatchView) -> Seq<Action> {
        let now = self.refocused(entries, batch.focus_changed);
        self.refocus(entries, batch.focus_changed) + batch.launching.map_values(
            |id: u32| Action::Launch { id },
        ) + each(batch.closing, |id: SurfaceId| now.close(entries, id)) + each(
            batch.maximizing,
            |item: (SurfaceId, Option<Size>)| now.maximize(entries, item.0, item.1),
        ) + each(
            batch.sizing,
            |item: (SurfaceId, Size)| now.resize(entries, item.0, item.1),
        ) + now.resized(batch.resize)
    }

    /// What the input asks for, in order: the target takes the focus where
    /// nobody has it, and the keyboard where it is elsewhere, then every event
    /// is delivered.
    pub open spec fn input(
        self,
        entries: Seq<StreamedView>,
        events: Seq<InputEvent>,
        keyboard: Option<u32>,
    ) -> Seq<Action> {
        let target = self.target(entries);
        let adopt = if self.adopts(entries) {
            each(self.x11, |window: X11Window| activation(window, target))
        } else {
            seq![]
        };
        let focus = if events.len() > 0 && target is Some && keyboard != target {
            seq![Action::FocusKeyboard { object: target->0 }]
        } else {
            seq![]
        };
        adopt + focus + each(
            events,
            |event: InputEvent| self.adopted(entries).deliver(entries, target, event),
        )
    }
}

impl Webland {
    /// Settle a batch: everything it asks for, in the order it has to be done.
    /// `keyboard` is the surface that has the keyboard now.
    pub fn settle(&mut self, known: &Known, batch: &Batch, keyboard: Option<u32>) -> (actions: Vec<
        Action,
    >)
        requires
            known.valid(),
        ensures
            final(self)@ == old(self)@.settled(known@, batch@),
            actions@ == old(self)@.arrange(known@, batch@) + old(self)@.arranged(
                known@,
                batch@,
            ).input(known@, batch@.events, keyboard),
    {
        let mut actions = self.arrange_windows(known, batch);
        append(&mut actions, self.route_input(known, &batch.events, keyboard));
        actions
    }

    /// Everything a batch asks for but the input.
    fn arrange_windows(&mut self, known: &Known, batch: &Batch) -> (actions: Vec<Action>)
        requires
            known.valid(),
        ensures
            final(self)@ == old(self)@.arranged(known@, batch@),
            actions@ == old(self)@.arrange(known@, batch@),
    {
        let ghost start = self@;
        let mut actions: Vec<Action> = Vec::new();
        if batch.focus_changed {
            actions = self.settle_focus(known);
        }
        assert(actions@ == start.refocus(known@, batch.focus_changed));
        assert(self@ =~= start.refocused(known@, batch.focus_changed));
        append(&mut actions, launches(&batch.launching));
        append(&mut actions, self.settle_closing(known, &batch.closing));
        append(&mut actions, self.settle_maximizing(known, &batch.maximizing));
        append(&mut actions, self.settle_sizing(known, &batch.sizing));
        append(&mut actions, self.settle_resize(batch.resize));
        assert(self@ =~= start.arranged(known@, batch@));
        actions
    }

    /// Deliver the input, to a target that is given the focus where nobody has it.
    fn route_input(
        &mut self,
        known: &Known,
        events: &Vec<InputEvent>,
        keyboard: Option<u32>,
    ) -> (actions: Vec<Action>)
        requires
            known.valid(),
        ensures
            final(self)@ == old(self)@.adopted(known@),
            actions@ == old(self)@.input(known@, events@, keyboard),
    {
        let ghost start = self@;
        let surfaces = self.streamed_surfaces();
        let target: Option<u32> = self.input_target(known, &surfaces);
        let mut actions: Vec<Action> = Vec::new();
        if self.focus.is_none() {
            if let Some(object) = target {
                if let Some(id) = known.id_of(object) {
                    self.focus = Some(id);
                    actions = self.activate_x11(target);
                }
            }
        }
        assert(self@ =~= start.adopted(known@));
        assert(surfaces@ == streamed(self@.toplevels, self@.popups, self@.x11)) by {
            same_surfaces(start.x11, self@.x11);
        }
        if events.len() > 0 {
            if let Some(object) = target {
                if keyboard != target {
                    actions.push(Action::FocusKeyboard { object });
                }
            }
        }
        append(&mut actions, self.settle_events(known, &surfaces, target, events));
        assert(actions@ =~= start.input(known@, events@, keyboard));
        actions
    }

    /// The browser raised a surface.
    fn settle_focus(&mut self, known: &Known) -> (actions: Vec<Action>)
        requires
            known.valid(),
        ensures
            final(self)@ == old(self)@.refocused(known@, true),
            actions@ == old(self)@.refocus(known@, true),
    {
        let ghost start = self@;
        let focused: Option<u32> = match self.focus {
            Some(id) => known.object_for(id),
            None => None,
        };
        let done = dismiss_popups(&mut self.popups, focused);
        let ghost tell = |object: u32| Action::PopupDone { object };
        let mut actions: Vec<Action> = Vec::new();
        let mut i: usize = 0;
        while i < done.len()
            invariant
                i <= done@.len(),
                tell == (|object: u32| Action::PopupDone { object }),
                actions@ =~= done@.take(i as int).map_values(tell),
            decreases done@.len() - i,
        {
            actions.push(Action::PopupDone { object: done[i] });
            i = i + 1;
        }
        assert(done@.take(i as int) =~= done@);
        append(&mut actions, self.activate_x11(focused));
        assert(self@ =~= start.refocused(known@, true));
        assert(actions@ =~= start.refocus(known@, true));
        actions
    }
}

/// Telling X windows about the focus changes none of their surfaces.
proof fn same_surfaces(before: Seq<X11Window>, after: Seq<X11Window>)
    requires
        before.len() == after.len(),
        forall|i: int| 0 <= i < before.len() ==> (#[trigger] before[i]).surface == after[i].surface,
    ensures
        each(before, |window: X11Window| surface_of(window)) == each(
            after,
            |window: X11Window| surface_of(window),
        ),
    decreases before.len(),
{
    if before.len() > 0 {
        same_surfaces(before.drop_last(), after.drop_last());
        assert(before.last().surface == after.last().surface);
    }
}

/// An event that names a surface is delivered to that surface or to nobody, and
/// only while it is on the screen; no event is ever delivered twice.
pub proof fn an_event_never_goes_astray(
    state: WeblandView,
    entries: Seq<StreamedView>,
    target: Option<u32>,
    event: InputEvent,
)
    ensures
        ({
            let actions = state.deliver(entries, target, event);
            let surfaces = streamed(state.toplevels, state.popups, state.x11);
            &&& actions.len() <= 1
            &&& actions.len() == 1 ==> match aimed_at(event) {
                Some(id) => {
                    let object = named_object(entries, id);
                    object is Some && surfaces.contains(object->0) && actions[0] == (
                    Action::Inject { object: object->0, event })
                },
                None => target is Some && actions[0] == (Action::Inject {
                    object: target->0,
                    event,
                }),
            }
        }),
{
}

/// A text from the browser is offered to the clients the moment it comes, and no
/// other message asks for anything before the batch is settled.
pub proof fn only_a_copy_is_answered_at_once(message: ClientMessageView)
    ensures
        message is Clipboard ==> answer(message) == Some(Action::OfferSelection),
        message !is Clipboard ==> answer(message) is None,
{
}

} // verus!
