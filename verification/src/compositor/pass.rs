//! One pass over everything that is streamed: what comes before the surfaces,
//! what each of them starts with, and what is said of those that are gone.

use crate::compositor::damage::{blitted, cropped, damage_rebuilds_the_picture};
use crate::compositor::state::{
    activated, activation, each, each_step, Action, Webland, WeblandView, X11Window,
};
use crate::compositor::stream::{is_damage, packed_stride};
use crate::compositor::tracking::{
    contains, departed, distinct, holds_object, known_id, living, Known, StreamedView,
};
use crate::geometry::{Rect, Size, SurfaceId};
use crate::protocol::messages::{
    queue, Anchor, Application, ApplicationView, ClientMessageView, ServerMessage,
    ServerMessageView, WindowRequest,
};
use vstd::prelude::*;

verus! {

/// A window request, for a surface the browser has heard of. One that arrives
/// before its surface was announced is dropped: the gesture it belongs to is
/// over by the time a window exists to apply it to.
pub open spec fn forwarded(
    entries: Seq<StreamedView>,
    request: (u32, WindowRequest),
) -> Seq<ServerMessageView> {
    match known_id(entries, request.0) {
        Some(id) => seq![ServerMessageView::SurfaceRequest { id, request: request.1 }],
        None => seq![],
    }
}

impl WeblandView {
    /// What goes out before any surface: the launcher's list where it was asked
    /// for, what clients copied, the cursor where it changed, and what clients
    /// asked of the shell.
    pub open spec fn opening(
        self,
        entries: Seq<StreamedView>,
        listing: Seq<ApplicationView>,
        pastes: Seq<Seq<char>>,
    ) -> Seq<ServerMessageView> {
        let applications = if self.announce_applications {
            seq![ServerMessageView::Applications(listing)]
        } else {
            seq![]
        };
        let cursor = if self.announce_cursor {
            seq![ServerMessageView::Cursor { name: self.cursor }]
        } else {
            seq![]
        };
        applications + pastes.map_values(
            |text: Seq<char>| ServerMessageView::Clipboard { text },
        ) + cursor + each(
            self.requests,
            |request: (u32, WindowRequest)| forwarded(entries, request),
        )
    }

    /// The state once the pass is open: everything that was waiting has gone.
    pub open spec fn opened(self, pastes: Seq<Seq<char>>) -> WeblandView {
        WeblandView {
            keyframe: false,
            announce_applications: false,
            announce_cursor: false,
            clipboard: if pastes.len() > 0 {
                pastes.last()
            } else {
                self.clipboard
            },
            requests: Seq::empty(),
            ..self
        }
    }

    /// The state once a surface was met: one the browser has not heard of that
    /// hangs from nothing takes the focus, under the id it is given.
    pub open spec fn met(
        self,
        entries: Seq<StreamedView>,
        object: u32,
        anchor: Option<Anchor>,
        id: SurfaceId,
    ) -> WeblandView {
        if known_id(entries, object) is None && anchor is None {
            WeblandView {
                focus: Some(id),
                x11: self.x11.map_values(
                    |window: X11Window| activated(window, Some(object)),
                ),
                ..self
            }
        } else {
            self
        }
    }

    /// The state once everything that is not among the living was let go of.
    pub open spec fn parted(self, entries: Seq<StreamedView>, live: Seq<u32>) -> WeblandView {
        WeblandView {
            focus: match self.focus {
                Some(id) => if departed(entries, live).contains(id) {
                    None
                } else {
                    Some(id)
                },
                None => None,
            },
            server_decorated: self.server_decorated.filter(|object: u32| live.contains(object)),
            ..self
        }
    }
}

/// What the browser is told of the surfaces that are not among the living.
pub open spec fn farewells(entries: Seq<StreamedView>, live: Seq<u32>) -> Seq<ServerMessageView> {
    departed(entries, live).map_values(|id: SurfaceId| ServerMessageView::SurfaceDestroyed { id })
}

impl Webland {
    /// Open a pass: what goes to the browser before any surface, and whether
    /// every surface is to be sent whole.
    ///
    /// `pastes` is what clients copied since the last pass; the browser puts it
    /// on the real clipboard, which is what makes a copy here paste anywhere.
    pub fn open_pass(
        &mut self,
        known: &Known,
        listing: Vec<Application>,
        pastes: Vec<String>,
    ) -> (opening: (bool, Vec<ServerMessage>))
        requires
            known.valid(),
        ensures
            opening.0 == old(self)@.keyframe,
            opening.1.deep_view() == old(self)@.opening(
                known@,
                listing.deep_view(),
                pastes.deep_view(),
            ),
            final(self)@ == old(self)@.opened(pastes.deep_view()),
    {
        let ghost start = self@;
        let ghost texts = pastes.deep_view();
        let keyframe = self.keyframe;
        let mut messages: Vec<ServerMessage> = Vec::new();
        if self.announce_applications {
            queue(&mut messages, ServerMessage::Applications(listing));
        }
        assert(messages.deep_view() =~= (if start.announce_applications {
            seq![ServerMessageView::Applications(listing.deep_view())]
        } else {
            seq![]
        }));
        let ghost head = messages.deep_view();
        let ghost paste = |text: Seq<char>| ServerMessageView::Clipboard { text };
        let mut i: usize = 0;
        while i < pastes.len()
            invariant
                i <= pastes@.len(),
                texts == pastes.deep_view(),
                paste == (|text: Seq<char>| ServerMessageView::Clipboard { text }),
                messages.deep_view() =~= head + texts.take(i as int).map_values(paste),
                self@ == (WeblandView {
                    clipboard: if i > 0 {
                        texts[i - 1]
                    } else {
                        start.clipboard
                    },
                    ..start
                }),
            decreases pastes@.len() - i,
        {
            self.clipboard = pastes[i].clone();
            queue(&mut messages, ServerMessage::Clipboard { text: pastes[i].clone() });
            assert(texts[i as int] == pastes@[i as int]@);
            i = i + 1;
        }
        assert(texts.take(i as int) =~= texts);
        if self.announce_cursor {
            queue(&mut messages, ServerMessage::Cursor { name: self.cursor.clone() });
        }
        let ghost head = messages.deep_view();
        let ghost forward = |request: (u32, WindowRequest)| forwarded(known@, request);
        let mut requests: Vec<(u32, WindowRequest)> = Vec::new();
        std::mem::swap(&mut requests, &mut self.requests);
        let mut j: usize = 0;
        while j < requests.len()
            invariant
                known.valid(),
                j <= requests@.len(),
                forward == (|request: (u32, WindowRequest)| forwarded(known@, request)),
                messages.deep_view() =~= head + each(requests@.take(j as int), forward),
            decreases requests@.len() - j,
        {
            proof {
                each_step(requests@, forward, j as int);
            }
            let (object, request): (u32, WindowRequest) = requests[j];
            if let Some(id) = known.id_of(object) {
                queue(&mut messages, ServerMessage::SurfaceRequest { id, request });
            }
            j = j + 1;
        }
        assert(requests@.take(j as int) =~= requests@);
        self.keyframe = false;
        self.announce_applications = false;
        self.announce_cursor = false;
        assert(messages.deep_view() =~= start.opening(known@, listing.deep_view(), texts));
        assert(self@ =~= start.opened(texts));
        (keyframe, messages)
    }

    /// Meet a surface: give it an entry where it has none. A new window takes
    /// the focus; a new popup does not. Returns where its entry stands.
    pub fn meet(&mut self, known: &mut Known, object: u32, anchor: Option<Anchor>, now: u64) -> (met:
        (usize, Vec<Action>))
        requires
            old(known).valid(),
            old(known).next < u64::MAX,
        ensures
            final(known).valid(),
            final(self)@ == old(self)@.met(
                old(known)@,
                object,
                anchor,
                SurfaceId(old(known).next),
            ),
            holds_object(final(known)@, object, met.0 as int),
            match known_id(old(known)@, object) {
                Some(_) => {
                    &&& final(known)@ == old(known)@
                    &&& final(known).next == old(known).next
                    &&& final(self)@ == old(self)@
                    &&& met.1@.len() == 0
                },
                None => {
                    let id = SurfaceId(old(known).next);
                    &&& final(known)@ == old(known)@.push(StreamedView::fresh(object, id, now))
                    &&& final(known).next == old(known).next + 1
                    &&& if anchor is None {
                        &&& final(self)@ == (WeblandView {
                            focus: Some(id),
                            x11: old(self)@.x11.map_values(
                                |window: X11Window| activated(window, Some(object)),
                            ),
                            ..old(self)@
                        })
                        &&& met.1@ == each(
                            old(self)@.x11,
                            |window: X11Window| activation(window, Some(object)),
                        )
                    } else {
                        final(self)@ == old(self)@ && met.1@.len() == 0
                    }
                },
            },
    {
        let (at, is_new): (usize, bool) = known.track(object, now);
        if is_new && anchor.is_none() {
            self.focus = Some(known.entries[at].id);
            assert(known@[at as int].id == known.entries@[at as int].id);
            let actions = self.activate_x11(Some(object));
            return (at, actions);
        }
        (at, Vec::new())
    }

    /// Close a pass: tell the browser about every surface that has gone.
    ///
    /// A closed window would otherwise sit on screen for good: from the far end
    /// an idle surface and a dead one look identical, both being simply an
    /// absence of frames. The focus goes with the surface that had it.
    pub fn close_pass(&mut self, known: &mut Known, live: &Vec<u32>) -> (messages: Vec<
        ServerMessage,
    >)
        requires
            old(known).valid(),
        ensures
            final(known).valid(),
            final(known).next == old(known).next,
            final(known)@ == living(old(known)@, live@),
            final(self)@ == old(self)@.parted(old(known)@, live@),
            messages.deep_view() == farewells(old(known)@, live@),
            messages.deep_view() == departed(old(known)@, live@).map_values(
                |id: SurfaceId| ServerMessageView::SurfaceDestroyed { id },
            ),
            final(self)@ == (WeblandView {
                focus: match old(self)@.focus {
                    Some(id) => if departed(old(known)@, live@).contains(id) {
                        None
                    } else {
                        Some(id)
                    },
                    None => None,
                },
                server_decorated: old(self)@.server_decorated.filter(
                    |object: u32| live@.contains(object),
                ),
                ..old(self)@
            }),
    {
        let ghost start = self@;
        let gone = known.retain_live(live);
        let ghost tell = |id: SurfaceId| ServerMessageView::SurfaceDestroyed { id };
        let mut messages: Vec<ServerMessage> = Vec::new();
        let mut i: usize = 0;
        while i < gone.len()
            invariant
                i <= gone@.len(),
                tell == (|id: SurfaceId| ServerMessageView::SurfaceDestroyed { id }),
                messages.deep_view() =~= gone@.take(i as int).map_values(tell),
                self@ == (WeblandView {
                    focus: match start.focus {
                        Some(id) => if gone@.take(i as int).contains(id) {
                            None
                        } else {
                            Some(id)
                        },
                        None => None,
                    },
                    ..start
                }),
            decreases gone@.len() - i,
        {
            let id = gone[i];
            proof {
                let next = gone@.take(i + 1);
                assert(next[i as int] == id);
                assert(next =~= gone@.take(i as int).push(id));
                if let Some(held) = start.focus {
                    if gone@.take(i as int).contains(held) {
                        let j = choose|j: int| 0 <= j < i && gone@.take(i as int)[j] == held;
                        assert(next[j] == held);
                    }
                    if next.contains(held) && held != id {
                        let j = choose|j: int| 0 <= j < i + 1 && next[j] == held;
                        assert(gone@.take(i as int)[j] == held);
                    }
                }
            }
            queue(&mut messages, ServerMessage::SurfaceDestroyed { id });
            if self.focus == Some(id) {
                self.focus = None;
            }
            i = i + 1;
        }
        assert(gone@.take(i as int) =~= gone@);
        let ghost all = self.server_decorated@;
        let ghost stays = |object: u32| live@.contains(object);
        let mut kept: Vec<u32> = Vec::new();
        let mut j: usize = 0;
        proof {
            reveal(Seq::filter);
        }
        while j < self.server_decorated.len()
            invariant
                self.server_decorated@ == all,
                j <= all.len(),
                stays == (|object: u32| live@.contains(object)),
                kept@ =~= all.take(j as int).filter(stays),
            decreases all.len() - j,
        {
            proof {
                reveal(Seq::filter);
                assert(all.take(j + 1).drop_last() =~= all.take(j as int));
            }
            if contains(live, self.server_decorated[j]) {
                kept.push(self.server_decorated[j]);
            }
            j = j + 1;
        }
        assert(all.take(j as int) =~= all);
        self.server_decorated = kept;
        messages
    }
}

/// Whether to fire a surface's frame callbacks now. A surface with no entry yet
/// has never been captured, so nobody is waiting on its frames.
pub fn tick(known: &mut Known, object: u32, now: u64) -> (fire: bool)
    requires
        old(known).valid(),
    ensures
        final(known).valid(),
        final(known).next == old(known).next,
        final(known)@.len() == old(known)@.len(),
        forall|i: int|
            0 <= i < old(known)@.len() ==> #[trigger] final(known)@[i] == (if old(known)@[i].object
                == object {
                StreamedView { clock: old(known)@[i].clock.after_tick(now), ..old(known)@[i] }
            } else {
                old(known)@[i]
            }),
        fire == exists|i: int|
            holds_object(old(known)@, object, i) && #[trigger] old(known)@[i].clock.ticks(now),
{
    let ghost before = known@;
    match known.position(object) {
        None => {
            assert forall|i: int| 0 <= i < before.len() implies before[i].object != object by {
                assert(!holds_object(before, object, i));
            }
            false
        },
        Some(i) => {
            let fire = known.entries[i].clock.should_tick(now);
            proof {
                assert forall|j: int| 0 <= j < before.len() && j != i implies before[j].object
                    != object && known@[j] == before[j] by {
                    assert(before[j].object != before[i as int].object);
                }
                assert(known@[i as int] =~= (StreamedView {
                    clock: before[i as int].clock.after_tick(now),
                    ..before[i as int]
                }));
                assert forall|j: int| 0 <= j < before.len() implies (#[trigger] known@[j]).object
                    == before[j].object && known@[j].id == before[j].id by {
                    assert(j == i || known@[j] == before[j]);
                }
                if fire {
                    assert(holds_object(before, object, i as int));
                }
                assert forall|j: int| holds_object(before, object, j) implies j == i by {
                    if j != i {
                        assert(before[j].object != before[i as int].object);
                    }
                }
            }
            fire
        },
    }
}

/// The browser keeps up: whatever it held, once it has put the damaged region of
/// a frame where it belongs it shows the picture the frame was made from.
pub proof fn the_browser_keeps_up(
    held: Seq<u8>,
    picture: Seq<u8>,
    size: Size,
    announced: bool,
    region: Rect,
    shown: Seq<u8>,
)
    requires
        picture.len() == size.height * size.width * 4,
        shown.len() == picture.len(),
        size.width * 4 <= i32::MAX,
        size.height <= i32::MAX,
        is_damage(held, picture, size, announced, region),
        !announced ==> shown == held,
    ensures
        blitted(
            shown,
            size.width as int,
            region,
            cropped(picture, 0, packed_stride(size) as int, region),
        ) == picture,
{
    damage_rebuilds_the_picture(shown, picture, size, region);
}

/// A browser that asked for everything gets the launcher's list and the cursor
/// in the next pass, before any surface, and every surface whole; whatever else
/// was waiting goes out as well.
pub proof fn a_joining_browser_is_told_everything(
    state: WeblandView,
    entries: Seq<StreamedView>,
    listing: Seq<ApplicationView>,
    pastes: Seq<Seq<char>>,
)
    ensures
        ({
            let asked = state.taking(ClientMessageView::RequestKeyframe);
            let messages = asked.opening(entries, listing, pastes);
            &&& asked.keyframe
            &&& messages.contains(ServerMessageView::Applications(listing))
            &&& messages.contains(ServerMessageView::Cursor { name: state.cursor })
        }),
{
    let asked = state.taking(ClientMessageView::RequestKeyframe);
    let messages = asked.opening(entries, listing, pastes);
    assert(messages[0] == ServerMessageView::Applications(listing));
    assert(messages[1 + pastes.len() as int] == (ServerMessageView::Cursor {
        name: state.cursor,
    }));
}

/// Opening a pass leaves nothing waiting: the next one has nothing to say until
/// something happens, and sends no surface whole for it.
pub proof fn a_pass_leaves_nothing_waiting(
    state: WeblandView,
    entries: Seq<StreamedView>,
    listing: Seq<ApplicationView>,
    pastes: Seq<Seq<char>>,
)
    ensures
        state.opened(pastes).opening(entries, listing, Seq::empty()).len() == 0,
        !state.opened(pastes).keyframe,
        state.opened(pastes).focus == state.focus,
        state.opened(pastes).cursor == state.cursor,
{
}

/// What a client copied reaches the browser: one more copy is one more message
/// with that text, and it becomes what other clients are given when they paste.
pub proof fn a_copy_reaches_the_browser(
    state: WeblandView,
    entries: Seq<StreamedView>,
    listing: Seq<ApplicationView>,
    pastes: Seq<Seq<char>>,
    text: Seq<char>,
)
    ensures
        state.opened(Seq::empty()).clipboard == state.clipboard,
        state.opened(pastes.push(text)).clipboard == text,
        state.opening(entries, listing, pastes.push(text)).contains(
            ServerMessageView::Clipboard { text },
        ),
        state.opening(entries, listing, pastes.push(text)).len() == state.opening(
            entries,
            listing,
            pastes,
        ).len() + 1,
{
    let head: int = if state.announce_applications {
        1
    } else {
        0
    };
    let messages = state.opening(entries, listing, pastes.push(text));
    assert(messages[head + pastes.len()] == (ServerMessageView::Clipboard { text }));
}

/// What a client asks of the shell goes out at the end of the opening, under
/// the id its surface is known by; one that asks before its surface is known is
/// not heard.
pub proof fn a_request_goes_out_under_its_surfaces_id(
    state: WeblandView,
    entries: Seq<StreamedView>,
    next: u64,
    listing: Seq<ApplicationView>,
    pastes: Seq<Seq<char>>,
    object: u32,
    request: WindowRequest,
    i: int,
)
    requires
        distinct(entries, next),
    ensures
        ({
            let asked = WeblandView { requests: state.requests.push((object, request)), ..state };
            let before = state.opening(entries, listing, pastes);
            let after = asked.opening(entries, listing, pastes);
            &&& 0 <= i < entries.len() && entries[i].object == object ==> after == before.push(
                ServerMessageView::SurfaceRequest { id: entries[i].id, request },
            )
            &&& (forall|j: int| 0 <= j < entries.len() ==> (#[trigger] entries[j]).object
                != object) ==> after == before
        }),
{
    let asked = WeblandView { requests: state.requests.push((object, request)), ..state };
    let before = state.opening(entries, listing, pastes);
    let after = asked.opening(entries, listing, pastes);
    let forward = |request: (u32, WindowRequest)| forwarded(entries, request);
    assert(asked.requests.drop_last() =~= state.requests);
    assert(each(asked.requests, forward) == each(state.requests, forward) + forwarded(
        entries,
        (object, request),
    ));
    if 0 <= i < entries.len() && entries[i].object == object {
        assert(holds_object(entries, object, i));
        let k = choose|k: int| holds_object(entries, object, k);
        assert(entries[k].object == entries[i].object);
        assert(known_id(entries, object) == Some(entries[i].id));
        assert(after =~= before.push(
            ServerMessageView::SurfaceRequest { id: entries[i].id, request },
        ));
    }
    if forall|j: int| 0 <= j < entries.len() ==> (#[trigger] entries[j]).object != object {
        assert(known_id(entries, object) is None);
        assert(after =~= before);
    }
}

/// The cursor and the launcher's list go out only where they are news.
pub proof fn only_news_is_announced(
    state: WeblandView,
    entries: Seq<StreamedView>,
    listing: Seq<ApplicationView>,
    pastes: Seq<Seq<char>>,
    n: int,
)
    requires
        0 <= n < state.opening(entries, listing, pastes).len(),
    ensures
        state.opening(entries, listing, pastes)[n] is Applications ==> n == 0
            && state.announce_applications && state.opening(entries, listing, pastes)[n]
            == ServerMessageView::Applications(listing),
        state.opening(entries, listing, pastes)[n] is Cursor ==> state.announce_cursor
            && state.opening(entries, listing, pastes)[n] == (ServerMessageView::Cursor {
            name: state.cursor,
        }),
{
    let forward = |request: (u32, WindowRequest)| forwarded(entries, request);
    let requests = each(state.requests, forward);
    only_requests(entries, state.requests);
    let messages = state.opening(entries, listing, pastes);
    let head = messages.len() - requests.len();
    if n >= head {
        assert(messages[n] == requests[n - head]);
    }
}

proof fn only_requests(entries: Seq<StreamedView>, requests: Seq<(u32, WindowRequest)>)
    ensures
        ({
            let all = each(requests, |request: (u32, WindowRequest)| forwarded(entries, request));
            forall|i: int| 0 <= i < all.len() ==> #[trigger] all[i] is SurfaceRequest
        }),
    decreases requests.len(),
{
    let forward = |request: (u32, WindowRequest)| forwarded(entries, request);
    if requests.len() > 0 {
        let front = requests.drop_last();
        only_requests(entries, front);
        let head = each(front, forward);
        let all = each(requests, forward);
        assert forall|i: int| 0 <= i < all.len() implies #[trigger] all[i] is SurfaceRequest by {
            if i < head.len() {
                assert(all[i] == head[i]);
            } else {
                assert(all[i] == forward(requests.last())[i - head.len()]);
            }
        }
    }
}

proof fn living_or_departed(entries: Seq<StreamedView>, live: Seq<u32>)
    ensures
        living(entries, live).len() + departed(entries, live).len() == entries.len(),
        forall|i: int|
            0 <= i < entries.len() && live.contains((#[trigger] entries[i]).object) ==> living(
                entries,
                live,
            ).contains(entries[i]),
        forall|i: int|
            0 <= i < entries.len() && !live.contains((#[trigger] entries[i]).object) ==> departed(
                entries,
                live,
            ).contains(entries[i].id),
        forall|k: int|
            0 <= k < departed(entries, live).len() ==> exists|i: int|
                0 <= i < entries.len() && (#[trigger] entries[i]).id == #[trigger] departed(
                    entries,
                    live,
                )[k] && !live.contains(entries[i].object),
        forall|k: int|
            0 <= k < living(entries, live).len() ==> live.contains(
                (#[trigger] living(entries, live)[k]).object,
            ) && entries.contains(living(entries, live)[k]),
    decreases entries.len(),
{
    if entries.len() > 0 {
        let front = entries.drop_last();
        let last = entries.last();
        living_or_departed(front, live);
        let stay = living(front, live);
        let gone = departed(front, live);
        assert forall|i: int|
            0 <= i < entries.len() && live.contains(
                (#[trigger] entries[i]).object,
            ) implies living(entries, live).contains(entries[i]) by {
            if i < front.len() {
                assert(front[i] == entries[i]);
                let k = choose|k: int| 0 <= k < stay.len() && stay[k] == entries[i];
                assert(living(entries, live)[k] == entries[i]);
            } else {
                assert(living(entries, live)[stay.len() as int] == last);
            }
        }
        assert forall|i: int|
            0 <= i < entries.len() && !live.contains(
                (#[trigger] entries[i]).object,
            ) implies departed(entries, live).contains(entries[i].id) by {
            if i < front.len() {
                assert(front[i] == entries[i]);
                let k = choose|k: int| 0 <= k < gone.len() && gone[k] == entries[i].id;
                assert(departed(entries, live)[k] == entries[i].id);
            } else {
                assert(departed(entries, live)[gone.len() as int] == last.id);
            }
        }
        assert forall|k: int| 0 <= k < departed(entries, live).len() implies exists|i: int|
            0 <= i < entries.len() && (#[trigger] entries[i]).id == #[trigger] departed(
                entries,
                live,
            )[k] && !live.contains(entries[i].object) by {
            if k < gone.len() {
                let i = choose|i: int|
                    0 <= i < front.len() && (#[trigger] front[i]).id == gone[k] && !live.contains(
                        front[i].object,
                    );
                assert(entries[i] == front[i]);
            } else {
                assert(entries[entries.len() - 1] == last);
            }
        }
        assert forall|k: int| 0 <= k < living(entries, live).len() implies live.contains(
            (#[trigger] living(entries, live)[k]).object,
        ) && entries.contains(living(entries, live)[k]) by {
            if k < stay.len() {
                assert(living(entries, live)[k] == stay[k]);
                assert(front.contains(stay[k]));
                let i = choose|i: int| 0 <= i < front.len() && front[i] == stay[k];
                assert(entries[i] == stay[k]);
            } else {
                assert(entries[entries.len() - 1] == last);
            }
        }
    }
}

/// At the end of a pass the browser hears of exactly the surfaces that are gone,
/// each once, and the others are still known; the focus stays with its surface
/// for as long as that is there and no longer, and so does what was agreed about
/// decorations.
pub proof fn the_browser_hears_of_what_is_gone(
    state: WeblandView,
    entries: Seq<StreamedView>,
    next: u64,
    live: Seq<u32>,
    i: int,
    object: u32,
)
    requires
        distinct(entries, next),
        0 <= i < entries.len(),
    ensures
        farewells(entries, live).contains(
            ServerMessageView::SurfaceDestroyed { id: entries[i].id },
        ) <==> !live.contains(entries[i].object),
        living(entries, live).contains(entries[i]) <==> live.contains(entries[i].object),
        farewells(entries, live).len() + living(entries, live).len() == entries.len(),
        state.focus == Some(entries[i].id) ==> state.parted(entries, live).focus == (
        if live.contains(entries[i].object) {
            state.focus
        } else {
            None
        }),
        state.parted(entries, live).server_decorated.contains(object) <==> live.contains(object)
            && state.server_decorated.contains(object),
{
    living_or_departed(entries, live);
    let gone = departed(entries, live);
    let id = entries[i].id;
    if gone.contains(id) {
        let k = choose|k: int| 0 <= k < gone.len() && gone[k] == id;
        assert(farewells(entries, live)[k] == (ServerMessageView::SurfaceDestroyed { id }));
        let j = choose|j: int|
            0 <= j < entries.len() && (#[trigger] entries[j]).id == gone[k] && !live.contains(
                entries[j].object,
            );
        assert(entries[j].id == entries[i].id);
        assert(j == i);
    }
    if farewells(entries, live).contains(ServerMessageView::SurfaceDestroyed { id }) {
        let k = choose|k: int|
            0 <= k < farewells(entries, live).len() && farewells(entries, live)[k] == (
            ServerMessageView::SurfaceDestroyed { id });
        assert(gone[k] == id);
        assert(gone.contains(id));
    }
    if living(entries, live).contains(entries[i]) {
        let k = choose|k: int|
            0 <= k < living(entries, live).len() && living(entries, live)[k] == entries[i];
        assert(live.contains(living(entries, live)[k].object));
    }
    let stays = |object: u32| live.contains(object);
    let kept = state.server_decorated.filter(stays);
    if kept.contains(object) {
        let k = choose|k: int| 0 <= k < kept.len() && kept[k] == object;
        state.server_decorated.lemma_filter_pred(stays, k);
        filter_keeps_from(state.server_decorated, stays, k);
    }
    if live.contains(object) && state.server_decorated.contains(object) {
        let k = choose|k: int|
            0 <= k < state.server_decorated.len() && state.server_decorated[k] == object;
        state.server_decorated.lemma_filter_contains(stays, k);
    }
}

proof fn filter_keeps_from(list: Seq<u32>, stays: spec_fn(u32) -> bool, k: int)
    requires
        0 <= k < list.filter(stays).len(),
    ensures
        list.contains(list.filter(stays)[k]),
    decreases list.len(),
{
    reveal(Seq::filter);
    if list.len() > 0 {
        let front = list.drop_last();
        if k < front.filter(stays).len() {
            filter_keeps_from(front, stays, k);
            let i = choose|i: int| 0 <= i < front.len() && front[i] == front.filter(stays)[k];
            assert(list[i] == list.filter(stays)[k]);
        } else {
            assert(list[list.len() - 1] == list.filter(stays)[k]);
        }
    }
}

/// A window that appears takes the focus, under the id it is given; a popup does
/// not, and nor does a surface that is known already.
pub proof fn a_new_window_takes_the_focus(
    state: WeblandView,
    entries: Seq<StreamedView>,
    object: u32,
    anchor: Option<Anchor>,
    id: SurfaceId,
)
    ensures
        anchor is None && (forall|j: int|
            0 <= j < entries.len() ==> (#[trigger] entries[j]).object != object) ==> state.met(
            entries,
            object,
            anchor,
            id,
        ).focus == Some(id),
        anchor is Some || (exists|j: int|
            0 <= j < entries.len() && (#[trigger] entries[j]).object == object) ==> state.met(
            entries,
            object,
            anchor,
            id,
        ) == state,
{
    if exists|j: int| 0 <= j < entries.len() && (#[trigger] entries[j]).object == object {
        let j = choose|j: int| 0 <= j < entries.len() && (#[trigger] entries[j]).object == object;
        assert(holds_object(entries, object, j));
    }
}

} // verus!
