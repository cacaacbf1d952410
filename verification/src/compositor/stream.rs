//! What goes to the browser for each surface, and in which order.
//!
//! Only pixels that actually changed go on the wire, so an idle surface costs
//! nothing at all. A browser joining mid-stream has nothing for a damage
//! rectangle to land on, so it asks for a keyframe and gets whole surfaces once.
//!
//! Capturing and encoding are outside work: each function here says what to do
//! next and takes the outcome back.

use crate::compositor::damage::{changed_region, crop, cropped, is_bounding_box, same_picture};
use crate::compositor::tracking::{Input, Streamed, StreamedView};
use crate::geometry::{Rect, Size, SurfaceId};
use crate::protocol::deflate::{compressed, decompressed, deflate, inflated};
use crate::protocol::messages::{
    Anchor, Codec, ServerMessage, ServerMessageView, SurfaceCreated, SurfaceFrame,
    SurfaceFrameView,
};
use vstd::prelude::*;

verus! {

/// What is known of a surface's picture once its commits have moved on.
pub struct Seen {
    /// One per surface in the tree.
    pub commits: Vec<u64>,
    pub size: Size,
    /// The window itself within the picture.
    pub content: Rect,
    /// Where a popup hangs.
    pub anchor: Option<Anchor>,
    /// Whether the client draws its own titlebar.
    pub decorates_itself: bool,
    pub app_id: Option<String>,
    pub title: Option<String>,
}

/// What a [`Seen`] says.
#[verifier::ext_equal]
pub struct SeenView {
    pub commits: Seq<u64>,
    pub size: Size,
    pub content: Rect,
    pub anchor: Option<Anchor>,
    pub decorates_itself: bool,
    pub app_id: Option<Seq<char>>,
    pub title: Option<Seq<char>>,
}

impl DeepView for Seen {
    type V = SeenView;

    open spec fn deep_view(&self) -> SeenView {
        SeenView {
            commits: self.commits@,
            size: self.size,
            content: self.content,
            anchor: self.anchor,
            decorates_itself: self.decorates_itself,
            app_id: self.app_id.deep_view(),
            title: self.title.deep_view(),
        }
    }
}

/// What the encoder made of a frame.
pub enum Encoded {
    /// A packet to send.
    Packet(Vec<u8>),
    /// The encoder has the frame and will emit it with the next one.
    Pending,
    /// The encoder could not take this frame.
    Failed,
}

/// The text a surface is announced with that the browser has not heard yet.
pub open spec fn news(told: Option<Seq<char>>, now: Option<Seq<char>>) -> bool {
    now is Some && told != now
}

impl StreamedView {
    /// Whether the browser already holds what the surface shows: nothing was
    /// committed, or nothing since, and nobody asked for everything.
    pub open spec fn is_current(self, commits: Seq<u64>, keyframe: bool) -> bool {
        commits.len() == 0 || (self.commits == commits && !keyframe)
    }

    /// Whether the surface has to be announced (again): a browser has just
    /// joined, or it changed size, or it hangs somewhere else.
    pub open spec fn announces(self, seen: SeenView, keyframe: bool) -> bool {
        keyframe || self.size != Some(seen.size) || self.anchor != seen.anchor
    }

    /// The title and application id the browser has heard, after the announcement.
    pub open spec fn heard(self, seen: SeenView, keyframe: bool, text: Option<Seq<char>>) -> Option<
        Seq<char>,
    > {
        if self.announces(seen, keyframe) {
            None
        } else {
            text
        }
    }

    /// What the browser is told before it gets pixels: the surface itself where
    /// it has to be announced, then its application and its title where they
    /// are news. Never a title before the surface it belongs to.
    pub open spec fn announcements(self, seen: SeenView, keyframe: bool) -> Seq<ServerMessageView> {
        let created = if self.announces(seen, keyframe) {
            seq![
                ServerMessageView::SurfaceCreated(
                    SurfaceCreated {
                        id: self.id,
                        size: seen.size,
                        content: seen.content,
                        parent: seen.anchor,
                        decorated: !seen.decorates_itself,
                    },
                ),
            ]
        } else {
            seq![]
        };
        let app_id = if news(self.heard(seen, keyframe, self.app_id), seen.app_id) {
            seq![ServerMessageView::SurfaceAppId { id: self.id, app_id: seen.app_id->0 }]
        } else {
            seq![]
        };
        let title = if news(self.heard(seen, keyframe, self.title), seen.title) {
            seq![ServerMessageView::SurfaceTitle { id: self.id, title: seen.title->0 }]
        } else {
            seq![]
        };
        created + app_id + title
    }

    /// The entry once those announcements are made. Only a resize costs the
    /// encoder: it bakes the dimensions in.
    pub open spec fn after_announcements(self, seen: SeenView, keyframe: bool) -> StreamedView {
        StreamedView {
            commits: seen.commits,
            anchor: seen.anchor,
            size: Some(seen.size),
            encoder: if self.size != Some(seen.size) {
                None
            } else {
                self.encoder
            },
            app_id: if seen.app_id is Some {
                seen.app_id
            } else {
                self.heard(seen, keyframe, self.app_id)
            },
            title: if seen.title is Some {
                seen.title
            } else {
                self.heard(seen, keyframe, self.title)
            },
            ..self
        }
    }
}

/// Whether two optional texts are the same.
fn same_text(one: &Option<String>, other: &Option<String>) -> (same: bool)
    ensures
        same == (one.deep_view() == other.deep_view()),
{
    match (one, other) {
        (None, None) => true,
        (Some(a), Some(b)) => *a == *b,
        _ => false,
    }
}

/// Whether two lists of commits are the same.
fn same_commits(one: &Vec<u64>, other: &Vec<u64>) -> (same: bool)
    ensures
        same == (one@ == other@),
{
    if one.len() != other.len() {
        return false;
    }
    let mut i: usize = 0;
    while i < one.len()
        invariant
            i <= one@.len(),
            one@.len() == other@.len(),
            forall|j: int| 0 <= j < i ==> one@[j] == other@[j],
        decreases one@.len() - i,
    {
        if one[i] != other[i] {
            return false;
        }
        i = i + 1;
    }
    assert(one@ =~= other@);
    true
}

/// A copy of an optional text.
fn copy_text(text: &Option<String>) -> (copy: Option<String>)
    ensures
        copy.deep_view() == text.deep_view(),
{
    match text {
        None => None,
        Some(inner) => Some(inner.clone()),
    }
}

/// What to do about a surface's pointer constraint, given whether the surface is
/// focused and whether there is a constraint and it is active: the focused
/// surface's is activated, everybody else's is not. `Some(true)` activates,
/// `Some(false)` deactivates.
pub fn constraint_change(focused: bool, active: Option<bool>) -> (change: Option<bool>)
    ensures
        change == (if active == Some(!focused) {
            Some(focused)
        } else {
            None
        }),
{
    match active {
        Some(is_active) => if is_active != focused {
            Some(focused)
        } else {
            None
        },
        None => None,
    }
}

/// Whose dimensions a frame goes by: the client's own GPU buffer where it
/// committed one, since those are known without reading it, else the captured
/// pixels, where there are any.
pub fn picture_size(dmabuf: Option<Size>, captured: Option<(Size, usize)>) -> (size: Option<Size>)
    ensures
        size == (match (dmabuf, captured) {
            (Some(planes), _) => Some(planes),
            (None, Some((size, length))) => if length > 0 {
                Some(size)
            } else {
                None
            },
            (None, None) => None,
        }),
{
    match dmabuf {
        Some(planes) => Some(planes),
        None => match captured {
            Some((size, length)) => if length > 0 {
                Some(size)
            } else {
                None
            },
            None => None,
        },
    }
}

impl Streamed {
    /// Note whether the pointer is locked to this surface, and say so where that
    /// is news.
    pub fn note_lock(&mut self, locked: bool) -> (message: Option<ServerMessage>)
        ensures
            final(self).deep_view() == (StreamedView { locked, ..old(self).deep_view() }),
            message.deep_view() == (if old(self).locked != locked {
                Some(ServerMessageView::PointerConstraint { id: old(self).id, locked })
            } else {
                None
            }),
            message.deep_view() == lock_news(old(self).deep_view(), locked),
    {
        if self.locked != locked {
            self.locked = locked;
            Some(ServerMessage::PointerConstraint { id: self.id, locked })
        } else {
            None
        }
    }

    /// Whether the browser already holds what the surface shows.
    pub fn is_current(&self, commits: &Vec<u64>, keyframe: bool) -> (current: bool)
        ensures
            current == self.deep_view().is_current(commits@, keyframe),
    {
        commits.len() == 0 || (same_commits(&self.commits, commits) && !keyframe)
    }

    /// Announce the surface as far as the browser needs it. Returns whether it
    /// was announced, and what to send.
    pub fn announce(&mut self, seen: Seen, keyframe: bool) -> (outcome: (bool, Vec<ServerMessage>))
        ensures
            outcome.0 == old(self).deep_view().announces(seen.deep_view(), keyframe),
            outcome.1.deep_view() == old(self).deep_view().announcements(
                seen.deep_view(),
                keyframe,
            ),
            final(self).deep_view() == old(self).deep_view().after_announcements(
                seen.deep_view(),
                keyframe,
            ),
    {
        let mut messages: Vec<ServerMessage> = Vec::new();
        let resized = self.size != Some(seen.size);
        let moved = self.anchor != seen.anchor;
        let announced = keyframe || resized || moved;
        self.commits = seen.commits;
        self.anchor = seen.anchor;
        self.size = Some(seen.size);
        if announced {
            messages.push(
                ServerMessage::SurfaceCreated(
                    SurfaceCreated {
                        id: self.id,
                        size: seen.size,
                        content: seen.content,
                        parent: seen.anchor,
                        decorated: !seen.decorates_itself,
                    },
                ),
            );
            // A browser that just arrived has heard nothing, whatever the last
            // one was told.
            self.title = None;
            self.app_id = None;
        }
        if resized {
            self.encoder = None;
        }
        if let Some(app_id) = seen.app_id {
            let wanted = Some(app_id);
            if !same_text(&self.app_id, &wanted) {
                self.app_id = copy_text(&wanted);
                if let Some(app_id) = wanted {
                    messages.push(ServerMessage::SurfaceAppId { id: self.id, app_id });
                }
            }
        }
        if let Some(title) = seen.title {
            let wanted = Some(title);
            if !same_text(&self.title, &wanted) {
                self.title = copy_text(&wanted);
                if let Some(title) = wanted {
                    messages.push(ServerMessage::SurfaceTitle { id: self.id, title });
                }
            }
        }
        assert(messages.deep_view() =~= old(self).deep_view().announcements(
            seen.deep_view(),
            keyframe,
        ));
        assert(self.deep_view() =~= old(self).deep_view().after_announcements(
            seen.deep_view(),
            keyframe,
        ));
        (announced, messages)
    }
}

/// What the streaming of one surface does next.
pub enum Step {
    /// Nothing more for this pass.
    Done,
    /// Send this.
    Send(ServerMessage),
    /// Read the surface's pixels back, and deflate what changed.
    ReadBack,
}

/// The stride of a packed picture, as the signed count that [`crop`] takes.
pub open spec fn packed_stride(size: Size) -> i32 {
    (size.width * 4) as i32
}

/// The whole of a picture.
pub open spec fn whole(size: Size) -> Rect {
    Rect { x: 0, y: 0, width: size.width, height: size.height }
}

/// Whether `region` is what has to be sent for a picture: all of it where the
/// surface was announced, else the box round what differs from what the browser
/// holds.
pub open spec fn is_damage(
    held: Seq<u8>,
    pixels: Seq<u8>,
    size: Size,
    announced: bool,
    region: Rect,
) -> bool {
    if announced {
        region == whole(size)
    } else {
        &&& held.len() == pixels.len()
        &&& is_bounding_box(
            held,
            pixels,
            size.width as int,
            size.height as int,
            region.x as u32 as int,
            region.y as u32 as int,
            region.x as u32 + region.width,
            region.y as u32 + region.height,
        )
        &&& size.width <= i32::MAX ==> region.x >= 0 && region.x as u32 == region.x
        &&& size.height <= i32::MAX ==> region.y >= 0 && region.y as u32 == region.y
    }
}

/// Whether a frame carries a picture to a browser that holds another: it is of
/// this surface, and what its payload inflates to are the pixels of the one
/// region that has to be sent.
pub open spec fn carries(
    frame: SurfaceFrameView,
    id: SurfaceId,
    held: Seq<u8>,
    picture: Seq<u8>,
    size: Size,
    announced: bool,
) -> bool {
    &&& frame.id == id
    &&& frame.codec == Codec::Deflate
    &&& frame.damage.len() == 1
    &&& is_damage(held, picture, size, announced, frame.damage[0])
    &&& inflated(decompressed(frame.payload)) == Ok::<Seq<u8>, Seq<char>>(
        cropped(picture, 0, packed_stride(size) as int, frame.damage[0]),
    )
}

/// Whether a picture that was read back has to be sent: there are pixels in it,
/// and either the surface was announced or something in it differs from the
/// picture of that length which the browser holds.
pub open spec fn owes_a_frame(
    held: Seq<u8>,
    picture: Seq<u8>,
    size: Size,
    announced: bool,
) -> bool {
    picture.len() > 0 && (announced || (held.len() == picture.len() && size.width > 0
        && !same_picture(held, picture, size.width as int, size.height as int)))
}

/// What the browser is told where the pointer was locked to a surface or freed.
pub open spec fn lock_news(entry: StreamedView, locked: bool) -> Option<ServerMessageView> {
    if entry.locked != locked {
        Some(ServerMessageView::PointerConstraint { id: entry.id, locked })
    } else {
        None
    }
}

impl StreamedView {
    /// The entry once it is known which kind of encoder is wanted: a client that
    /// switches buffer kinds needs a different encoder entirely.
    pub open spec fn after_plan(self, wanted: Input) -> StreamedView {
        StreamedView {
            encoder: if self.encoder == Some(wanted) {
                self.encoder
            } else {
                None
            },
            ..self
        }
    }

    /// The entry once a frame has been sent at `now`.
    pub open spec fn after_frame(self, now: u64) -> StreamedView {
        StreamedView { clock: self.clock.after_send(now), ..self }
    }

    /// The frame that a packet of the encoder's is sent as.
    pub open spec fn packet(self, payload: Seq<u8>) -> ServerMessageView {
        ServerMessageView::SurfaceFrame(
            SurfaceFrameView { id: self.id, codec: Codec::H264, damage: seq![], payload },
        )
    }

    /// The entry once a picture has been sent at `now`, which is then what the
    /// browser holds.
    pub open spec fn after_picture(self, picture: Seq<u8>, now: u64) -> StreamedView {
        StreamedView { pixels: picture, ..self.after_frame(now) }
    }
}

impl Streamed {
    /// Which kind of encoder this frame needs, and whether one has to be built.
    pub fn plan_encoder(&mut self, dmabuf: bool) -> (plan: (Input, bool))
        ensures
            plan.0 == (if dmabuf {
                Input::Dmabuf
            } else {
                Input::Cpu
            }),
            plan.1 == (old(self).encoder != Some(plan.0)),
            final(self).deep_view() == old(self).deep_view().after_plan(plan.0),
    {
        let wanted = if dmabuf {
            Input::Dmabuf
        } else {
            Input::Cpu
        };
        let build = self.encoder != Some(wanted);
        if build {
            self.encoder = None;
        }
        (wanted, build)
    }

    /// An encoder of this kind was built.
    pub fn encoder_built(&mut self, input: Input)
        ensures
            final(self).deep_view() == (StreamedView {
                encoder: Some(input),
                ..old(self).deep_view()
            }),
    {
        self.encoder = Some(input);
    }

    /// What to do with the encoder's outcome; `None` where there is no encoder.
    ///
    /// A packet is sent, with no damage: the encoder decides for itself what
    /// changed. A pending frame is not sent by another codec, which would
    /// duplicate it and leave the video stream missing what it already consumed.
    pub fn settle_encoded(&mut self, encoded: Option<Encoded>, now: u64) -> (step: Step)
        ensures
            match encoded {
                Some(Encoded::Packet(payload)) => {
                    &&& step matches Step::Send(message)
                    &&& message.deep_view() == old(self).deep_view().packet(payload@)
                    &&& message.deep_view() == ServerMessageView::SurfaceFrame(
                        SurfaceFrameView {
                            id: old(self).id,
                            codec: Codec::H264,
                            damage: seq![],
                            payload: payload@,
                        },
                    )
                    &&& final(self).deep_view() == old(self).deep_view().after_frame(now)
                },
                Some(Encoded::Pending) => step is Done && final(self).deep_view() == old(
                    self,
                ).deep_view(),
                _ => step is ReadBack && final(self).deep_view() == old(self).deep_view(),
            },
    {
        match encoded {
            Some(Encoded::Packet(payload)) => {
                self.clock.on_send(now);
                let message = ServerMessage::SurfaceFrame(
                    SurfaceFrame { id: self.id, codec: Codec::H264, damage: Vec::new(), payload },
                );
                assert(message.deep_view()->SurfaceFrame_0.damage =~= seq![]);
                Step::Send(message)
            },
            Some(Encoded::Pending) => Step::Done,
            Some(Encoded::Failed) => Step::ReadBack,
            None => Step::ReadBack,
        }
    }

    /// Deflate what changed of a picture that was read back.
    ///
    /// Nothing was read, or the pixels are identical: nothing to send. Nor where
    /// the picture held has another length, as it has when the frames so far went
    /// out as video: there is nothing to compare with, and the surface waits for
    /// the next frame that is announced, which goes out whole. Otherwise the
    /// damaged region goes out and the picture is remembered as what the browser
    /// holds.
    pub fn damage_frame(
        &mut self,
        pixels: Option<Vec<u8>>,
        size: Size,
        announced: bool,
        now: u64,
    ) -> (message: Option<ServerMessage>)
        requires
            size.width * 4 <= u32::MAX,
            !announced ==> size.height <= i32::MAX,
            !announced && size.width > 0 ==> match pixels {
                Some(p) => p@.len() == old(self).pixels@.len() ==> size.height * size.width * 4
                    <= p@.len(),
                None => true,
            },
        ensures
            match pixels {
                None => message is None && final(self).deep_view() == old(self).deep_view(),
                Some(picture) => {
                    if picture@.len() == 0 || (!announced && (old(self).pixels@.len()
                        != picture@.len() || size.width == 0 || same_picture(
                        old(self).pixels@,
                        picture@,
                        size.width as int,
                        size.height as int,
                    ))) {
                        message is None && final(self).deep_view() == old(self).deep_view()
                    } else {
                        &&& message matches Some(ServerMessage::SurfaceFrame(frame))
                        &&& frame.id == old(self).id
                        &&& frame.codec == Codec::Deflate
                        &&& frame.damage@.len() == 1
                        &&& is_damage(
                            old(self).pixels@,
                            picture@,
                            size,
                            announced,
                            frame.damage@[0],
                        )
                        &&& frame.payload@ == compressed(
                            cropped(
                                picture@,
                                0,
                                packed_stride(size) as int,
                                frame.damage@[0],
                            ),
                            1,
                        )
                        &&& final(self).deep_view() == (StreamedView {
                            pixels: picture@,
                            ..old(self).deep_view().after_frame(now)
                        })
                    }
                },
            },
            message is Some <==> pixels is Some && owes_a_frame(
                old(self).pixels@,
                pixels->0@,
                size,
                announced,
            ),
            final(self).deep_view() == (if message is Some {
                old(self).deep_view().after_picture(pixels->0@, now)
            } else {
                old(self).deep_view()
            }),
            message.deep_view() matches Some(sent) ==> sent matches ServerMessageView::SurfaceFrame(
                frame,
            ) && carries(
                frame,
                old(self).id,
                old(self).pixels@,
                pixels->0@,
                size,
                announced,
            ),
    {
        let picture = match pixels {
            None => {
                return None;
            },
            Some(picture) => picture,
        };
        if picture.len() == 0 {
            return None;
        }
        let region: Rect = if announced {
            Rect { x: 0, y: 0, width: size.width, height: size.height }
        } else {
            match changed_region(self.pixels.as_slice(), picture.as_slice(), size) {
                Some(region) => region,
                None => {
                    return None;
                },
            }
        };
        let row_bytes: u32 = size.width * 4;
        let stride: i32 = row_bytes as i32;
        let payload = crop(picture.as_slice(), 0, stride, region);
        self.pixels = picture;
        self.clock.on_send(now);
        Some(
            ServerMessage::SurfaceFrame(
                SurfaceFrame {
                    id: self.id,
                    codec: Codec::Deflate,
                    damage: vec![region],
                    payload: deflate(payload.as_slice()),
                },
            ),
        )
    }
}

/// The focused surface's constraint is active and everybody else's is not: what
/// is asked for puts it there, and where it is there already nothing is asked.
pub proof fn only_the_focused_constraint_is_active(
    focused: bool,
    active: Option<bool>,
    change: Option<bool>,
)
    requires
        call_ensures(constraint_change, (focused, active), change),
    ensures
        active is None ==> change is None,
        active matches Some(on) ==> (match change {
            Some(to) => to == focused && on != focused,
            None => on == focused,
        }),
{
}

/// A frame goes by the client's own buffer where there is one, and otherwise by
/// what was captured, where that is anything.
pub proof fn a_frame_goes_by_what_there_is(
    dmabuf: Option<Size>,
    captured: Option<(Size, usize)>,
    size: Option<Size>,
)
    requires
        call_ensures(picture_size, (dmabuf, captured), size),
    ensures
        dmabuf is Some ==> size == dmabuf,
        dmabuf is None && captured is Some && (captured->0).1 > 0 ==> size == Some((captured->0).0),
        dmabuf is None && (captured is None || (captured->0).1 == 0) ==> size is None,
{
}

/// The encoder that is kept is the kind that is wanted: one of the other kind is
/// given up, and then one has to be built.
pub proof fn an_encoder_is_kept_for_its_kind(entry: StreamedView, wanted: Input)
    ensures
        entry.encoder == Some(wanted) ==> entry.after_plan(wanted) == entry,
        entry.encoder != Some(wanted) ==> entry.after_plan(wanted).encoder is None,
        entry.after_plan(wanted).size == entry.size && entry.after_plan(wanted).pixels
            == entry.pixels,
{
}

/// A packet goes out as it left the encoder, as video of its own surface and with
/// no region: the encoder knows what changed. Nothing is remembered of it but
/// when it went.
pub proof fn a_packet_goes_out_as_it_is(entry: StreamedView, payload: Seq<u8>, now: u64)
    ensures
        entry.packet(payload) matches ServerMessageView::SurfaceFrame(frame) && frame.id == entry.id
            && frame.codec == Codec::H264 && frame.damage.len() == 0 && frame.payload == payload,
        entry.after_frame(now).pixels == entry.pixels,
        entry.after_frame(now).clock.sent.last() == now,
{
}

} // verus!
