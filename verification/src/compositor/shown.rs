//! What a browser shows of a surface once it has heard everything that was said
//! of it, and done with the pixels what a canvas does.

use crate::browser::canvas::{drawing, painted, raw_pixels, swizzled, DrawingView};
use crate::compositor::damage::{
    a_cut_out_fills_its_region, blitted, cropped, cut_out, inside, no_damage_means_no_change,
};
use crate::compositor::pass::the_browser_keeps_up;
use crate::compositor::stream::{carries, lock_news, owes_a_frame, packed_stride, SeenView};
use crate::compositor::tracking::StreamedView;
use crate::geometry::{Rect, Size, SurfaceId};
use crate::protocol::deflate::decompressed;
use crate::protocol::messages::{Anchor, ServerMessageView, SurfaceFrameView};
use vstd::prelude::*;

verus! {

/// What a browser knows of one surface.
#[verifier::ext_equal]
pub struct Pane {
    pub size: Option<Size>,
    /// The window itself within the picture.
    pub content: Rect,
    pub parent: Option<Anchor>,
    /// Whether the shell draws a titlebar for it.
    pub decorated: bool,
    pub app_id: Option<Seq<char>>,
    pub title: Option<Seq<char>>,
    /// Whether the pointer is locked to it.
    pub locked: bool,
}

/// What a browser knows of a surface after one more message.
pub open spec fn hears(pane: Pane, id: SurfaceId, message: ServerMessageView) -> Pane {
    match message {
        ServerMessageView::SurfaceCreated(created) => if created.id == id {
            Pane {
                size: Some(created.size),
                content: created.content,
                parent: created.parent,
                decorated: created.decorated,
                ..pane
            }
        } else {
            pane
        },
        ServerMessageView::SurfaceAppId { id: named, app_id } => if named == id {
            Pane { app_id: Some(app_id), ..pane }
        } else {
            pane
        },
        ServerMessageView::SurfaceTitle { id: named, title } => if named == id {
            Pane { title: Some(title), ..pane }
        } else {
            pane
        },
        ServerMessageView::PointerConstraint { id: named, locked } => if named == id {
            Pane { locked, ..pane }
        } else {
            pane
        },
        _ => pane,
    }
}

/// What a browser knows of a surface after some messages.
pub open spec fn hears_all(pane: Pane, id: SurfaceId, messages: Seq<ServerMessageView>) -> Pane
    decreases messages.len(),
{
    if messages.len() == 0 {
        pane
    } else {
        hears(hears_all(pane, id, messages.drop_last()), id, messages.last())
    }
}

proof fn hears_splits(
    pane: Pane,
    id: SurfaceId,
    one: Seq<ServerMessageView>,
    other: Seq<ServerMessageView>,
)
    ensures
        hears_all(pane, id, one + other) == hears_all(hears_all(pane, id, one), id, other),
    decreases other.len(),
{
    if other.len() == 0 {
        assert(one + other =~= one);
    } else {
        hears_splits(pane, id, one, other.drop_last());
        assert((one + other).drop_last() =~= one + other.drop_last());
        assert((one + other).last() == other.last());
    }
}

/// Is a surface news to the browser: has one just joined, or did the surface
/// change size, or does it hang somewhere else?
pub open spec fn is_news(entry: StreamedView, seen: SeenView, keyframe: bool) -> bool {
    keyframe || entry.size != Some(seen.size) || entry.anchor != seen.anchor
}

proof fn announced_pane(
    entry: StreamedView,
    seen: SeenView,
    keyframe: bool,
    pane: Pane,
    id: SurfaceId,
)
    ensures
        hears_all(pane, id, entry.announcements(seen, keyframe)) == (if id != entry.id {
            pane
        } else {
            let news = is_news(entry, seen, keyframe);
            Pane {
                size: if news {
                    Some(seen.size)
                } else {
                    pane.size
                },
                content: if news {
                    seen.content
                } else {
                    pane.content
                },
                parent: if news {
                    seen.anchor
                } else {
                    pane.parent
                },
                decorated: if news {
                    !seen.decorates_itself
                } else {
                    pane.decorated
                },
                app_id: if seen.app_id is Some && (news || seen.app_id != entry.app_id) {
                    seen.app_id
                } else {
                    pane.app_id
                },
                title: if seen.title is Some && (news || seen.title != entry.title) {
                    seen.title
                } else {
                    pane.title
                },
                locked: pane.locked,
            }
        }),
{
    let all = entry.announcements(seen, keyframe);
    reveal_with_fuel(hears_all, 4);
    assert(all.len() <= 3);
}

/// A surface that is news is announced before anything else is said of it, and
/// a browser that listens then knows its width as its width, its height as its
/// height, where the window lies in the picture, what it hangs from, whether to
/// draw a titlebar, and whatever it calls itself. Of no other surface does it
/// learn anything.
pub proof fn an_announced_surface_is_known_as_it_is(
    entry: StreamedView,
    seen: SeenView,
    keyframe: bool,
    pane: Pane,
    other: SurfaceId,
)
    requires
        is_news(entry, seen, keyframe),
    ensures
        ({
            let messages = entry.announcements(seen, keyframe);
            let after = hears_all(pane, entry.id, messages);
            &&& messages.len() > 0 && messages[0] is SurfaceCreated
            &&& after.size matches Some(size)
            &&& size.width == seen.size.width && size.height == seen.size.height
            &&& after.content == seen.content
            &&& after.parent == seen.anchor
            &&& after.decorated != seen.decorates_itself
            &&& seen.app_id is Some ==> after.app_id == seen.app_id
            &&& seen.title is Some ==> after.title == seen.title
            &&& other != entry.id ==> hears_all(pane, other, messages) == pane
        }),
{
    announced_pane(entry, seen, keyframe, pane, entry.id);
    announced_pane(entry, seen, keyframe, pane, other);
}

/// Does a browser know what an entry says it was told?
pub open spec fn in_step(entry: StreamedView, pane: Pane) -> bool {
    &&& pane.size == entry.size
    &&& pane.parent == entry.anchor
    &&& entry.app_id is Some ==> pane.app_id == entry.app_id
    &&& entry.title is Some ==> pane.title == entry.title
    &&& pane.locked == entry.locked
}

/// What is remembered of a surface is what the browser was told of it, however
/// often it changes: a browser that was in step is in step again once it has
/// heard the announcements, and knows the size and the titles that were seen.
pub proof fn a_browser_stays_in_step(
    entry: StreamedView,
    seen: SeenView,
    keyframe: bool,
    pane: Pane,
)
    requires
        in_step(entry, pane),
    ensures
        ({
            let after = entry.after_announcements(seen, keyframe);
            let heard = hears_all(pane, entry.id, entry.announcements(seen, keyframe));
            &&& in_step(after, heard)
            &&& heard.size == Some(seen.size) && heard.parent == seen.anchor
            &&& seen.app_id is Some ==> heard.app_id == seen.app_id
            &&& seen.title is Some ==> heard.title == seen.title
            &&& after.commits == seen.commits
            &&& after.id == entry.id && after.object == entry.object && after.pixels
                == entry.pixels && after.clock == entry.clock
        }),
{
    announced_pane(entry, seen, keyframe, pane, entry.id);
}

/// A browser that has only just joined, and knows nothing, is in step once it
/// has heard what it asked for.
pub proof fn a_joining_browser_gets_in_step(entry: StreamedView, seen: SeenView, pane: Pane)
    requires
        pane.locked == entry.locked,
    ensures
        in_step(
            entry.after_announcements(seen, true),
            hears_all(pane, entry.id, entry.announcements(seen, true)),
        ),
        seen.commits.len() > 0 ==> !entry.is_current(seen.commits, true),
{
    announced_pane(entry, seen, true, pane, entry.id);
}

/// Nothing is said twice: a surface that looks as it did when it was last
/// announced is not announced again, and one that committed nothing since is
/// not even looked at.
pub proof fn nothing_is_said_twice(entry: StreamedView, seen: SeenView, keyframe: bool)
    ensures
        entry.after_announcements(seen, keyframe).announcements(seen, false).len() == 0,
        entry.after_announcements(seen, keyframe).is_current(seen.commits, false),
        !entry.is_current(seen.commits, false) ==> seen.commits.len() > 0 && entry.commits
            != seen.commits,
{
}

/// The encoder outlives everything but a resize: its dimensions are baked in.
pub proof fn only_a_resize_costs_the_encoder(
    entry: StreamedView,
    seen: SeenView,
    keyframe: bool,
)
    ensures
        entry.size == Some(seen.size) ==> entry.after_announcements(seen, keyframe).encoder
            == entry.encoder,
        entry.size != Some(seen.size) ==> entry.after_announcements(
            seen,
            keyframe,
        ).encoder is None,
{
}

/// A browser that is in step knows after every change whether the pointer is
/// locked, and is told only where that changed.
pub proof fn a_browser_knows_of_the_lock(entry: StreamedView, locked: bool, pane: Pane)
    requires
        pane.locked == entry.locked,
    ensures
        match lock_news(entry, locked) {
            Some(message) => hears(pane, entry.id, message).locked == locked && pane.locked
                != locked,
            None => pane.locked == locked,
        },
{
}

/// Which byte of a pixel the byte `k` of it is swapped with.
spec fn partner(k: int) -> int {
    if k == 0 {
        2
    } else if k == 2 {
        0
    } else {
        k
    }
}

proof fn swizzled_byte(bytes: Seq<u8>, p: int, k: int)
    requires
        bytes.len() % 4 == 0,
        0 <= p,
        p * 4 + k < bytes.len(),
        0 <= k < 4,
    ensures
        0 <= p * 4 + partner(k) < bytes.len(),
        swizzled(bytes)[p * 4 + k] == bytes[p * 4 + partner(k)],
{
    assert((p * 4 + k) % 4 == k);
}

/// Where the pixel `p` of a canvas lies in a region.
spec fn offset_in(width: int, region: Rect, p: int) -> Option<int> {
    let x = p % width - region.x;
    let y = p / width - region.y;
    if 0 <= x < region.width && 0 <= y < region.height {
        Some(y * region.width + x)
    } else {
        None
    }
}

proof fn blitted_byte(
    canvas: Seq<u8>,
    width: int,
    region: Rect,
    payload: Seq<u8>,
    p: int,
    k: int,
)
    requires
        0 <= p,
        p * 4 + k < canvas.len(),
        0 <= k < 4,
    ensures
        blitted(canvas, width, region, payload)[p * 4 + k] == (match offset_in(width, region, p) {
            Some(at) => payload[at * 4 + k],
            None => canvas[p * 4 + k],
        }),
{
    let i = p * 4 + k;
    assert(i / 4 == p);
    assert(i % 4 == k);
}

proof fn offset_fits(width: int, region: Rect, p: int)
    ensures
        offset_in(width, region, p) matches Some(at) ==> 0 <= at && at * 4 + 4 <= region.width
            * region.height * 4,
{
    if let Some(at) = offset_in(width, region, p) {
        let x = p % width - region.x;
        let y = p / width - region.y;
        assert(0 <= at && at + 1 <= region.width * region.height) by (nonlinear_arith)
            requires
                at == y * region.width + x,
                0 <= x < region.width,
                0 <= y < region.height,
        ;
    }
}

/// Swapping channels and putting a region in its place can be done in either
/// order.
proof fn swizzling_commutes_with_blitting(
    canvas: Seq<u8>,
    width: int,
    region: Rect,
    payload: Seq<u8>,
)
    requires
        canvas.len() % 4 == 0,
        payload.len() == region.width * region.height * 4,
    ensures
        blitted(swizzled(canvas), width, region, swizzled(payload)) == swizzled(
            blitted(canvas, width, region, payload),
        ),
{
    let left = blitted(swizzled(canvas), width, region, swizzled(payload));
    let plain = blitted(canvas, width, region, payload);
    let right = swizzled(plain);
    assert forall|i: int| 0 <= i < canvas.len() implies left[i] == right[i] by {
        let p = i / 4;
        let k = i % 4;
        swizzled_byte(plain, p, k);
        swizzled_byte(canvas, p, k);
        blitted_byte(swizzled(canvas), width, region, swizzled(payload), p, k);
        blitted_byte(canvas, width, region, payload, p, partner(k));
        offset_fits(width, region, p);
        if let Some(at) = offset_in(width, region, p) {
            swizzled_byte(payload, at, k);
        }
    }
    assert(left =~= right);
}

/// A browser shows what was captured. Let it size a canvas as the surface was
/// announced and paint the frames as they come: whatever was on the canvas where
/// the surface has just been announced, and otherwise over the picture held
/// before, the frame leaves exactly the picture it was made from, with red and
/// blue in the order a canvas wants them. And that picture is what is remembered
/// as held.
pub proof fn a_browser_shows_what_was_captured(
    entry: StreamedView,
    seen: SeenView,
    keyframe: bool,
    pane: Pane,
    picture: Seq<u8>,
    frame: SurfaceFrameView,
    shown: Seq<u8>,
    now: u64,
)
    requires
        in_step(entry, pane) || is_news(entry, seen, keyframe),
        picture.len() == seen.size.height * seen.size.width * 4,
        picture.len() > 0,
        seen.size.width * 4 <= i32::MAX,
        seen.size.height <= i32::MAX,
        shown.len() == picture.len(),
        carries(
            frame,
            entry.id,
            entry.pixels,
            picture,
            seen.size,
            is_news(entry, seen, keyframe),
        ),
        !is_news(entry, seen, keyframe) ==> shown == swizzled(entry.pixels),
    ensures
        ({
            let canvas = hears_all(pane, entry.id, entry.announcements(seen, keyframe)).size;
            &&& canvas matches Some(size)
            &&& shown.len() == size.width * size.height * 4
            &&& drawing(
                Some((size.width, size.height)),
                ServerMessageView::SurfaceFrame(frame),
                decompressed(frame.payload),
            ) matches DrawingView::Paint(part)
            &&& blitted(
                shown,
                size.width as int,
                Rect { x: part.x, y: part.y, width: part.width, height: part.height },
                part.pixels,
            ) == swizzled(picture)
            &&& entry.after_picture(picture, now).pixels == picture
        }),
{
    let news = is_news(entry, seen, keyframe);
    let size = seen.size;
    announced_pane(entry, seen, keyframe, pane, entry.id);
    let region = frame.damage[0];
    let payload = cropped(picture, 0, packed_stride(size) as int, region);
    assert(size.height * size.width * 4 == size.width * size.height * 4) by (nonlinear_arith);
    assert(size.width > 0 && size.height > 0) by (nonlinear_arith)
        requires
            size.height * size.width * 4 > 0,
            size.width >= 0,
            size.height >= 0,
    ;
    assert(packed_stride(size) == size.width * 4);
    assert(inside(region, size));
    assert(payload == cut_out(picture, size, region));
    a_cut_out_fills_its_region(picture, size, region);
    assert(raw_pixels(frame, decompressed(frame.payload)) == Some(payload));
    assert(payload.take(region.width * region.height * 4) =~= payload);
    let base = if news {
        swizzled(shown)
    } else {
        entry.pixels
    };
    assert(picture.len() % 4 == 0);
    assert(swizzled(base) =~= shown);
    the_browser_keeps_up(entry.pixels, picture, size, news, region, base);
    swizzling_commutes_with_blitting(base, size.width as int, region, payload);
    assert(painted(payload, frame.damage) is Some);
    assert(region == (Rect {
        x: region.x,
        y: region.y,
        width: region.width,
        height: region.height,
    }));
}

/// What is not sent need not be: where a surface is not news and no frame is
/// owed for a picture of it, that picture is the one the browser holds. And a
/// surface that was announced is always sent.
pub proof fn what_is_not_sent_is_held_already(
    held: Seq<u8>,
    picture: Seq<u8>,
    size: Size,
)
    requires
        picture.len() == size.height * size.width * 4,
        held.len() == picture.len(),
    ensures
        !owes_a_frame(held, picture, size, false) ==> held == picture,
        picture.len() > 0 ==> owes_a_frame(held, picture, size, true),
{
    if picture.len() == 0 {
        assert(held =~= picture);
    } else if !owes_a_frame(held, picture, size, false) {
        assert(size.width > 0) by (nonlinear_arith)
            requires
                size.height * size.width * 4 > 0,
                size.width >= 0,
                size.height >= 0,
        ;
        no_damage_means_no_change(held, picture, size);
    }
}

} // verus!
