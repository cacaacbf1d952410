//! What a surface's canvas shows: when it is resized, and which pixels go where.

use crate::geometry::Rect;
use crate::protocol::deflate::{decompressed, inflate, inflated};
use crate::protocol::messages::{
    Codec, ServerMessage, ServerMessageView, SurfaceFrame, SurfaceFrameView,
};
use vstd::prelude::*;

verus! {

/// Pixels to put on a canvas, tightly packed, four bytes each.
#[derive(Debug)]
pub struct Picture {
    pub x: i32,
    pub y: i32,
    pub width: u32,
    pub height: u32,
    pub pixels: Vec<u8>,
}

/// What a [`Picture`] shows.
#[verifier::ext_equal]
pub struct PictureView {
    pub x: i32,
    pub y: i32,
    pub width: u32,
    pub height: u32,
    pub pixels: Seq<u8>,
}

impl DeepView for Picture {
    type V = PictureView;

    open spec fn deep_view(&self) -> PictureView {
        PictureView {
            x: self.x,
            y: self.y,
            width: self.width,
            height: self.height,
            pixels: self.pixels@,
        }
    }
}

/// The raw pixels of a frame, as far as they can be had without a video
/// decoder, given what the decompressor makes of its payload.
pub open spec fn raw_pixels(
    frame: SurfaceFrameView,
    outcome: Result<Seq<u8>, Seq<char>>,
) -> Option<Seq<u8>> {
    match frame.codec {
        Codec::Raw => Some(frame.payload),
        Codec::Deflate => match inflated(outcome) {
            Ok(bytes) => Some(bytes),
            Err(_) => None,
        },
        Codec::H264 => None,
    }
}

/// The raw pixels of a frame. H.264 belongs to the video decoder, not here.
pub fn pixels_of(frame: &SurfaceFrame) -> (pixels: Option<Vec<u8>>)
    ensures
        pixels.deep_view() == raw_pixels(frame.deep_view(), decompressed(frame.payload@)),
{
    match frame.codec {
        Codec::Raw => {
            let copy = frame.payload.clone();
            assert(copy@ =~= frame.payload@);
            assert(copy.deep_view() =~= copy@);
            Some(copy)
        },
        Codec::Deflate => match inflate(frame.payload.as_slice()) {
            Ok(bytes) => {
                assert(bytes.deep_view() =~= bytes@);
                Some(bytes)
            },
            Err(_) => None,
        },
        Codec::H264 => None,
    }
}

/// The region that a frame's pixels fill: frames carry only what changed, and
/// name it first. Nothing, where it is empty or the pixels do not fill it.
pub open spec fn filled(pixels: Seq<u8>, damage: Seq<Rect>) -> Option<Rect> {
    if damage.len() == 0 {
        None
    } else {
        let region = damage[0];
        if region.width == 0 || region.height == 0 || pixels.len() < region.width * region.height
            * 4 {
            None
        } else {
            Some(region)
        }
    }
}

/// BGRA bytes as RGBA.
pub open spec fn swizzled(bytes: Seq<u8>) -> Seq<u8> {
    Seq::new(
        bytes.len(),
        |i: int|
            if i % 4 == 0 {
                bytes[i + 2]
            } else if i % 4 == 2 {
                bytes[i - 2]
            } else {
                bytes[i]
            },
    )
}

/// What a frame's pixels put on a canvas.
pub open spec fn painted(pixels: Seq<u8>, damage: Seq<Rect>) -> Option<PictureView> {
    match filled(pixels, damage) {
        Some(region) => Some(
            PictureView {
                x: region.x,
                y: region.y,
                width: region.width,
                height: region.height,
                pixels: swizzled(pixels.take(region.width * region.height * 4)),
            },
        ),
        None => None,
    }
}

proof fn pixel_count_is_bounded(region: Rect)
    ensures
        0 <= region.width * region.height * 4 <= 4 * 0xffff_ffff * 0xffff_ffff,
{
    assert(0 <= region.width * region.height * 4 <= 4 * 0xffff_ffff * 0xffff_ffff)
        by (nonlinear_arith)
        requires
            0 <= region.width <= 0xffff_ffff,
            0 <= region.height <= 0xffff_ffff,
    ;
}

/// How many bytes a frame's region takes, where its pixels fill it.
fn filled_length(pixels: &Vec<u8>, damage: &Vec<Rect>) -> (found: Option<(Rect, usize)>)
    ensures
        match found {
            Some((region, length)) => filled(pixels@, damage@) == Some(region) && length
                == region.width * region.height * 4 && length <= pixels@.len(),
            None => filled(pixels@, damage@) is None,
        },
{
    if damage.len() == 0 {
        return None;
    }
    let region = damage[0];
    if region.width == 0 || region.height == 0 {
        return None;
    }
    proof {
        pixel_count_is_bounded(region);
        assert(region.width * region.height <= 0xffff_ffff * 0xffff_ffff) by (nonlinear_arith)
            requires
                0 <= region.width <= 0xffff_ffff,
                0 <= region.height <= 0xffff_ffff,
        ;
    }
    let expected: u128 = region.width as u128 * region.height as u128 * 4;
    if (pixels.len() as u128) < expected {
        return None;
    }
    Some((region, expected as usize))
}

/// What a frame's pixels put on a canvas: the changed region, as RGBA. The
/// canvas keeps the rest.
pub fn paint(pixels: Vec<u8>, damage: &Vec<Rect>) -> (picture: Option<Picture>)
    ensures
        picture.deep_view() == painted(pixels@, damage@),
{
    match filled_length(&pixels, damage) {
        None => None,
        Some((region, length)) => {
            let ghost cut = pixels@.take(length as int);
            let mut rgba: Vec<u8> = Vec::new();
            let mut i: usize = 0;
            assert(length % 4 == 0) by {
                assert((region.width * region.height * 4) % 4 == 0) by (nonlinear_arith);
            }
            while i < length
                invariant
                    i <= length <= pixels@.len(),
                    i % 4 == 0,
                    length % 4 == 0,
                    cut == pixels@.take(length as int),
                    rgba@ =~= swizzled(cut).take(i as int),
                decreases length - i,
            {
                rgba.push(pixels[i + 2]);
                rgba.push(pixels[i + 1]);
                rgba.push(pixels[i]);
                rgba.push(pixels[i + 3]);
                i += 4;
            }
            assert(rgba@ =~= swizzled(cut));
            Some(
                Picture {
                    x: region.x,
                    y: region.y,
                    width: region.width,
                    height: region.height,
                    pixels: rgba,
                },
            )
        },
    }
}

/// What a canvas is to do about a message.
#[derive(Debug)]
pub enum Drawing {
    Nothing,
    /// Take this size, which clears it.
    Resize(u32, u32),
    Paint(Picture),
}

/// What a [`Drawing`] says.
#[verifier::ext_equal]
pub enum DrawingView {
    Nothing,
    Resize(u32, u32),
    Paint(PictureView),
}

impl View for Drawing {
    type V = DrawingView;

    open spec fn view(&self) -> DrawingView {
        match self {
            Drawing::Nothing => DrawingView::Nothing,
            Drawing::Resize(width, height) => DrawingView::Resize(*width, *height),
            Drawing::Paint(picture) => DrawingView::Paint(picture.deep_view()),
        }
    }
}

/// Renders one surface's frames into a canvas.
#[derive(Debug)]
pub struct SurfaceRenderer {
    /// The size the canvas was last given.
    pub size: Option<(u32, u32)>,
}

/// What a canvas of a size does about a message, given what the decompressor
/// makes of a frame's payload.
pub open spec fn drawing(
    size: Option<(u32, u32)>,
    message: ServerMessageView,
    outcome: Result<Seq<u8>, Seq<char>>,
) -> DrawingView {
    match message {
        ServerMessageView::SurfaceCreated(created) => if size == Some(
            (created.size.width, created.size.height),
        ) {
            DrawingView::Nothing
        } else {
            DrawingView::Resize(created.size.width, created.size.height)
        },
        ServerMessageView::SurfaceFrame(frame) => match raw_pixels(frame, outcome) {
            Some(pixels) => match painted(pixels, frame.damage) {
                Some(picture) => DrawingView::Paint(picture),
                None => DrawingView::Nothing,
            },
            None => DrawingView::Nothing,
        },
        _ => DrawingView::Nothing,
    }
}

/// The payload of a message that carries one.
pub open spec fn payload_of(message: ServerMessageView) -> Seq<u8> {
    match message {
        ServerMessageView::SurfaceFrame(frame) => frame.payload,
        _ => Seq::empty(),
    }
}

impl SurfaceRenderer {
    /// A canvas that has no size of its own yet.
    pub fn new() -> (renderer: Self)
        ensures
            renderer.size is None,
    {
        SurfaceRenderer { size: None }
    }

    /// Apply a server message: resize when a surface is announced, draw when a
    /// frame arrives. The scene owns surface lifetime and chrome; a renderer only
    /// draws.
    ///
    /// Only resized when the size actually changes: setting a canvas's size
    /// clears it, which would flicker on every re-announce.
    pub fn handle(&mut self, message: &ServerMessage) -> (act: Drawing)
        ensures
            act@ == drawing(
                old(self).size,
                message.deep_view(),
                decompressed(payload_of(message.deep_view())),
            ),
            final(self).size == (match message {
                ServerMessage::SurfaceCreated(created) => Some(
                    (created.size.width, created.size.height),
                ),
                _ => old(self).size,
            }),
    {
        match message {
            ServerMessage::SurfaceCreated(created) => {
                let same = match self.size {
                    Some((width, height)) => width == created.size.width && height
                        == created.size.height,
                    None => false,
                };
                if same {
                    return Drawing::Nothing;
                }
                self.size = Some((created.size.width, created.size.height));
                Drawing::Resize(created.size.width, created.size.height)
            },
            ServerMessage::SurfaceFrame(frame) => {
                assert(frame.damage.deep_view() =~= frame.damage@);
                match pixels_of(frame) {
                    Some(pixels) => {
                        assert(pixels.deep_view() =~= pixels@);
                        match paint(pixels, &frame.damage) {
                            Some(picture) => Drawing::Paint(picture),
                            None => Drawing::Nothing,
                        }
                    },
                    None => Drawing::Nothing,
                }
            },
            _ => Drawing::Nothing,
        }
    }
}

/// A texture that a surface's pixels are uploaded into.
#[derive(Debug, Clone, Copy, PartialEq, Eq, Structural)]
pub struct Target {
    pub width: u32,
    pub height: u32,
}

/// Does a surface announced at this size need a new texture?
pub fn needs_target(target: Option<Target>, width: u32, height: u32) -> (fresh: bool)
    ensures
        fresh == (width != 0 && height != 0 && target != Some(Target { width, height })),
{
    if width == 0 || height == 0 {
        return false;
    }
    match target {
        Some(held) => held.width != width || held.height != height,
        None => true,
    }
}

/// What is uploaded into a texture: the changed region, where it lies inside.
pub open spec fn uploaded(target: Target, pixels: Seq<u8>, damage: Seq<Rect>) -> Option<
    PictureView,
> {
    match filled(pixels, damage) {
        Some(region) => if region.x < 0 || region.y < 0 || region.x + region.width > target.width
            || region.y + region.height > target.height {
            None
        } else {
            Some(
                PictureView {
                    x: region.x,
                    y: region.y,
                    width: region.width,
                    height: region.height,
                    pixels: pixels.take(region.width * region.height * 4),
                },
            )
        },
        None => None,
    }
}

/// What a frame's pixels upload into a texture. The bytes go in as they are: the
/// texture has their order. The texture holds the rest of the surface.
pub fn upload(target: Target, pixels: Vec<u8>, damage: &Vec<Rect>) -> (picture: Option<Picture>)
    ensures
        picture.deep_view() == uploaded(target, pixels@, damage@),
{
    match filled_length(&pixels, damage) {
        None => None,
        Some((region, length)) => {
            if region.x < 0 || region.y < 0 || region.x as u64 + region.width as u64
                > target.width as u64 || region.y as u64 + region.height as u64
                > target.height as u64 {
                return None;
            }
            let ghost given = pixels@;
            let mut bytes = pixels;
            bytes.truncate(length);
            assert(bytes@ =~= given.take(length as int));
            Some(
                Picture {
                    x: region.x,
                    y: region.y,
                    width: region.width,
                    height: region.height,
                    pixels: bytes,
                },
            )
        },
    }
}

/// How much of a decoded frame is copied: no more than the texture holds, and
/// nothing where there is nothing.
pub fn video_extent(target: Target, width: u32, height: u32) -> (extent: Option<(u32, u32)>)
    ensures
        ({
            let w = if width < target.width {
                width
            } else {
                target.width
            };
            let h = if height < target.height {
                height
            } else {
                target.height
            };
            extent == (if w == 0 || h == 0 {
                None
            } else {
                Some((w, h))
            })
        }),
{
    let w: u32 = if width < target.width {
        width
    } else {
        target.width
    };
    let h: u32 = if height < target.height {
        height
    } else {
        target.height
    };
    if w == 0 || h == 0 {
        None
    } else {
        Some((w, h))
    }
}

/// A surface announced again at the size it has leaves its canvas alone.
pub proof fn announcing_twice_does_not_clear(
    message: ServerMessageView,
    outcome: Result<Seq<u8>, Seq<char>>,
)
    requires
        message is SurfaceCreated,
    ensures
        ({
            let size = message->SurfaceCreated_0.size;
            drawing(Some((size.width, size.height)), message, outcome) == DrawingView::Nothing
        }),
{
}

/// A canvas never paints more pixels than its region holds, nor fewer.
pub proof fn a_picture_fills_its_region(pixels: Seq<u8>, damage: Seq<Rect>)
    ensures
        painted(pixels, damage) matches Some(picture) ==> picture.pixels.len() == picture.width
            * picture.height * 4 && picture.width > 0 && picture.height > 0,
{
    if let Some(region) = filled(pixels, damage) {
        pixel_count_is_bounded(region);
    }
}

/// Swapping the outer channels twice gives the bytes back.
pub proof fn swizzling_twice_changes_nothing(bytes: Seq<u8>)
    requires
        bytes.len() % 4 == 0,
    ensures
        swizzled(swizzled(bytes)) == bytes,
{
    assert(swizzled(swizzled(bytes)) =~= bytes);
}

/// A pixel keeps its place and its colours: what came as blue, green, red and
/// alpha is painted as red, green, blue and alpha.
pub proof fn a_pixel_is_painted_in_its_own_colours(bytes: Seq<u8>, p: int)
    requires
        0 <= p,
        p * 4 + 4 <= bytes.len(),
    ensures
        ({
            let (blue, green, red, alpha) = (
                bytes[p * 4],
                bytes[p * 4 + 1],
                bytes[p * 4 + 2],
                bytes[p * 4 + 3],
            );
            let rgba = swizzled(bytes);
            &&& rgba.len() == bytes.len()
            &&& rgba[p * 4] == red && rgba[p * 4 + 1] == green && rgba[p * 4 + 2] == blue && rgba[p
                * 4 + 3] == alpha
        }),
{
}

/// A frame's pixels land where its region says: as wide, as high and at the same
/// corner, and only where there are enough of them. The same region of a texture
/// takes them as they came, unless it does not lie inside.
pub proof fn pixels_land_on_their_region(
    target: Target,
    pixels: Seq<u8>,
    damage: Seq<Rect>,
)
    requires
        damage.len() > 0,
    ensures
        ({
            let region = damage[0];
            let enough = region.width > 0 && region.height > 0 && pixels.len() >= region.width
                * region.height * 4;
            let fits = 0 <= region.x && 0 <= region.y && region.x + region.width <= target.width
                && region.y + region.height <= target.height;
            &&& painted(pixels, damage) is Some <==> enough
            &&& painted(pixels, damage) matches Some(picture) ==> picture.x == region.x && picture.y
                == region.y && picture.width == region.width && picture.height == region.height
            &&& uploaded(target, pixels, damage) is Some <==> enough && fits
            &&& uploaded(target, pixels, damage) matches Some(picture) ==> picture.x == region.x
                && picture.y == region.y && picture.width == region.width && picture.height
                == region.height && picture.pixels.is_prefix_of(pixels)
        }),
{
    pixel_count_is_bounded(damage[0]);
    if let Some(picture) = uploaded(target, pixels, damage) {
        let n = damage[0].width * damage[0].height * 4;
        assert(pixels.take(n) =~= pixels.subrange(0, n));
    }
}

/// A canvas takes the size of the surface it is for, width for width and height
/// for height, and what is no announcement never changes its size.
pub proof fn a_canvas_takes_its_surfaces_size(
    size: Option<(u32, u32)>,
    message: ServerMessageView,
    outcome: Result<Seq<u8>, Seq<char>>,
)
    ensures
        message matches ServerMessageView::SurfaceCreated(created) ==> (if size == Some(
            (created.size.width, created.size.height),
        ) {
            drawing(size, message, outcome) is Nothing
        } else {
            drawing(size, message, outcome) == DrawingView::Resize(
                created.size.width,
                created.size.height,
            )
        }),
        message !is SurfaceCreated ==> !(drawing(size, message, outcome) is Resize),
        message !is SurfaceFrame ==> !(drawing(size, message, outcome) is Paint),
        message matches ServerMessageView::SurfaceFrame(frame) ==> (frame.codec == Codec::H264
            ==> drawing(size, message, outcome) is Nothing),
{
}

/// Pixels are drawn the same however they travelled: a frame that carries them as
/// they are and one that carries them made smaller paint one picture. Video is not
/// drawn here, nor what cannot be made whole again.
pub proof fn pixels_are_drawn_however_they_travelled(
    size: Option<(u32, u32)>,
    frame: SurfaceFrameView,
    packed: SurfaceFrameView,
    pixels: Seq<u8>,
    ignored: Result<Seq<u8>, Seq<char>>,
    reason: Seq<char>,
)
    requires
        frame.codec == Codec::Raw,
        frame.payload == pixels,
        packed.codec == Codec::Deflate,
        packed.damage == frame.damage,
    ensures
        raw_pixels(frame, ignored) == Some(pixels),
        raw_pixels(packed, Ok(pixels)) == Some(pixels),
        raw_pixels(packed, Err(reason)) is None,
        raw_pixels(SurfaceFrameView { codec: Codec::H264, ..packed }, ignored) is None,
        drawing(size, ServerMessageView::SurfaceFrame(packed), Ok(pixels)) == drawing(
            size,
            ServerMessageView::SurfaceFrame(frame),
            ignored,
        ),
{
}

} // verus!
