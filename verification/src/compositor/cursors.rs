//! The host's cursor theme, made ready for the browser to draw with.
//!
//! While a client holds the pointer, the page has it locked and the shell draws
//! a cursor of its own. Its pictures are the host theme's, read off disk by the
//! caller and turned here into what a canvas wants.

use crate::text::{a_written_number_is_read_back, decimal, parse_unsigned, unsigned};
use vstd::prelude::*;

verus! {

/// How many shapes the shell can put on screen.
pub const SHAPE_COUNT: usize = 9;

/// The size to ask the theme for, when `XCURSOR_SIZE` says nothing.
pub const DEFAULT_SIZE: u32 = 24;

/// The names of the shapes the shell can put on screen, in the order in which
/// they are read.
pub open spec fn shape_name(i: int) -> Seq<char> {
    if i == 0 {
        "default"@
    } else if i == 1 {
        "pointer"@
    } else if i == 2 {
        "text"@
    } else if i == 3 {
        "grab"@
    } else if i == 4 {
        "grabbing"@
    } else if i == 5 {
        "ns-resize"@
    } else if i == 6 {
        "ew-resize"@
    } else if i == 7 {
        "nwse-resize"@
    } else {
        "nesw-resize"@
    }
}

/// The name of the `i`th shape the shell can put on screen. Anything else a
/// client asks for is named on the wire and drawn by the browser from the
/// keyword alone.
pub fn shape(i: usize) -> (name: &'static str)
    ensures
        name@ == shape_name(i as int),
{
    if i == 0 {
        "default"
    } else if i == 1 {
        "pointer"
    } else if i == 2 {
        "text"
    } else if i == 3 {
        "grab"
    } else if i == 4 {
        "grabbing"
    } else if i == 5 {
        "ns-resize"
    } else if i == 6 {
        "ew-resize"
    } else if i == 7 {
        "nwse-resize"
    } else {
        "nesw-resize"
    }
}

/// One picture out of a cursor file. An animated cursor holds one per frame, a
/// theme one or more per size.
#[derive(Debug)]
pub struct CursorImage {
    /// The size the picture was drawn for.
    pub size: u32,
    pub width: u32,
    pub height: u32,
    /// The pixel that points.
    pub xhot: u32,
    pub yhot: u32,
    /// The pixels, alpha premultiplied.
    pub rgba: Vec<u8>,
}

impl DeepView for CursorImage {
    type V = (u32, u32, u32, u32, u32, Seq<u8>);

    open spec fn deep_view(&self) -> Self::V {
        (self.size, self.width, self.height, self.xhot, self.yhot, self.rgba@)
    }
}

/// A cursor as the browser draws it: straight alpha, four bytes a pixel.
#[derive(Debug)]
pub struct CursorShape {
    pub name: String,
    pub width: u32,
    pub height: u32,
    pub hotspot_x: u32,
    pub hotspot_y: u32,
    pub rgba: Vec<u8>,
}

impl DeepView for CursorShape {
    type V = (Seq<char>, u32, u32, u32, u32, Seq<u8>);

    open spec fn deep_view(&self) -> Self::V {
        (self.name@, self.width, self.height, self.hotspot_x, self.hotspot_y, self.rgba@)
    }
}

/// What `xcursor::parser::parse_xcursor` reads out of a cursor file: of each
/// picture its nominal size, width, height, hotspot and pixels, or nothing where
/// the file is not a cursor file.
pub uninterp spec fn xcursor_images(bytes: Seq<u8>) -> Option<
    Seq<(u32, u32, u32, u32, u32, Seq<u8>)>,
>;

/// `xcursor::parser::parse_xcursor`, its pictures field by field. A picture
/// that parses has both sides between 1 and 32767, and four bytes for each of
/// its pixels.
#[verifier::external_body]
fn parse_xcursor(bytes: &[u8]) -> (images: Option<Vec<CursorImage>>)
    ensures
        images.deep_view() == xcursor_images(bytes@),
        images is Some ==> forall|i: int|
            0 <= i < images->0@.len() ==> is_whole(#[trigger] images->0@[i]),
{
    xcursor::parser::parse_xcursor(bytes).map(
        |images|
            images
                .into_iter()
                .map(|image| CursorImage {
                    size: image.size,
                    width: image.width,
                    height: image.height,
                    xhot: image.xhot,
                    yhot: image.yhot,
                    rgba: image.pixels_rgba,
                })
                .collect(),
    )
}

/// Does a picture hold exactly the pixels that its size calls for?
pub open spec fn is_whole(image: CursorImage) -> bool {
    &&& 1 <= image.width <= 0x7fff
    &&& 1 <= image.height <= 0x7fff
    &&& image.rgba@.len() == 4 * image.width * image.height
}

/// How far two sizes are apart.
pub open spec fn distance(one: u32, other: u32) -> int {
    if one < other {
        other - one
    } else {
        one - other
    }
}

/// Is `at` the first of the pictures that come closest to the wanted size?
pub open spec fn is_nearest(
    images: Seq<(u32, u32, u32, u32, u32, Seq<u8>)>,
    wanted: u32,
    at: int,
) -> bool {
    &&& 0 <= at < images.len()
    &&& forall|i: int|
        0 <= i < images.len() ==> distance(images[at].0, wanted) <= distance(
            (#[trigger] images[i]).0,
            wanted,
        )
    &&& forall|i: int|
        0 <= i < at ==> distance(images[at].0, wanted) < distance((#[trigger] images[i]).0, wanted)
}

/// The picture closest to the wanted size. An animated cursor repeats its size
/// once per frame; the first of the nearest is its first frame, which is the one
/// that gets drawn.
pub fn nearest(images: &Vec<CursorImage>, wanted: u32) -> (found: Option<usize>)
    ensures
        match found {
            Some(at) => is_nearest(images.deep_view(), wanted, at as int),
            None => images@.len() == 0,
        },
{
    if images.len() == 0 {
        return None;
    }
    let ghost pictures = images.deep_view();
    let mut best: usize = 0;
    let mut i: usize = 1;
    while i < images.len()
        invariant
            pictures == images.deep_view(),
            1 <= i <= images@.len(),
            best < i,
            forall|j: int|
                0 <= j < i ==> distance(pictures[best as int].0, wanted) <= distance(
                    (#[trigger] pictures[j]).0,
                    wanted,
                ),
            forall|j: int|
                0 <= j < best ==> distance(pictures[best as int].0, wanted) < distance(
                    (#[trigger] pictures[j]).0,
                    wanted,
                ),
        decreases images@.len() - i,
    {
        assert(pictures[i as int].0 == images@[i as int].size);
        assert(pictures[best as int].0 == images@[best as int].size);
        let size = images[i].size;
        let kept = images[best].size;
        let apart: u32 = if size < wanted { wanted - size } else { size - wanted };
        let least: u32 = if kept < wanted { wanted - kept } else { kept - wanted };
        if apart < least {
            best = i;
        }
        i += 1;
    }
    Some(best)
}

/// A colour channel with the alpha divided back out, rounded to the nearest
/// and cut off at full.
pub open spec fn straight_channel(channel: u8, alpha: u8) -> u8 {
    if alpha == 0 || alpha == 255 {
        channel
    } else {
        let divided = (channel * 255 + alpha / 2) / (alpha as int);
        if divided > 255 {
            255
        } else {
            divided as u8
        }
    }
}

/// Pixels with the alpha divided back out, whole pixels only.
pub open spec fn straightened(rgba: Seq<u8>) -> Seq<u8> {
    Seq::new(
        (rgba.len() / 4 * 4) as nat,
        |i: int|
            if i % 4 == 3 {
                rgba[i]
            } else {
                straight_channel(rgba[i], rgba[i - i % 4 + 3])
            },
    )
}

fn divide(channel: u8, alpha: u8) -> (result: u8)
    ensures
        result == straight_channel(channel, alpha),
{
    if alpha == 0 || alpha == 255 {
        return channel;
    }
    let divided: u32 = (channel as u32 * 255 + alpha as u32 / 2) / alpha as u32;
    if divided > 255 {
        255
    } else {
        divided as u8
    }
}

/// A cursor's pixels with the alpha divided back out.
///
/// Cursor files hold premultiplied alpha, which is the opposite of what a
/// canvas's image data does: handed premultiplied pixels it darkens every soft
/// edge, drawing a black fringe around the pointer.
pub fn straight(rgba: &Vec<u8>) -> (pixels: Vec<u8>)
    ensures
        pixels@ == straightened(rgba@),
{
    let mut pixels: Vec<u8> = Vec::new();
    let mut at: usize = 0;
    while rgba.len() - at >= 4
        invariant
            at <= rgba@.len(),
            at % 4 == 0,
            pixels@ =~= straightened(rgba@).take(at as int),
        decreases rgba@.len() - at,
    {
        let alpha = rgba[at + 3];
        pixels.push(divide(rgba[at], alpha));
        pixels.push(divide(rgba[at + 1], alpha));
        pixels.push(divide(rgba[at + 2], alpha));
        pixels.push(alpha);
        at += 4;
    }
    assert(pixels@ =~= straightened(rgba@));
    pixels
}

/// The shape that a file's pictures make: the nearest one, straightened.
pub open spec fn shape_from(
    name: Seq<char>,
    images: Option<Seq<(u32, u32, u32, u32, u32, Seq<u8>)>>,
    wanted: u32,
) -> Option<(Seq<char>, u32, u32, u32, u32, Seq<u8>)> {
    match images {
        Some(list) => if list.len() == 0 {
            None
        } else {
            let image = list[choose|at: int| is_nearest(list, wanted, at)];
            Some((name, image.1, image.2, image.3, image.4, straightened(image.5)))
        },
        None => None,
    }
}

/// There is only one first nearest picture.
proof fn nearest_is_unique(
    images: Seq<(u32, u32, u32, u32, u32, Seq<u8>)>,
    wanted: u32,
    one: int,
    other: int,
)
    requires
        is_nearest(images, wanted, one),
        is_nearest(images, wanted, other),
    ensures
        one == other,
{
    if one < other {
        assert(images[one] == images[one]);
    } else if other < one {
        assert(images[other] == images[other]);
    }
}

/// The shape to draw out of the pictures of its file.
pub fn shape_of(name: &str, images: Option<Vec<CursorImage>>, wanted: u32) -> (drawn: Option<
    CursorShape,
>)
    ensures
        drawn.deep_view() == shape_from(name@, images.deep_view(), wanted),
        images is Some && (forall|i: int|
            0 <= i < images->0@.len() ==> is_whole(#[trigger] images->0@[i])) && drawn is Some
            ==> drawn->0.rgba@.len() == 4 * drawn->0.width * drawn->0.height,
{
    match &images {
        Some(list) => match nearest(list, wanted) {
            Some(at) => {
                let image = &list[at];
                let ghost pictures = list.deep_view();
                assert(pictures[at as int] == image.deep_view());
                proof {
                    let chosen = choose|k: int| is_nearest(pictures, wanted, k);
                    nearest_is_unique(pictures, wanted, at as int, chosen);
                    assert(images.deep_view() == Some(pictures));
                }
                assert(is_whole(*image) ==> straightened(image.rgba@).len() == 4 * image.width
                    * image.height) by {
                    let pixels = image.width * image.height;
                    assert(4 * image.width * image.height == 4 * pixels) by (nonlinear_arith)
                        requires
                            pixels == image.width * image.height,
                    ;
                    if is_whole(*image) {
                        assert(image.rgba@.len() == 4 * pixels);
                    }
                }
                Some(
                    CursorShape {
                        name: name.to_string(),
                        width: image.width,
                        height: image.height,
                        hotspot_x: image.xhot,
                        hotspot_y: image.yhot,
                        rgba: straight(&image.rgba),
                    },
                )
            },
            None => {
                assert(images.deep_view()->0.len() == 0);
                None
            },
        },
        None => None,
    }
}

/// One shape out of the bytes of its cursor file, at the size closest to the
/// one asked for.
pub fn read(name: &str, bytes: &[u8], wanted: u32) -> (drawn: Option<CursorShape>)
    ensures
        drawn.deep_view() == shape_from(name@, xcursor_images(bytes@), wanted),
        drawn is Some ==> drawn->0.rgba@.len() == 4 * drawn->0.width * drawn->0.height,
{
    let images = parse_xcursor(bytes);
    shape_of(name, images, wanted)
}

/// The shapes that the files of the first `n` of them give, in order. A shape
/// whose file is missing, or is no cursor, is left out.
pub open spec fn shapes(files: Seq<Option<Seq<u8>>>, wanted: u32, n: int) -> Seq<
    (Seq<char>, u32, u32, u32, u32, Seq<u8>),
>
    decreases n,
{
    if n <= 0 {
        Seq::empty()
    } else {
        let before = shapes(files, wanted, n - 1);
        if n - 1 < files.len() {
            match files[n - 1] {
                Some(bytes) => match shape_from(
                    shape_name(n - 1),
                    xcursor_images(bytes),
                    wanted,
                ) {
                    Some(drawn) => before.push(drawn),
                    None => before,
                },
                None => before,
            }
        } else {
            before
        }
    }
}

/// Every shape the shell draws, in the host's theme, out of the contents of its
/// files: the `i`th is the file that the theme has for the `i`th shape. A shape
/// that the theme does not carry is absent, leaving the browser its keyword.
pub fn theme(files: &Vec<Option<Vec<u8>>>, wanted: u32) -> (drawn: Vec<CursorShape>)
    ensures
        drawn.deep_view() == shapes(files.deep_view(), wanted, SHAPE_COUNT as int),
{
    let mut drawn: Vec<CursorShape> = Vec::new();
    let mut i: usize = 0;
    assert(drawn.deep_view() =~= Seq::empty());
    while i < SHAPE_COUNT
        invariant
            i <= SHAPE_COUNT,
            drawn.deep_view() == shapes(files.deep_view(), wanted, i as int),
        decreases SHAPE_COUNT - i,
    {
        let ghost before = drawn.deep_view();
        if i < files.len() {
            assert(files.deep_view()[i as int] == files@[i as int].deep_view());
            if let Some(bytes) = &files[i] {
                assert(bytes.deep_view() =~= bytes@);
                if let Some(one) = read(shape(i), bytes.as_slice(), wanted) {
                    let ghost made = one.deep_view();
                    drawn.push(one);
                    assert(drawn.deep_view() =~= before.push(made));
                }
            }
        }
        i += 1;
    }
    drawn
}

/// The theme to load, from `XCURSOR_THEME`: `default` where that is missing or
/// empty.
pub fn theme_name(value: Option<String>) -> (name: String)
    ensures
        name@ == (if value is Some && value->0@.len() > 0 {
            value->0@
        } else {
            "default"@
        }),
{
    if let Some(text) = value {
        if text.unicode_len() > 0 {
            return text;
        }
    }
    "default".to_string()
}

/// The cursor size that a value of `XCURSOR_SIZE` stands for.
pub open spec fn wanted_size(value: Option<Seq<char>>) -> int {
    match value {
        Some(text) => match unsigned(text, u32::MAX as int) {
            Some(size) => if size > 0 {
                size
            } else {
                DEFAULT_SIZE as int
            },
            None => DEFAULT_SIZE as int,
        },
        None => DEFAULT_SIZE as int,
    }
}

/// The cursor size to ask the theme for, from `XCURSOR_SIZE`: its value where
/// that is a number above zero, else the default.
pub fn theme_size(value: &Option<String>) -> (size: u32)
    ensures
        size == wanted_size(value.deep_view()),
{
    if let Some(text) = value {
        if let Some(size) = parse_unsigned(text.as_str(), u32::MAX as u64) {
            if size > 0 {
                return size as u32;
            }
        }
    }
    DEFAULT_SIZE
}

/// Undoing premultiplication keeps a soft edge soft: whatever its alpha, a
/// white pixel, which is stored as its alpha, comes back white, and a black one
/// stays black.
pub proof fn soft_edges_stay_soft(alpha: u8)
    requires
        alpha > 0,
    ensures
        straight_channel(alpha, alpha) == 255,
        straight_channel(0, alpha) == 0,
{
    let a = alpha as int;
    let half = (alpha / 2) as int;
    assert((a * 255 + half) / a == 255) by (nonlinear_arith)
        requires
            a > 0,
            0 <= half < a,
    ;
    assert(half / a == 0) by (nonlinear_arith)
        requires
            a > 0,
            0 <= half < a,
    ;
}

/// Opaque and wholly transparent pixels are straight already, and come back
/// untouched.
pub proof fn hard_edges_are_untouched(rgba: Seq<u8>)
    requires
        rgba.len() % 4 == 0,
        forall|i: int|
            0 <= i < rgba.len() && i % 4 == 3 ==> (#[trigger] rgba[i] == 0 || rgba[i] == 255),
    ensures
        straightened(rgba) == rgba,
{
    assert forall|i: int| 0 <= i < rgba.len() implies straightened(rgba)[i] == rgba[i] by {
        assert((i - i % 4 + 3) % 4 == 3);
        let alpha = rgba[i - i % 4 + 3];
    }
    assert(straightened(rgba) =~= rgba);
}

/// A shape is the nearest of its pictures, under its own name: as wide and as
/// high, pointing with the same pixel, its alpha divided back out. A file
/// without pictures, or that is no cursor file, makes none.
pub proof fn a_shape_is_its_nearest_picture(
    name: Seq<char>,
    images: Seq<(u32, u32, u32, u32, u32, Seq<u8>)>,
    wanted: u32,
    at: int,
)
    ensures
        is_nearest(images, wanted, at) ==> {
            let (_, width, height, xhot, yhot, rgba) = images[at];
            shape_from(name, Some(images), wanted) == Some(
                (name, width, height, xhot, yhot, straightened(rgba)),
            )
        },
        images.len() == 0 ==> shape_from(name, Some(images), wanted) is None,
        shape_from(name, None, wanted) is None,
{
    if is_nearest(images, wanted, at) {
        let chosen = choose|k: int| is_nearest(images, wanted, k);
        nearest_is_unique(images, wanted, at, chosen);
    }
}

/// A picture of just the size asked for is the one taken, and of several the
/// first.
pub proof fn a_picture_of_the_right_size_is_taken(
    images: Seq<(u32, u32, u32, u32, u32, Seq<u8>)>,
    wanted: u32,
    at: int,
)
    requires
        0 <= at < images.len(),
        images[at].0 == wanted,
        forall|i: int| 0 <= i < at ==> (#[trigger] images[i]).0 != wanted,
    ensures
        is_nearest(images, wanted, at),
{
}

/// Dividing the alpha out leaves the alpha alone, and rounds each colour to the
/// nearest: multiplied by the alpha again, it is off by half of it at most.
pub proof fn dividing_rounds_to_the_nearest(channel: u8, alpha: u8)
    requires
        0 < alpha,
        channel <= alpha,
    ensures
        2 * (straight_channel(channel, alpha) * alpha - channel * 255) <= alpha,
        2 * (channel * 255 - straight_channel(channel, alpha) * alpha) <= alpha,
{
    let a = alpha as int;
    let c = channel as int;
    if a != 255 {
        let half = (alpha / 2) as int;
        let n = c * 255 + half;
        let q = n / a;
        vstd::arithmetic::div_mod::lemma_fundamental_div_mod(n, a);
        vstd::arithmetic::div_mod::lemma_mod_bound(n, a);
        assert(a * q == q * a) by (nonlinear_arith);
        assert(q <= 255) by (nonlinear_arith)
            requires
                q * a <= c * 255 + half,
                c <= a,
                half < a,
                a > 0,
        ;
    }
}

/// The size is what the setting says, where that is a number above zero, and
/// otherwise the usual one.
pub proof fn the_size_is_what_was_asked_for(size: u32)
    ensures
        wanted_size(Some(decimal(size as nat))) == (if size > 0 {
            size as int
        } else {
            24
        }),
        wanted_size(None) == 24,
{
    a_written_number_is_read_back(size as nat, u32::MAX as int);
}

/// Every shape drawn stands for a file that was there, under the name of the
/// shape that the file is for; a missing file adds nothing.
pub proof fn a_theme_is_made_of_its_files(files: Seq<Option<Seq<u8>>>, wanted: u32, n: int)
    requires
        0 < n <= files.len(),
    ensures
        files[n - 1] is None ==> shapes(files, wanted, n) == shapes(files, wanted, n - 1),
        files[n - 1] matches Some(bytes) ==> (match shape_from(
            shape_name(n - 1),
            xcursor_images(bytes),
            wanted,
        ) {
            Some(drawn) => shapes(files, wanted, n).last() == drawn && drawn.0 == shape_name(n - 1)
                && shapes(files, wanted, n).drop_last() == shapes(files, wanted, n - 1),
            None => shapes(files, wanted, n) == shapes(files, wanted, n - 1),
        }),
{
    if let Some(bytes) = files[n - 1] {
        if let Some(drawn) = shape_from(shape_name(n - 1), xcursor_images(bytes), wanted) {
            assert(shapes(files, wanted, n).drop_last() =~= shapes(files, wanted, n - 1));
        }
    }
}

/// A theme that is named is the one loaded, and there is always one to load.
pub proof fn a_named_theme_is_loaded(value: Option<String>, name: String)
    requires
        call_ensures(theme_name, (value,), name),
    ensures
        name@.len() > 0,
        value is Some && value->0@.len() > 0 ==> name@ == value->0@,
{
    reveal_strlit("default");
}

} // verus!
