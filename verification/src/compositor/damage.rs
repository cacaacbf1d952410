//! What changed between two pictures of a surface, and how to send only that.
//!
//! Pictures are tightly packed rows of four-byte pixels unless a stride says
//! otherwise.

use crate::geometry::{Rect, Size};
use vstd::arithmetic::div_mod::{lemma_fundamental_div_mod, lemma_mod_bound};
use vstd::prelude::*;

verus! {

/// Where the pixel at (`x`, `y`) begins in a picture `width` pixels wide.
pub open spec fn pixel_at(width: int, x: int, y: int) -> int {
    (y * width + x) * 4
}

/// Whether two pictures differ in the pixel at (`x`, `y`).
pub open spec fn pixel_differs(old: Seq<u8>, new: Seq<u8>, width: int, x: int, y: int) -> bool {
    let p = pixel_at(width, x, y);
    old[p] != new[p] || old[p + 1] != new[p + 1] || old[p + 2] != new[p + 2] || old[p + 3] != new[p
        + 3]
}

/// Whether two pictures differ anywhere in a column.
pub open spec fn column_differs(
    old: Seq<u8>,
    new: Seq<u8>,
    width: int,
    height: int,
    x: int,
) -> bool {
    exists|y: int| 0 <= y < height && #[trigger] pixel_differs(old, new, width, x, y)
}

/// Whether two pictures differ anywhere in a row.
pub open spec fn row_differs(old: Seq<u8>, new: Seq<u8>, width: int, y: int) -> bool {
    exists|x: int| 0 <= x < width && #[trigger] pixel_differs(old, new, width, x, y)
}

/// Everything that differs lies in the box, `right` and `bottom` just outside it.
pub open spec fn covers(
    old: Seq<u8>,
    new: Seq<u8>,
    width: int,
    height: int,
    left: int,
    top: int,
    right: int,
    bottom: int,
) -> bool {
    forall|x: int, y: int|
        0 <= x < width && 0 <= y < height && #[trigger] pixel_differs(old, new, width, x, y)
            ==> left <= x < right && top <= y < bottom
}

/// The tightest box round everything that differs: nothing differs beyond it,
/// and something differs on each edge.
pub open spec fn is_bounding_box(
    old: Seq<u8>,
    new: Seq<u8>,
    width: int,
    height: int,
    left: int,
    top: int,
    right: int,
    bottom: int,
) -> bool {
    &&& 0 <= left < right <= width
    &&& 0 <= top < bottom <= height
    &&& covers(old, new, width, height, left, top, right, bottom)
    &&& column_differs(old, new, width, height, left)
    &&& column_differs(old, new, width, height, right - 1)
    &&& row_differs(old, new, width, top)
    &&& row_differs(old, new, width, bottom - 1)
}

/// Whether no pixel differs.
pub open spec fn same_picture(old: Seq<u8>, new: Seq<u8>, width: int, height: int) -> bool {
    forall|x: int, y: int|
        0 <= x < width && 0 <= y < height ==> !(#[trigger] pixel_differs(old, new, width, x, y))
}

proof fn column_still_differs(old: Seq<u8>, new: Seq<u8>, width: int, height: int, x: int)
    requires
        column_differs(old, new, width, height, x),
    ensures
        column_differs(old, new, width, height + 1, x),
{
    let y = choose|y: int| 0 <= y < height && #[trigger] pixel_differs(old, new, width, x, y);
    assert(pixel_differs(old, new, width, x, y));
}

/// A row of pixels begins and ends inside a picture that is large enough.
proof fn row_in_picture(width: int, height: int, y: int)
    requires
        0 <= width,
        0 <= y < height,
    ensures
        0 <= y * width,
        (y + 1) * width == y * width + width,
        y * width + width <= height * width,
{
    assert(0 <= y * width) by (nonlinear_arith)
        requires
            0 <= width,
            0 <= y,
    ;
    assert((y + 1) * width == y * width + width) by (nonlinear_arith);
    assert((y + 1) * width <= height * width) by (nonlinear_arith)
        requires
            0 <= width,
            y + 1 <= height,
    ;
}

/// Whether two pictures differ in one pixel.
fn differs_at(old: &[u8], new: &[u8], p: usize) -> (differs: bool)
    requires
        p + 4 <= old@.len(),
        old@.len() == new@.len(),
    ensures
        differs == (old@[p as int] != new@[p as int] || old@[p + 1] != new@[p + 1] || old@[p + 2]
            != new@[p + 2] || old@[p + 3] != new@[p + 3]),
{
    assert(old.len() == old@.len());
    old[p] != new[p] || old[p + 1] != new[p + 1] || old[p + 2] != new[p + 2] || old[p + 3] != new[p
        + 3]
}

/// The first and the last pixel of a row that differ.
fn row_span(old: &[u8], new: &[u8], size: Size, y: u32) -> (span: Option<(u32, u32)>)
    requires
        y < size.height,
        old@.len() == new@.len(),
        size.width * 4 <= usize::MAX,
        size.height * size.width * 4 <= old@.len(),
    ensures
        match span {
            None => forall|x: int|
                0 <= x < size.width ==> !(#[trigger] pixel_differs(
                    old@,
                    new@,
                    size.width as int,
                    x,
                    y as int,
                )),
            Some((first, last)) => {
                &&& first <= last < size.width
                &&& pixel_differs(old@, new@, size.width as int, first as int, y as int)
                &&& pixel_differs(old@, new@, size.width as int, last as int, y as int)
                &&& forall|x: int|
                    0 <= x < size.width && #[trigger] pixel_differs(
                        old@,
                        new@,
                        size.width as int,
                        x,
                        y as int,
                    ) ==> first <= x <= last
            },
        },
{
    proof {
        row_in_picture(size.width as int, size.height as int, y as int);
        assert(old.len() == old@.len());
        assert(y * size.width <= y * size.width * 4);
    }
    let base: usize = y as usize * size.width as usize * 4;
    let mut span: Option<(u32, u32)> = None;
    let mut x: u32 = 0;
    while x < size.width
        invariant
            x <= size.width,
            y < size.height,
            old@.len() == new@.len(),
            old.len() == old@.len(),
            base == y * size.width * 4,
            base + size.width * 4 <= old@.len(),
            match span {
                None => forall|i: int|
                    0 <= i < x ==> !(#[trigger] pixel_differs(
                        old@,
                        new@,
                        size.width as int,
                        i,
                        y as int,
                    )),
                Some((first, last)) => {
                    &&& first <= last < x
                    &&& pixel_differs(old@, new@, size.width as int, first as int, y as int)
                    &&& pixel_differs(old@, new@, size.width as int, last as int, y as int)
                    &&& forall|i: int|
                        0 <= i < x && #[trigger] pixel_differs(
                            old@,
                            new@,
                            size.width as int,
                            i,
                            y as int,
                        ) ==> first <= i <= last
                },
            },
        decreases size.width - x,
    {
        let p: usize = base + x as usize * 4;
        assert(p == pixel_at(size.width as int, x as int, y as int));
        if differs_at(old, new, p) {
            span = match span {
                None => Some((x, x)),
                Some((first, _)) => Some((first, x)),
            };
        }
        x = x + 1;
    }
    span
}

/// A 32-bit coordinate as a signed one, and back.
fn signed(value: u32) -> (coordinate: i32)
    ensures
        coordinate as u32 == value,
        value <= i32::MAX ==> coordinate == value,
{
    proof {
        assert((value as i32) as u32 == value) by (bit_vector);
    }
    value as i32
}

/// The bounding box of the pixels that actually differ, or `None` if none do.
///
/// Client-declared damage would be cheaper, but it cannot be relied on: some
/// clients declare the whole surface every frame. Comparing what was captured
/// against what the browser already has costs one pass over the buffer and is
/// true for every client. A resize is not a diff: pictures of different lengths
/// have no region.
///
/// A coordinate beyond the signed range wraps round, which takes a surface more
/// than two thousand million pixels wide or high.
pub fn changed_region(old: &[u8], new: &[u8], size: Size) -> (region: Option<Rect>)
    requires
        size.width * 4 <= usize::MAX,
        old@.len() == new@.len() && size.width > 0 ==> size.height * size.width * 4 <= old@.len(),
    ensures
        match region {
            None => old@.len() != new@.len() || size.width == 0 || same_picture(
                old@,
                new@,
                size.width as int,
                size.height as int,
            ),
            Some(r) => {
                &&& old@.len() == new@.len()
                &&& is_bounding_box(
                    old@,
                    new@,
                    size.width as int,
                    size.height as int,
                    r.x as u32 as int,
                    r.y as u32 as int,
                    r.x as u32 + r.width,
                    r.y as u32 + r.height,
                )
                &&& size.width <= i32::MAX ==> r.x >= 0 && r.x as u32 == r.x
                &&& size.height <= i32::MAX ==> r.y >= 0 && r.y as u32 == r.y
            },
        },
{
    if old.len() != new.len() || size.width == 0 {
        return None;
    }
    // Left, top, and one past the right and the bottom.
    let mut found: Option<(u32, u32, u32, u32)> = None;
    let ghost width = size.width as int;
    let mut y: u32 = 0;
    while y < size.height
        invariant
            y <= size.height,
            size.width > 0,
            width == size.width,
            old@.len() == new@.len(),
            size.width * 4 <= usize::MAX,
            size.height * size.width * 4 <= old@.len(),
            match found {
                None => same_picture(old@, new@, width, y as int),
                Some((left, top, right, bottom)) => is_bounding_box(
                    old@,
                    new@,
                    width,
                    y as int,
                    left as int,
                    top as int,
                    right as int,
                    bottom as int,
                ),
            },
        decreases size.height - y,
    {
        let span = row_span(old, new, size, y);
        proof {
            if let Some((left, _, right, _)) = found {
                column_still_differs(old@, new@, width, y as int, left as int);
                column_still_differs(old@, new@, width, y as int, right - 1);
            }
        }
        if let Some((first, last)) = span {
            assert(pixel_differs(old@, new@, width, first as int, y as int));
            assert(row_differs(old@, new@, width, y as int));
            assert(column_differs(old@, new@, width, y + 1, first as int));
            assert(column_differs(old@, new@, width, y + 1, last as int));
            found = match found {
                None => Some((first, y, last + 1, y + 1)),
                Some((left, top, right, _)) => {
                    let l: u32 = if first < left {
                        first
                    } else {
                        left
                    };
                    let r: u32 = if last + 1 > right {
                        last + 1
                    } else {
                        right
                    };
                    Some((l, top, r, y + 1))
                },
            };
        }
        y = y + 1;
    }
    match found {
        None => None,
        Some((left, top, right, bottom)) => Some(
            Rect {
                x: signed(left),
                y: signed(top),
                width: right - left,
                height: bottom - top,
            },
        ),
    }
}

/// The larger of a number and zero.
pub open spec fn at_least_zero(value: int) -> int {
    if value < 0 {
        0
    } else {
        value
    }
}

/// Where a row of a region begins in a strided buffer.
pub open spec fn row_start(offset: int, stride: int, region: Rect, row: int) -> int {
    at_least_zero(offset) + (region.y + row) * at_least_zero(stride) + region.x * 4
}

/// Whether the buffer reaches to the end of every row of the region.
pub open spec fn reaches(length: int, offset: int, stride: int, region: Rect) -> bool {
    forall|row: int|
        0 <= row < region.height ==> #[trigger] row_start(offset, stride, region, row)
            + region.width * 4 <= length
}

/// The first `rows` rows of the region, one after the other.
pub open spec fn packed_rows(
    bytes: Seq<u8>,
    offset: int,
    stride: int,
    region: Rect,
    rows: nat,
) -> Seq<u8>
    decreases rows,
{
    if rows == 0 {
        seq![]
    } else {
        let start = row_start(offset, stride, region, rows - 1);
        packed_rows(bytes, offset, stride, region, (rows - 1) as nat) + bytes.subrange(
            start,
            start + region.width * 4,
        )
    }
}

/// A region of a strided buffer, its rows tightly packed; empty where the buffer
/// is shorter than the region implies.
pub open spec fn cropped(bytes: Seq<u8>, offset: int, stride: int, region: Rect) -> Seq<u8> {
    if reaches(bytes.len() as int, offset, stride, region) {
        packed_rows(bytes, offset, stride, region, region.height as nat)
    } else {
        seq![]
    }
}

/// Pack `region` out of a strided BGRA buffer into tightly-packed rows.
///
/// Returns empty if the buffer is shorter than the region implies, rather than
/// reading past it: the pool is client-controlled memory.
pub fn crop(bytes: &[u8], offset: i32, stride: i32, region: Rect) -> (pixels: Vec<u8>)
    requires
        region.x >= 0,
        region.y >= 0,
    ensures
        pixels@ == cropped(bytes@, offset as int, stride as int, region),
{
    let from: u64 = if offset < 0 {
        0
    } else {
        offset as u64
    };
    let step: u64 = if stride < 0 {
        0
    } else {
        stride as u64
    };
    let row_bytes: u64 = region.width as u64 * 4;
    let mut pixels: Vec<u8> = Vec::new();
    let mut row: u32 = 0;
    while row < region.height
        invariant
            row <= region.height,
            region.x >= 0,
            region.y >= 0,
            from == at_least_zero(offset as int),
            from <= 0x7fff_ffff,
            step == at_least_zero(stride as int),
            step <= 0x7fff_ffff,
            row_bytes == region.width * 4,
            pixels@ == packed_rows(bytes@, offset as int, stride as int, region, row as nat),
            forall|r: int|
                0 <= r < row ==> #[trigger] row_start(offset as int, stride as int, region, r)
                    + region.width * 4 <= bytes@.len(),
        decreases region.height - row,
    {
        let line: u64 = region.y as u64 + row as u64;
        assert(line * step <= 0x1_7fff_fffe * 0x7fff_ffff) by (nonlinear_arith)
            requires
                line <= 0x1_7fff_fffe,
                step <= 0x7fff_ffff,
        ;
        let start: u64 = from + line * step + region.x as u64 * 4;
        assert(start == row_start(offset as int, stride as int, region, row as int));
        let end: u64 = start + row_bytes;
        if end > bytes.len() as u64 {
            return Vec::new();
        }
        pixels.extend_from_slice(
            vstd::slice::slice_subrange(bytes, start as usize, end as usize),
        );
        assert(pixels@ =~= packed_rows(
            bytes@,
            offset as int,
            stride as int,
            region,
            (row + 1) as nat,
        ));
        row = row + 1;
    }
    pixels
}

/// The window rectangle as the browser can actually use it: its corner inside
/// the image, never empty, never negative.
pub open spec fn clipped(offset: (i32, i32), size: (i32, i32), image: Size) -> (int, int, int, int) {
    let x = if at_least_zero(offset.0 as int) < image.width {
        at_least_zero(offset.0 as int)
    } else {
        image.width as int
    };
    let y = if at_least_zero(offset.1 as int) < image.height {
        at_least_zero(offset.1 as int)
    } else {
        image.height as int
    };
    let width = if at_least_zero(size.0 as int) < image.width - x {
        at_least_zero(size.0 as int)
    } else {
        image.width - x
    };
    let height = if at_least_zero(size.1 as int) < image.height - y {
        at_least_zero(size.1 as int)
    } else {
        image.height - y
    };
    (
        x,
        y,
        if width < 1 {
            1
        } else {
            width
        },
        if height < 1 {
            1
        } else {
            height
        },
    )
}

/// One axis of [`clip`]: where the window begins and how far it goes.
fn clip_axis(offset: i32, size: i32, image: u32) -> (span: (i32, u32))
    ensures
        ({
            let begin = if at_least_zero(offset as int) < image {
                at_least_zero(offset as int)
            } else {
                image as int
            };
            let room = image - begin;
            let length = if at_least_zero(size as int) < room {
                at_least_zero(size as int)
            } else {
                room
            };
            &&& span.0 == begin
            &&& span.1 == (if length < 1 {
                1
            } else {
                length
            })
        }),
{
    let wanted: u32 = if offset < 0 {
        0
    } else {
        offset as u32
    };
    let begin: u32 = if wanted < image {
        wanted
    } else {
        image
    };
    let room: u32 = image - begin;
    let asked: u32 = if size < 0 {
        0
    } else {
        size as u32
    };
    let length: u32 = if asked < room {
        asked
    } else {
        room
    };
    (begin as i32, if length < 1 {
        1
    } else {
        length
    })
}

/// Clip a window's declared geometry to the image it was drawn into.
pub fn clip(offset: (i32, i32), size: (i32, i32), image: Size) -> (rect: Rect)
    ensures
        (rect.x as int, rect.y as int, rect.width as int, rect.height as int) == clipped(
            offset,
            size,
            image,
        ),
{
    let (x, width): (i32, u32) = clip_axis(offset.0, size.0, image.width);
    let (y, height): (i32, u32) = clip_axis(offset.1, size.1, image.height);
    Rect { x, y, width, height }
}

/// Whatever a client declares, what the browser is told to show is never empty
/// and its corner never lies outside the image; and where the corner leaves any
/// room at all, the whole rectangle lies inside.
pub proof fn a_clipped_window_is_visible(offset: (i32, i32), size: (i32, i32), image: Size)
    ensures
        ({
            let (x, y, width, height) = clipped(offset, size, image);
            &&& 0 <= x <= image.width && 0 <= y <= image.height
            &&& width >= 1 && height >= 1
            &&& x < image.width ==> x + width <= image.width
            &&& y < image.height ==> y + height <= image.height
        }),
{
}

/// A window that already lies inside its image is shown as it is.
pub proof fn clipping_leaves_a_fitting_window_alone(
    offset: (i32, i32),
    size: (i32, i32),
    image: Size,
)
    requires
        0 <= offset.0,
        0 <= offset.1,
        1 <= size.0,
        1 <= size.1,
        offset.0 + size.0 <= image.width,
        offset.1 + size.1 <= image.height,
    ensures
        clipped(offset, size, image) == (
            offset.0 as int,
            offset.1 as int,
            size.0 as int,
            size.1 as int,
        ),
{
}

/// A picture with a region of it replaced by tightly packed pixels.
pub open spec fn blitted(canvas: Seq<u8>, width: int, region: Rect, payload: Seq<u8>) -> Seq<u8> {
    Seq::new(
        canvas.len(),
        |i: int|
            {
                let x = (i / 4) % width - region.x;
                let y = (i / 4) / width - region.y;
                if 0 <= x < region.width && 0 <= y < region.height {
                    payload[pixel_at(region.width as int, x, y) + i % 4]
                } else {
                    canvas[i]
                }
            },
    )
}

/// Every byte of a picture belongs to a pixel of it.
proof fn byte_coordinates(width: int, height: int, i: int)
    requires
        0 < width,
        0 <= i < height * width * 4,
    ensures
        ({
            let x = (i / 4) % width;
            let y = (i / 4) / width;
            &&& 0 <= x < width
            &&& 0 <= y < height
            &&& i == pixel_at(width, x, y) + i % 4
        }),
{
    let p = i / 4;
    let x = p % width;
    let y = p / width;
    lemma_fundamental_div_mod(p, width);
    lemma_mod_bound(p, width);
    assert(width * y == y * width) by (nonlinear_arith);
    assert(p < height * width);
    assert(y < height) by (nonlinear_arith)
        requires
            y * width + x < height * width,
            0 <= x,
            0 < width,
    ;
    assert(0 <= y) by (nonlinear_arith)
        requires
            0 <= y * width + x,
            x < width,
            0 < width,
    ;
}

/// The byte `k` of the pixel at (`x`, `y`) of a packed region.
proof fn packed_byte(
    bytes: Seq<u8>,
    offset: int,
    stride: int,
    region: Rect,
    rows: nat,
    y: int,
    k: int,
)
    requires
        forall|row: int|
            0 <= row < rows ==> 0 <= #[trigger] row_start(offset, stride, region, row) && row_start(
                offset,
                stride,
                region,
                row,
            ) + region.width * 4 <= bytes.len(),
        0 <= y < rows,
        0 <= k < region.width * 4,
    ensures
        packed_rows(bytes, offset, stride, region, rows).len() == rows * region.width * 4,
        0 <= y * region.width * 4 + k < rows * region.width * 4,
        packed_rows(bytes, offset, stride, region, rows)[y * region.width * 4 + k] == bytes[
            row_start(offset, stride, region, y) + k
        ],
    decreases rows,
{
    let w = region.width as int;
    let done = packed_rows(bytes, offset, stride, region, (rows - 1) as nat);
    packed_length(bytes, offset, stride, region, (rows - 1) as nat);
    packed_length(bytes, offset, stride, region, rows);
    row_in_picture(w, rows as int, y);
    row_in_picture(w, rows as int, rows - 1);
    let start = row_start(offset, stride, region, rows - 1);
    assert(start + w * 4 <= bytes.len());
    if y < rows - 1 {
        row_in_picture(w, rows - 1, y);
        packed_byte(bytes, offset, stride, region, (rows - 1) as nat, y, k);
    }
}

proof fn packed_length(bytes: Seq<u8>, offset: int, stride: int, region: Rect, rows: nat)
    requires
        forall|row: int|
            0 <= row < rows ==> 0 <= #[trigger] row_start(offset, stride, region, row) && row_start(
                offset,
                stride,
                region,
                row,
            ) + region.width * 4 <= bytes.len(),
    ensures
        packed_rows(bytes, offset, stride, region, rows).len() == rows * region.width * 4,
    decreases rows,
{
    let w = region.width as int;
    if rows == 0 {
        assert(rows * w == 0) by (nonlinear_arith)
            requires
                rows == 0,
        ;
    } else {
        packed_length(bytes, offset, stride, region, (rows - 1) as nat);
        row_in_picture(w, rows as int, rows - 1);
        let start = row_start(offset, stride, region, rows - 1);
        assert(start + w * 4 <= bytes.len());
    }
}

/// A region cut out of a whole, tightly packed picture.
pub open spec fn cut_out(picture: Seq<u8>, size: Size, region: Rect) -> Seq<u8> {
    cropped(picture, 0, size.width * 4, region)
}

/// The region lies inside the picture.
pub open spec fn inside(region: Rect, size: Size) -> bool {
    &&& 0 <= region.x
    &&& 0 <= region.y
    &&& region.x + region.width <= size.width
    &&& region.y + region.height <= size.height
}

proof fn cut_out_reaches(picture: Seq<u8>, size: Size, region: Rect)
    requires
        picture.len() == size.height * size.width * 4,
        inside(region, size),
    ensures
        reaches(picture.len() as int, 0, size.width * 4, region),
        forall|row: int|
            0 <= row < region.height ==> 0 <= #[trigger] row_start(0, size.width * 4, region, row),
{
    let w = size.width as int;
    assert forall|row: int| 0 <= row < region.height implies 0 <= #[trigger] row_start(
        0,
        w * 4,
        region,
        row,
    ) && row_start(0, w * 4, region, row) + region.width * 4 <= picture.len() by {
        row_in_picture(w, size.height as int, region.y + row);
        assert((region.y + row) * (w * 4) == (region.y + row) * w * 4) by (nonlinear_arith);
    }
}

/// What the browser rebuilds from damage is exactly the new picture: copying the
/// changed region of the new picture over the old one gives the new one.
pub proof fn damage_rebuilds_the_picture(old: Seq<u8>, new: Seq<u8>, size: Size, region: Rect)
    requires
        old.len() == size.height * size.width * 4,
        new.len() == old.len(),
        inside(region, size),
        covers(
            old,
            new,
            size.width as int,
            size.height as int,
            region.x as int,
            region.y as int,
            region.x + region.width,
            region.y + region.height,
        ),
    ensures
        blitted(old, size.width as int, region, cut_out(new, size, region)) == new,
{
    let w = size.width as int;
    let payload = cut_out(new, size, region);
    cut_out_reaches(new, size, region);
    assert forall|i: int| 0 <= i < new.len() implies blitted(old, w, region, payload)[i]
        == new[i] by {
        if w == 0 {
            assert(size.height * w == 0) by (nonlinear_arith)
                requires
                    w == 0,
            ;
        }
        byte_coordinates(w, size.height as int, i);
        let x = (i / 4) % w;
        let y = (i / 4) / w;
        let k = i % 4;
        let (rx, ry) = (x - region.x, y - region.y);
        if 0 <= rx < region.width && 0 <= ry < region.height {
            packed_byte(new, 0, w * 4, region, region.height as nat, ry, rx * 4 + k);
            assert((region.y + ry) * (w * 4) == y * w * 4) by (nonlinear_arith)
                requires
                    region.y + ry == y,
            ;
        } else {
            assert(!pixel_differs(old, new, w, x, y));
        }
    }
    assert(blitted(old, w, region, payload) =~= new);
}

/// Where no pixel differs the pictures are the same, so nothing needs sending.
pub proof fn no_damage_means_no_change(old: Seq<u8>, new: Seq<u8>, size: Size)
    requires
        old.len() == size.height * size.width * 4,
        new.len() == old.len(),
        same_picture(old, new, size.width as int, size.height as int),
    ensures
        old == new,
{
    let w = size.width as int;
    assert forall|i: int| 0 <= i < new.len() implies old[i] == new[i] by {
        if w == 0 {
            assert(size.height * w == 0) by (nonlinear_arith)
                requires
                    w == 0,
            ;
        }
        byte_coordinates(w, size.height as int, i);
        assert(!pixel_differs(old, new, w, (i / 4) % w, (i / 4) / w));
    }
    assert(old =~= new);
}

/// A whole picture replaces whatever was there before.
pub proof fn a_whole_picture_replaces_everything(old: Seq<u8>, new: Seq<u8>, size: Size)
    requires
        old.len() == size.height * size.width * 4,
        new.len() == old.len(),
    ensures
        ({
            let whole = Rect { x: 0, y: 0, width: size.width, height: size.height };
            blitted(old, size.width as int, whole, cut_out(new, size, whole)) == new
        }),
{
    let whole = Rect { x: 0, y: 0, width: size.width, height: size.height };
    damage_rebuilds_the_picture(old, new, size, whole);
}

/// A region cut out of a picture holds four bytes for each of its pixels.
pub proof fn a_cut_out_fills_its_region(picture: Seq<u8>, size: Size, region: Rect)
    requires
        picture.len() == size.height * size.width * 4,
        inside(region, size),
    ensures
        cut_out(picture, size, region).len() == region.width * region.height * 4,
{
    cut_out_reaches(picture, size, region);
    packed_length(picture, 0, size.width * 4, region, region.height as nat);
    assert(region.height * region.width * 4 == region.width * region.height * 4)
        by (nonlinear_arith);
}

/// The pixel at a place of a region that was cut out is the pixel at that place
/// of the picture.
pub proof fn a_cut_out_keeps_its_pixels(
    picture: Seq<u8>,
    size: Size,
    region: Rect,
    x: int,
    y: int,
    k: int,
)
    requires
        picture.len() == size.height * size.width * 4,
        inside(region, size),
        0 <= x < region.width,
        0 <= y < region.height,
        0 <= k < 4,
    ensures
        cut_out(picture, size, region)[pixel_at(region.width as int, x, y) + k] == picture[pixel_at(
            size.width as int,
            region.x + x,
            region.y + y,
        ) + k],
{
    let w = size.width as int;
    cut_out_reaches(picture, size, region);
    packed_byte(picture, 0, w * 4, region, region.height as nat, y, x * 4 + k);
    assert((region.y + y) * (w * 4) == (region.y + y) * w * 4) by (nonlinear_arith);
}

/// No box that holds every pixel that differs is any smaller than the one found:
/// it lies within each of them.
pub proof fn no_smaller_region_would_do(
    old: Seq<u8>,
    new: Seq<u8>,
    size: Size,
    found: (int, int, int, int),
    other: (int, int, int, int),
)
    requires
        is_bounding_box(
            old,
            new,
            size.width as int,
            size.height as int,
            found.0,
            found.1,
            found.2,
            found.3,
        ),
        forall|x: int, y: int|
            0 <= x < size.width && 0 <= y < size.height && #[trigger] pixel_differs(
                old,
                new,
                size.width as int,
                x,
                y,
            ) ==> other.0 <= x < other.2 && other.1 <= y < other.3,
    ensures
        other.0 <= found.0 < found.2 <= other.2,
        other.1 <= found.1 < found.3 <= other.3,
        forall|x: int, y: int|
            0 <= x < size.width && 0 <= y < size.height && #[trigger] pixel_differs(
                old,
                new,
                size.width as int,
                x,
                y,
            ) ==> found.0 <= x < found.2 && found.1 <= y < found.3,
{
    let (left, top, right, bottom) = found;
    let w = size.width as int;
    let h = size.height as int;
    let y = choose|y: int| 0 <= y < h && #[trigger] pixel_differs(old, new, w, left, y);
    assert(pixel_differs(old, new, w, left, y));
    let y = choose|y: int| 0 <= y < h && #[trigger] pixel_differs(old, new, w, right - 1, y);
    assert(pixel_differs(old, new, w, right - 1, y));
    let x = choose|x: int| 0 <= x < w && #[trigger] pixel_differs(old, new, w, x, top);
    assert(pixel_differs(old, new, w, x, top));
    let x = choose|x: int| 0 <= x < w && #[trigger] pixel_differs(old, new, w, x, bottom - 1);
    assert(pixel_differs(old, new, w, x, bottom - 1));
}

} // verus!
