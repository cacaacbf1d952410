//! A surface rebuilt from what was sent, the way the browser holds it.
//!
//! This is how the stream is measured: every damage rectangle is applied to a
//! copy, and a whole surface asked for at the end must find the copy identical,
//! or the browser's would be quietly wrong too.

use crate::browser::canvas::{pixels_of, raw_pixels};
use crate::compositor::damage::{blitted, inside, pixel_at};
use crate::geometry::{Rect, Size};
use crate::protocol::deflate::decompressed;
use crate::protocol::messages::{Codec, SurfaceFrame};
use crate::text::{begins_with, decimal, format_decimal};
use vstd::prelude::*;

verus! {

/// One surface as the browser would hold it.
#[derive(Debug)]
pub struct Mirror {
    size: Size,
    pixels: Vec<u8>,
}

/// What a [`Mirror`] holds.
#[verifier::ext_equal]
pub struct MirrorView {
    pub size: Size,
    pub pixels: Seq<u8>,
}

impl View for Mirror {
    type V = MirrorView;

    closed spec fn view(&self) -> MirrorView {
        MirrorView { size: self.size, pixels: self.pixels@ }
    }
}

impl MirrorView {
    /// Are there exactly as many pixels as the size calls for?
    pub open spec fn whole(self) -> bool {
        self.pixels.len() == self.size.height * self.size.width * 4
    }
}

/// In how many places two sequences of the same length differ.
pub open spec fn differences(one: Seq<u8>, other: Seq<u8>) -> nat
    decreases one.len(),
{
    if one.len() == 0 || other.len() == 0 {
        0
    } else {
        differences(one.drop_last(), other.drop_last()) + (if one.last() != other.last() {
            1nat
        } else {
            0nat
        })
    }
}

/// Can a frame's pixels be applied: exactly one region, inside the surface, and
/// as many pixels as it takes?
pub open spec fn applicable(size: Size, pixels: Seq<u8>, damage: Seq<Rect>) -> bool {
    &&& damage.len() == 1
    &&& inside(damage[0], size)
    &&& pixels.len() == damage[0].width * damage[0].height * 4
}

/// Does a region cover the whole surface?
pub open spec fn covers_all(region: Rect, size: Size) -> bool {
    region.width == size.width && region.height == size.height
}

/// What a comparison found, in words.
pub open spec fn verdict_text(differing: nat, total: nat) -> Seq<char> {
    if differing == 0 {
        "reconstructed exactly from damage"@
    } else {
        "reconstruction differs in "@ + decimal(differing) + " of "@ + decimal(total)
            + " bytes (expected while a client is drawing)"@
    }
}

/// What a comparison found, in words.
pub fn verdict(differing: usize, total: usize) -> (text: String)
    ensures
        text@ == verdict_text(differing as nat, total as nat),
{
    if differing == 0 {
        return "reconstructed exactly from damage".to_string();
    }
    let mut text = "reconstruction differs in ".to_string();
    text.append(format_decimal(differing as u64).as_str());
    text.append(" of ");
    text.append(format_decimal(total as u64).as_str());
    text.append(" bytes (expected while a client is drawing)");
    text
}

proof fn differences_extend(one: Seq<u8>, other: Seq<u8>, i: int)
    requires
        0 <= i < one.len(),
        one.len() == other.len(),
    ensures
        differences(one.take(i + 1), other.take(i + 1)) == differences(
            one.take(i),
            other.take(i),
        ) + (if one[i] != other[i] {
            1nat
        } else {
            0nat
        }),
{
    assert(one.take(i + 1).drop_last() =~= one.take(i));
    assert(other.take(i + 1).drop_last() =~= other.take(i));
}

fn count_differences(one: &Vec<u8>, other: &Vec<u8>) -> (count: usize)
    requires
        one@.len() == other@.len(),
    ensures
        count == differences(one@, other@),
        count <= one@.len(),
{
    let mut count: usize = 0;
    let mut i: usize = 0;
    while i < one.len()
        invariant
            i <= one@.len(),
            one@.len() == other@.len(),
            count <= i,
            count == differences(one@.take(i as int), other@.take(i as int)),
        decreases one@.len() - i,
    {
        proof {
            differences_extend(one@, other@, i as int);
        }
        if one[i] != other[i] {
            count += 1;
        }
        i += 1;
    }
    assert(one@.take(i as int) =~= one@);
    assert(other@.take(i as int) =~= other@);
    count
}

/// A pixel of a region is found in its pixels.
proof fn pixel_in_region(width: int, height: int, x: int, y: int, k: int)
    requires
        0 <= x < width,
        0 <= y < height,
        0 <= k < 4,
    ensures
        0 <= y * width,
        0 <= pixel_at(width, x, y) + k < width * height * 4,
{
    assert(0 <= y * width) by (nonlinear_arith)
        requires
            0 <= y,
            0 < width,
    ;
    assert(y * width + x <= width * height - 1) by (nonlinear_arith)
        requires
            0 <= x < width,
            0 <= y < height,
    ;
}

/// Put a region's pixels into a picture of a width.
fn blit(canvas: &Vec<u8>, width: u32, region: Rect, payload: &Vec<u8>) -> (result: Vec<u8>)
    requires
        canvas@.len() > 0 ==> width > 0,
        0 <= region.x,
        0 <= region.y,
        payload@.len() == region.width * region.height * 4,
    ensures
        result@ == blitted(canvas@, width as int, region, payload@),
{
    let mut result: Vec<u8> = Vec::new();
    let mut i: usize = 0;
    let ghost goal = blitted(canvas@, width as int, region, payload@);
    assert(payload.len() == payload@.len());
    while i < canvas.len()
        invariant
            i <= canvas@.len(),
            canvas@.len() > 0 ==> width > 0,
            0 <= region.x,
            0 <= region.y,
            payload.len() == payload@.len(),
            payload@.len() == region.width * region.height * 4,
            goal == blitted(canvas@, width as int, region, payload@),
            result@ =~= goal.take(i as int),
        decreases canvas@.len() - i,
    {
        let pixel: u64 = (i / 4) as u64;
        let px: u64 = pixel % (width as u64);
        let py: u64 = pixel / (width as u64);
        let left: u64 = region.x as u64;
        let top: u64 = region.y as u64;
        if px >= left && px - left < region.width as u64 && py >= top && py - top
            < region.height as u64 {
            let x: u64 = px - left;
            let y: u64 = py - top;
            proof {
                pixel_in_region(
                    region.width as int,
                    region.height as int,
                    x as int,
                    y as int,
                    i as int % 4,
                );
                assert(pixel_at(region.width as int, x as int, y as int) == (y * region.width + x)
                    * 4);
            }
            let at: usize = ((y as usize) * (region.width as usize) + (x as usize)) * 4 + i % 4;
            result.push(payload[at]);
        } else {
            result.push(canvas[i]);
        }
        i += 1;
    }
    assert(result@ =~= goal);
    result
}

impl Mirror {
    /// Are there exactly as many pixels as the size calls for?
    #[verifier::type_invariant]
    spec fn well_formed(self) -> bool {
        self.pixels@.len() == self.size.height * self.size.width * 4
    }

    /// A surface nothing has been drawn on yet.
    pub fn new(size: Size) -> (mirror: Self)
        requires
            size.height * size.width * 4 <= usize::MAX,
        ensures
            mirror@.size == size,
            mirror@.whole(),
            forall|i: int| 0 <= i < mirror@.pixels.len() ==> mirror@.pixels[i] == 0,
    {
        assert(0 <= size.height * size.width) by (nonlinear_arith)
            requires
                0 <= size.height,
                0 <= size.width,
        ;
        let count: usize = size.height as usize * size.width as usize * 4;
        let mut pixels: Vec<u8> = Vec::new();
        let mut i: usize = 0;
        while i < count
            invariant
                i <= count,
                pixels@.len() == i,
                forall|j: int| 0 <= j < i ==> pixels@[j] == 0,
            decreases count - i,
        {
            pixels.push(0);
            i += 1;
        }
        Mirror { size, pixels }
    }

    /// The surface's size.
    pub fn size(&self) -> (size: Size)
        ensures
            size == self@.size,
    {
        self.size
    }

    /// The surface's pixels.
    pub fn pixels(&self) -> (pixels: &Vec<u8>)
        ensures
            pixels@ == self@.pixels,
    {
        &self.pixels
    }

    /// Put a frame's pixels into the copy, exactly as the browser does. When
    /// `check` is set and they cover the whole surface, say first in how many
    /// bytes the copy differed from them.
    ///
    /// # Errors
    /// The frame cannot be applied: its damage is not one rectangle inside the
    /// surface, or its pixels do not fill it. The copy stays as it was.
    pub fn patch(&mut self, pixels: &Vec<u8>, damage: &Vec<Rect>, check: bool) -> (result: Result<
        Option<usize>,
        (),
    >)
        ensures
            final(self)@.size == old(self)@.size,
            match result {
                Ok(found) => {
                    &&& applicable(old(self)@.size, pixels@, damage@)
                    &&& final(self)@.pixels == blitted(
                        old(self)@.pixels,
                        old(self)@.size.width as int,
                        damage@[0],
                        pixels@,
                    )
                    &&& found is Some <==> check && covers_all(damage@[0], old(self)@.size)
                    &&& found is Some ==> found->0 == differences(pixels@, old(self)@.pixels)
                },
                Err(()) => !applicable(old(self)@.size, pixels@, damage@) && final(self)@
                    == old(self)@,
            },
    {
        proof {
            use_type_invariant(&*self);
        }
        if damage.len() != 1 {
            return Err(());
        }
        let region = damage[0];
        if region.x < 0 || region.y < 0 || region.x as u64 + region.width as u64
            > self.size.width as u64 || region.y as u64 + region.height as u64
            > self.size.height as u64 {
            return Err(());
        }
        proof {
            assert(0 <= region.width * region.height <= 0xffff_ffff * 0xffff_ffff)
                by (nonlinear_arith)
                requires
                    0 <= region.width <= 0xffff_ffff,
                    0 <= region.height <= 0xffff_ffff,
            ;
        }
        let expected: u128 = region.width as u128 * region.height as u128 * 4;
        if pixels.len() as u128 != expected {
            return Err(());
        }
        let whole = region.width == self.size.width && region.height == self.size.height;
        let mut found: Option<usize> = None;
        if check && whole {
            assert(self.size.height * self.size.width * 4 == region.width * region.height * 4)
                by (nonlinear_arith)
                requires
                    region.width == self.size.width,
                    region.height == self.size.height,
            ;
            found = Some(count_differences(pixels, &self.pixels));
        }
        proof {
            if self.size.width == 0 {
                assert(self.size.height * self.size.width == 0) by (nonlinear_arith)
                    requires
                        self.size.width == 0,
                ;
            }
        }
        let next = blit(&self.pixels, self.size.width, region, pixels);
        self.pixels = next;
        Ok(found)
    }

    /// Apply a frame to the copy, as [`Mirror::patch`] does with its pixels; what
    /// a check found is told in words. A video frame says nothing here: checking
    /// it would mean decoding video.
    ///
    /// # Errors
    /// The frame's payload cannot be inflated, or cannot be applied.
    pub fn apply(&mut self, frame: &SurfaceFrame, check: bool) -> (result: Result<
        Option<String>,
        (),
    >)
        ensures
            final(self)@.size == old(self)@.size,
            ({
                let pixels = raw_pixels(frame.deep_view(), decompressed(frame.payload@));
                match result {
                    Ok(found) => if frame.codec == Codec::H264 {
                        found is None && final(self)@ == old(self)@
                    } else {
                        &&& pixels is Some
                        &&& applicable(old(self)@.size, pixels->0, frame.damage@)
                        &&& final(self)@.pixels == blitted(
                            old(self)@.pixels,
                            old(self)@.size.width as int,
                            frame.damage@[0],
                            pixels->0,
                        )
                        &&& found is Some <==> check && covers_all(
                            frame.damage@[0],
                            old(self)@.size,
                        )
                        &&& found is Some ==> found->0@ == verdict_text(
                            differences(pixels->0, old(self)@.pixels),
                            pixels->0.len(),
                        )
                    },
                    Err(()) => {
                        &&& frame.codec != Codec::H264
                        &&& pixels is None || !applicable(
                            old(self)@.size,
                            pixels->0,
                            frame.damage@,
                        )
                        &&& final(self)@ == old(self)@
                    },
                }
            }),
    {
        if frame.codec == Codec::H264 {
            return Ok(None);
        }
        match pixels_of(frame) {
            None => Err(()),
            Some(pixels) => {
                assert(pixels.deep_view() =~= pixels@);
                match self.patch(&pixels, &frame.damage, check) {
                    Err(()) => Err(()),
                    Ok(None) => Ok(None),
                    Ok(Some(differing)) => Ok(Some(verdict(differing, pixels.len()))),
                }
            },
        }
    }
}

proof fn nothing_differs(picture: Seq<u8>)
    ensures
        differences(picture, picture) == 0,
    decreases picture.len(),
{
    if picture.len() > 0 {
        nothing_differs(picture.drop_last());
    }
}

/// A copy that holds what was sent is found identical.
pub proof fn an_exact_copy_is_recognised(pixels: Seq<u8>, total: nat)
    ensures
        verdict_text(differences(pixels, pixels), total) == "reconstructed exactly from damage"@,
{
    nothing_differs(pixels);
}

/// A check finds a copy identical exactly where it is.
pub proof fn a_check_finds_every_difference(one: Seq<u8>, other: Seq<u8>)
    requires
        one.len() == other.len(),
    ensures
        differences(one, other) == 0 <==> one == other,
        differences(one, other) <= one.len(),
        differences(one, other) == differences(other, one),
    decreases one.len(),
{
    if one.len() == 0 {
        assert(one =~= other);
    } else {
        let (a, b) = (one.drop_last(), other.drop_last());
        a_check_finds_every_difference(a, b);
        assert(one =~= a.push(one.last()));
        assert(other =~= b.push(other.last()));
        if a == b && one.last() == other.last() {
            assert(one =~= other);
        }
    }
}

/// One more byte on each side is one more difference, or none.
pub proof fn differences_are_counted_byte_by_byte(
    one: Seq<u8>,
    other: Seq<u8>,
    last: u8,
    least: u8,
)
    requires
        one.len() == other.len(),
    ensures
        differences(one.push(last), other.push(least)) == differences(one, other) + (if last
            == least {
            0nat
        } else {
            1nat
        }),
{
    assert(one.push(last).drop_last() =~= one);
    assert(other.push(least).drop_last() =~= other);
}

/// A frame is applied where its one region lies on the surface and its pixels fill
/// it. A region that covers the whole surface begins at the corner.
pub proof fn a_frame_is_applied_where_it_fits(size: Size, pixels: Seq<u8>, region: Rect)
    ensures
        applicable(size, pixels, seq![region]) <==> 0 <= region.x && 0 <= region.y && region.x
            + region.width <= size.width && region.y + region.height <= size.height && pixels.len()
            == region.width * region.height * 4,
        !applicable(size, pixels, Seq::empty()),
        !applicable(size, pixels, seq![region, region]),
        covers_all(region, size) && applicable(size, pixels, seq![region]) ==> region.x == 0
            && region.y == 0 && pixels.len() == size.width * size.height * 4,
        region.width < size.width || region.height < size.height ==> !covers_all(region, size),
{
}

/// A check that found a difference says how many bytes differ, and of how many.
pub proof fn a_verdict_says_how_much_differs(differing: nat, total: nat)
    requires
        differing > 0,
    ensures
        begins_with(
            verdict_text(differing, total),
            "reconstruction differs in "@ + decimal(differing) + " of "@ + decimal(total),
        ),
{
    let front = "reconstruction differs in "@ + decimal(differing) + " of "@ + decimal(total);
    assert(verdict_text(differing, total).take(front.len() as int) =~= front);
}

} // verus!
