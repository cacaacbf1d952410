//! What the H.264 encoder is asked for, and when it is refused.
//!
//! The pipeline is `buffer -> hwupload -> scale_vaapi=nv12 -> h264_vaapi`. The
//! caller drives it through ffmpeg; here is which sizes it can take, how it is
//! set up, what each step that fails is called, and which frames it accepts.

use crate::text::{begins_with, chars_of, decimal, find, first_at_found, format_decimal};
use vstd::prelude::*;

verus! {

/// Why the encoder could not be built. Deliberately coarse: every one of these
/// means the same thing to the caller, which is to stay on the deflate path.
#[derive(Debug, Clone, Copy)]
pub struct Error(pub &'static str);

impl View for Error {
    type V = Seq<char>;

    open spec fn view(&self) -> Seq<char> {
        self.0@
    }
}

/// The steps of building an encoder that can fail, in the order in which they
/// are taken.
#[derive(Debug, Clone, Copy, PartialEq, Eq, Structural)]
pub enum Stage {
    /// Opening the render node.
    Device,
    /// Allocating the filter graph.
    Graph,
    /// Looking a filter up.
    FindFilter,
    /// Allocating a filter in the graph.
    AllocFilter,
    /// Attaching the device to a filter.
    AttachDevice,
    /// Initialising a filter.
    InitFilter,
    /// Linking two filters.
    Link,
    /// Configuring the graph.
    Configure,
    /// Asking the graph for its frame pool.
    Pool,
    /// Looking the encoder up.
    FindEncoder,
    /// Allocating the encoder.
    AllocEncoder,
    /// Handing the encoder the frame pool.
    SharePool,
    /// Opening the encoder.
    Open,
    /// Allocating the frames and the packet.
    Frames,
    /// Allocating the frame's pixels.
    Buffer,
}

/// What a step that failed is called.
pub open spec fn reason(stage: Stage) -> Seq<char> {
    match stage {
        Stage::Device => "no VA-API device"@,
        Stage::Graph => "filter graph alloc failed"@,
        Stage::FindFilter => "ffmpeg is missing a filter we need"@,
        Stage::AllocFilter => "filter alloc failed"@,
        Stage::AttachDevice => "could not reference the VA-API device"@,
        Stage::InitFilter => "filter creation failed"@,
        Stage::Link => "filter link failed"@,
        Stage::Configure => "filter graph will not configure"@,
        Stage::Pool => "filter graph produced no hardware frames"@,
        Stage::FindEncoder => "ffmpeg has no h264_vaapi encoder"@,
        Stage::AllocEncoder => "encoder alloc failed"@,
        Stage::SharePool => "could not reference the frame pool"@,
        Stage::Open => "h264_vaapi will not open"@,
        Stage::Frames => "frame alloc failed"@,
        Stage::Buffer => "frame buffer alloc failed"@,
    }
}

/// The error of a step that failed.
pub fn refusal(stage: Stage) -> (error: Error)
    ensures
        error@ == reason(stage),
{
    match stage {
        Stage::Device => Error("no VA-API device"),
        Stage::Graph => Error("filter graph alloc failed"),
        Stage::FindFilter => Error("ffmpeg is missing a filter we need"),
        Stage::AllocFilter => Error("filter alloc failed"),
        Stage::AttachDevice => Error("could not reference the VA-API device"),
        Stage::InitFilter => Error("filter creation failed"),
        Stage::Link => Error("filter link failed"),
        Stage::Configure => Error("filter graph will not configure"),
        Stage::Pool => Error("filter graph produced no hardware frames"),
        Stage::FindEncoder => Error("ffmpeg has no h264_vaapi encoder"),
        Stage::AllocEncoder => Error("encoder alloc failed"),
        Stage::SharePool => Error("could not reference the frame pool"),
        Stage::Open => Error("h264_vaapi will not open"),
        Stage::Frames => Error("frame alloc failed"),
        Stage::Buffer => Error("frame buffer alloc failed"),
    }
}

/// How the encoder is set up.
#[derive(Debug, Clone, Copy)]
pub struct Settings {
    pub width: i32,
    pub height: i32,
    /// Ticks a second.
    pub time_base: i32,
    pub framerate: i32,
    pub bitrate: i64,
    /// None, and so no reordering: a frame the browser cannot show until the
    /// next one arrives is a frame of added latency on every interaction.
    pub max_b_frames: i32,
    pub gop_size: i32,
}

/// Does a size have an NV12 representation? The chroma plane is half size in
/// both directions, so odd dimensions have none.
pub open spec fn has_nv12(width: u32, height: u32) -> bool {
    width != 0 && height != 0 && width % 2 == 0 && height % 2 == 0
}

/// Are there bytes enough for a packed picture of a size, four to a pixel?
pub open spec fn holds_picture(width: u32, height: u32, length: nat) -> bool {
    length >= 4 * width * height
}

/// An H.264 encoder bound to one surface size: the filter graph and the encoder
/// both bake the dimensions in, so a resize needs a new one.
#[derive(Debug)]
pub struct Encoder {
    pub width: u32,
    pub height: u32,
    /// The timestamp of the next frame.
    pub pts: i64,
}

impl Encoder {
    /// Begin an encoder for a surface size on a render node.
    ///
    /// # Errors
    /// The size has no NV12 representation, or the node has a NUL in its path.
    pub fn new(node: &str, width: u32, height: u32) -> (result: Result<Self, Error>)
        ensures
            match result {
                Ok(encoder) => has_nv12(width, height) && !node@.contains('\0') && encoder == (
                Encoder { width, height, pts: 0 }),
                Err(error) => if !has_nv12(width, height) {
                    error@ == "surface size is not encodable as NV12"@
                } else {
                    node@.contains('\0') && error@ == "render node path has a NUL"@
                },
            },
    {
        if width == 0 || height == 0 || width % 2 == 1 || height % 2 == 1 {
            return Err(Error("surface size is not encodable as NV12"));
        }
        let letters = chars_of(node);
        let at = find(&letters, '\0', 0);
        proof {
            if node@.contains('\0') {
                let k = choose|k: int| 0 <= k < node@.len() && node@[k] == '\0';
                first_at_found(node@, '\0', 0, k);
            }
        }
        if at < letters.len() {
            assert(node@[at as int] == '\0');
            return Err(Error("render node path has a NUL"));
        }
        Ok(Encoder { width, height, pts: 0 })
    }

    /// How the encoder is set up.
    ///
    /// # Errors
    /// The size is larger than the encoder can be told.
    pub fn settings(&self, bitrate: i64) -> (result: Result<Settings, Error>)
        ensures
            match result {
                Ok(settings) => settings == (Settings {
                    width: self.width as i32,
                    height: self.height as i32,
                    time_base: 1000,
                    framerate: 60,
                    bitrate,
                    max_b_frames: 0,
                    gop_size: 120,
                }) && self.width <= i32::MAX && self.height <= i32::MAX,
                Err(error) => if self.width > i32::MAX {
                    error@ == "surface too wide"@
                } else {
                    self.height > i32::MAX && error@ == "surface too tall"@
                },
            },
    {
        if self.width > i32::MAX as u32 {
            return Err(Error("surface too wide"));
        }
        if self.height > i32::MAX as u32 {
            return Err(Error("surface too tall"));
        }
        Ok(
            Settings {
                width: self.width as i32,
                height: self.height as i32,
                time_base: 1000,
                framerate: 60,
                bitrate,
                max_b_frames: 0,
                gop_size: 120,
            },
        )
    }

    /// The surface size this encoder was built for.
    #[must_use]
    pub fn size(&self) -> (size: (u32, u32))
        ensures
            size == (self.width, self.height),
    {
        (self.width, self.height)
    }

    /// Take one tightly-packed BGRA frame: the timestamp to encode it under, or
    /// nothing where the buffer is too short to hold the picture.
    #[must_use]
    pub fn accept(&mut self, bgra: &[u8]) -> (pts: Option<i64>)
        requires
            old(self).pts < i64::MAX,
        ensures
            final(self).width == old(self).width,
            final(self).height == old(self).height,
            pts is Some <==> holds_picture(old(self).width, old(self).height, bgra@.len()),
            match pts {
                Some(stamp) => bgra@.len() >= 4 * old(self).width * old(self).height && stamp
                    == old(self).pts && final(self).pts == old(self).pts + 1,
                None => bgra@.len() < 4 * old(self).width * old(self).height && final(self).pts
                    == old(self).pts,
            },
    {
        assert(self.width * 4 * self.height <= 4 * 0xffff_ffff * 0xffff_ffff) by (nonlinear_arith)
            requires
                self.width <= 0xffff_ffff,
                self.height <= 0xffff_ffff,
        ;
        assert(self.width * 4 * self.height == 4 * self.width * self.height) by (nonlinear_arith);
        let need: u128 = self.width as u128 * 4 * self.height as u128;
        if (bgra.len() as u128) < need {
            return None;
        }
        let stamp = self.pts;
        self.pts = self.pts + 1;
        Some(stamp)
    }
}

/// The arguments of the filter that frames enter the graph by.
pub open spec fn source_arguments(width: u32, height: u32, format: u32) -> Seq<char> {
    "video_size="@ + decimal(width as nat) + "x"@ + decimal(height as nat) + ":pix_fmt="@
        + decimal(format as nat) + ":time_base=1/1000:pixel_aspect=1/1"@
}

/// The arguments of the filter that frames enter the graph by, for frames of a
/// size in a pixel format.
pub fn buffer_arguments(width: u32, height: u32, format: u32) -> (text: String)
    ensures
        text@ == source_arguments(width, height, format),
{
    let mut text = "video_size=".to_string();
    text.append(format_decimal(width as u64).as_str());
    text.append("x");
    text.append(format_decimal(height as u64).as_str());
    text.append(":pix_fmt=");
    text.append(format_decimal(format as u64).as_str());
    text.append(":time_base=1/1000:pixel_aspect=1/1");
    text
}

/// An encoder is begun for the size it is asked for, where that can be halved both
/// ways, and for no other. It counts its frames from nothing.
pub proof fn an_encoder_is_for_its_size(
    node: &str,
    width: u32,
    height: u32,
    result: Result<Encoder, Error>,
)
    requires
        call_ensures(Encoder::new, (node, width, height), result),
        !node@.contains('\0'),
    ensures
        result is Ok <==> exists|across: int, down: int|
            #![trigger halved(width, across), halved(height, down)]
            halved(width, across) && halved(height, down),
        result matches Ok(encoder) ==> encoder.width == width && encoder.height == height
            && encoder.pts == 0,
{
    assert(has_nv12(width, height) ==> halved(width, width as int / 2) && halved(
        height,
        height as int / 2,
    ));
}

/// Whether a length is twice another that is not nothing.
pub open spec fn halved(length: u32, half: int) -> bool {
    half > 0 && length == 2 * half
}

/// An encoder is set up for the size it was begun for, at the rate it is given, and
/// never to reorder frames.
pub proof fn an_encoder_is_set_up_as_asked(
    encoder: Encoder,
    bitrate: i64,
    result: Result<Settings, Error>,
)
    requires
        call_ensures(Encoder::settings, (&encoder, bitrate), result),
    ensures
        result is Ok <==> encoder.width <= i32::MAX && encoder.height <= i32::MAX,
        result matches Ok(settings) ==> settings.width == encoder.width && settings.height
            == encoder.height && settings.bitrate == bitrate && settings.max_b_frames == 0
            && settings.gop_size > 0,
{
}

/// The filter that frames enter by is told the width, then the height, then the
/// pixel format.
pub proof fn frames_enter_as_they_are(width: u32, height: u32, format: u32)
    ensures
        begins_with(
            source_arguments(width, height, format),
            "video_size="@ + decimal(width as nat),
        ),
        begins_with(
            source_arguments(width, height, format).skip(
                ("video_size="@ + decimal(width as nat)).len() as int,
            ),
            "x"@ + decimal(height as nat) + ":pix_fmt="@ + decimal(format as nat) + ":"@,
        ),
{
    let text = source_arguments(width, height, format);
    let front = "video_size="@ + decimal(width as nat);
    let middle = "x"@ + decimal(height as nat) + ":pix_fmt="@ + decimal(format as nat);
    let end = ":time_base=1/1000:pixel_aspect=1/1"@;
    reveal_strlit(":time_base=1/1000:pixel_aspect=1/1");
    reveal_strlit(":");
    assert(text =~= front + middle + end);
    assert(text.take(front.len() as int) =~= front);
    assert(text.skip(front.len() as int) =~= middle + end);
    assert((middle + end).take(middle.len() as int + 1) =~= middle + ":"@);
}

/// A frame that is taken holds four bytes for every pixel of the picture, the last
/// one included, and one that is not taken lacks some.
pub proof fn a_frame_that_is_taken_is_whole(width: u32, height: u32, length: nat)
    requires
        width > 0,
        height > 0,
    ensures
        holds_picture(width, height, length) <==> 4 * ((height - 1) * width + (width - 1)) + 4
            <= length,
{
    assert((height - 1) * width + width == height * width) by (nonlinear_arith);
    assert(4 * width * height == 4 * (height * width)) by (nonlinear_arith);
}

} // verus!
