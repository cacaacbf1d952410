//! Compression of raw pixel buffers.

use crate::protocol::wire::WireError;
use vstd::prelude::*;

verus! {

/// What `miniz_oxide::deflate::compress_to_vec` makes of its input at a
/// compression level.
pub uninterp spec fn compressed(bytes: Seq<u8>, level: u8) -> Seq<u8>;

/// What `miniz_oxide::inflate::decompress_to_vec` makes of its input: the
/// decompressed bytes, or the error as `Debug` prints it.
pub uninterp spec fn decompressed(bytes: Seq<u8>) -> Result<Seq<u8>, Seq<char>>;

/// `miniz_oxide::deflate::compress_to_vec`, documented for levels 0 to 10. The
/// crate's own documentation shows the round trip: `decompress_to_vec` of what
/// comes out is what went in.
#[verifier::external_body]
fn compress_to_vec(bytes: &[u8], level: u8) -> (packed: Vec<u8>)
    requires
        level <= 10,
    ensures
        packed@ == compressed(bytes@, level),
        decompressed(packed@) is Ok,
        decompressed(packed@)->Ok_0 == bytes@,
{
    miniz_oxide::deflate::compress_to_vec(bytes, level)
}

/// `miniz_oxide::inflate::decompress_to_vec`, its error as `Debug` prints it.
#[verifier::external_body]
fn decompress_to_vec(bytes: &[u8]) -> (result: Result<Vec<u8>, String>)
    ensures
        match decompressed(bytes@) {
            Ok(value) => result is Ok && result->Ok_0@ == value,
            Err(text) => result is Err && result->Err_0@ == text,
        },
{
    miniz_oxide::inflate::decompress_to_vec(bytes).map_err(|err| format!("{err:?}"))
}

/// What an inflated payload is, given what the decompressor made of it.
pub open spec fn inflated(outcome: Result<Seq<u8>, Seq<char>>) -> Result<Seq<u8>, Seq<char>> {
    match outcome {
        Ok(bytes) => Ok(bytes),
        Err(text) => Err("inflate: "@ + text),
    }
}

/// Compress a raw pixel buffer for a `Codec::Deflate` frame. Level 1: fast,
/// and repetitive UI and terminal pixels still shrink enormously.
///
/// Inflating what comes out gives back what went in.
#[must_use]
pub fn deflate(bytes: &[u8]) -> (packed: Vec<u8>)
    ensures
        packed@ == compressed(bytes@, 1),
        inflated(decompressed(packed@)) == Ok::<Seq<u8>, Seq<char>>(bytes@),
{
    compress_to_vec(bytes, 1)
}

/// Decompress a `Codec::Deflate` payload back to raw pixels.
pub fn inflate(bytes: &[u8]) -> (result: Result<Vec<u8>, WireError>)
    ensures
        match inflated(decompressed(bytes@)) {
            Ok(value) => result matches Ok(pixels) && pixels@ == value,
            Err(text) => result matches Err(WireError::Decode(message)) && message@ == text,
        },
{
    settle(decompress_to_vec(bytes))
}

/// The inflated payload or the error to report, from the decompressor's outcome.
pub fn settle(outcome: Result<Vec<u8>, String>) -> (result: Result<Vec<u8>, WireError>)
    ensures
        match outcome {
            Ok(bytes) => result == Ok::<Vec<u8>, WireError>(bytes),
            Err(text) => result matches Err(WireError::Decode(message)) && message@
                == "inflate: "@ + text@,
        },
{
    match outcome {
        Ok(bytes) => Ok(bytes),
        Err(text) => Err(WireError::Decode("inflate: ".to_owned().concat(text.as_str()))),
    }
}

/// What was made smaller is made whole again, byte for byte, and nothing that the
/// decompressor makes whole is refused.
pub proof fn inflating_undoes_deflating(
    bytes: &[u8],
    packed: Vec<u8>,
    payload: &[u8],
    result: Result<Vec<u8>, WireError>,
)
    requires
        call_ensures(deflate, (bytes,), packed),
        payload@ == packed@,
        call_ensures(inflate, (payload,), result),
    ensures
        result matches Ok(pixels) && pixels@ == bytes@,
{
}

} // verus!
