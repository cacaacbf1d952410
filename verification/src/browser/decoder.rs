//! When the video decoder can take a frame, and what it needs first.
//!
//! The decoder itself is the browser's. Here is what it is told: nothing before
//! the first keyframe, the codec out of that keyframe's own SPS, and then one
//! chunk after the other. Presentation is what acks a frame to the compositor,
//! so the answer always says whether a picture is still to come.

use crate::browser::annexb::{codec_string, has_idr, is_codec, is_keyframe};
use vstd::prelude::*;

verus! {

/// How far apart the timestamps of two chunks are. They only have to increase:
/// the compositor sends a frame when something changed, not on a clock.
pub const CHUNK_DURATION: i32 = 1000;

/// One chunk for the decoder's queue.
#[derive(Debug, Clone, Copy, PartialEq, Eq, Structural)]
pub struct Chunk {
    /// A picture that stands alone, rather than a change to the last one.
    pub key: bool,
    pub timestamp: i32,
}

/// What to do with an access unit.
#[derive(Debug)]
pub enum Feed {
    /// Nothing: no picture comes of it.
    Drop,
    /// Configure the decoder for this codec, and say how that went.
    Configure(String),
    /// Queue it.
    Queue(Chunk),
}

/// What a [`Feed`] says.
pub enum FeedView {
    Drop,
    Configure(Seq<char>),
    Queue(Chunk),
}

impl View for Feed {
    type V = FeedView;

    open spec fn view(&self) -> FeedView {
        match self {
            Feed::Drop => FeedView::Drop,
            Feed::Configure(codec) => FeedView::Configure(codec@),
            Feed::Queue(chunk) => FeedView::Queue(*chunk),
        }
    }
}

/// A decoder, configured from the first keyframe it is given.
#[derive(Debug, Clone, Copy, PartialEq, Eq, Structural)]
pub struct Decoder {
    pub configured: bool,
    /// Set when there is nothing to decode until a keyframe arrives, and the
    /// compositor has not been asked for one yet.
    pub wants_keyframe: bool,
    pub timestamp: i32,
}

impl Decoder {
    /// The decoder once there is nothing behind it to decode with.
    pub open spec fn emptied(self) -> Decoder {
        Decoder { configured: false, wants_keyframe: true, ..self }
    }

    /// The decoder once a keyframe was asked for.
    pub open spec fn asked(self) -> Decoder {
        Decoder { wants_keyframe: false, ..self }
    }
}

/// The timestamp after this one, starting over past the largest.
pub open spec fn next_timestamp(timestamp: i32) -> i32 {
    if timestamp + CHUNK_DURATION > i32::MAX {
        (timestamp + CHUNK_DURATION - 0x1_0000_0000) as i32
    } else {
        (timestamp + CHUNK_DURATION) as i32
    }
}

impl Decoder {
    /// A decoder that has been given nothing yet.
    #[must_use]
    pub fn new() -> (decoder: Self)
        ensures
            decoder == (Decoder { configured: false, wants_keyframe: false, timestamp: 0 }),
    {
        Decoder { configured: false, wants_keyframe: false, timestamp: 0 }
    }

    /// The decoder reported an error, which closes it for good. There is nothing
    /// to decode with now, and its replacement will have no reference frames.
    pub fn failed(&mut self)
        ensures
            *final(self) == old(self).emptied(),
            *final(self) == (Decoder { configured: false, wants_keyframe: true, ..*old(self) }),
    {
        self.configured = false;
        self.wants_keyframe = true;
    }

    /// A closed decoder was replaced by a fresh one.
    pub fn reopened(&mut self)
        ensures
            *final(self) == old(self).emptied(),
            *final(self) == (Decoder { configured: false, wants_keyframe: true, ..*old(self) }),
    {
        self.configured = false;
        self.wants_keyframe = true;
    }

    /// Whether the compositor should be asked for a keyframe, answered once per
    /// episode: the caller sends one message, not one per frame it drops.
    pub fn take_keyframe_request(&mut self) -> (asks: bool)
        ensures
            asks == old(self).wants_keyframe,
            *final(self) == old(self).asked(),
            *final(self) == (Decoder { wants_keyframe: false, ..*old(self) }),
    {
        let asks = self.wants_keyframe;
        self.wants_keyframe = false;
        asks
    }

    /// The chunk that an access unit becomes.
    fn chunk(&mut self, payload: &[u8]) -> (chunk: Chunk)
        ensures
            chunk == (Chunk { key: has_idr(payload@), timestamp: old(self).timestamp }),
            *final(self) == (Decoder {
                timestamp: next_timestamp(old(self).timestamp),
                ..*old(self)
            }),
    {
        let timestamp = self.timestamp;
        let next: i32 = if timestamp > i32::MAX - CHUNK_DURATION {
            (timestamp as i64 + CHUNK_DURATION as i64 - 0x1_0000_0000i64) as i32
        } else {
            timestamp + CHUNK_DURATION
        };
        self.timestamp = next;
        Chunk { key: is_keyframe(payload), timestamp }
    }

    /// Feed one Annex B access unit.
    ///
    /// Everything before the first keyframe is dropped: a decoder configured
    /// from a mid-stream P-frame has no reference to decode against, and none of
    /// the frames that follow it either, until the compositor sends a keyframe
    /// to start again from. A keyframe without an SPS is dropped too.
    pub fn decode(&mut self, payload: &[u8]) -> (feed: Feed)
        ensures
            feed_follows(*old(self), payload@, feed@, *final(self)),
            match feed {
                Feed::Queue(chunk) => {
                    &&& old(self).configured
                    &&& chunk == (Chunk {
                        key: has_idr(payload@),
                        timestamp: old(self).timestamp,
                    })
                    &&& *final(self) == (Decoder {
                        timestamp: next_timestamp(old(self).timestamp),
                        ..*old(self)
                    })
                },
                Feed::Configure(codec) => {
                    &&& !old(self).configured
                    &&& has_idr(payload@)
                    &&& is_codec(payload@, Some(codec@))
                    &&& *final(self) == *old(self)
                },
                Feed::Drop => {
                    &&& !old(self).configured
                    &&& has_idr(payload@) ==> is_codec(payload@, None)
                    &&& *final(self) == (Decoder {
                        wants_keyframe: old(self).wants_keyframe || !has_idr(payload@),
                        ..*old(self)
                    })
                },
            },
    {
        if self.configured {
            return Feed::Queue(self.chunk(payload));
        }
        if !is_keyframe(payload) {
            self.wants_keyframe = true;
            return Feed::Drop;
        }
        match codec_string(payload) {
            Some(codec) => Feed::Configure(codec),
            None => Feed::Drop,
        }
    }

    /// What to do with the access unit that a configuration was asked for, once
    /// it is known how that went.
    pub fn configured(&mut self, payload: &[u8], accepted: bool) -> (feed: Feed)
        ensures
            !accepted ==> feed is Drop && *final(self) == *old(self),
            accepted ==> feed@ == FeedView::Queue(
                Chunk { key: has_idr(payload@), timestamp: old(self).timestamp },
            ) && *final(self) == (Decoder {
                configured: true,
                timestamp: next_timestamp(old(self).timestamp),
                ..*old(self)
            }),
    {
        if !accepted {
            return Feed::Drop;
        }
        self.configured = true;
        Feed::Queue(self.chunk(payload))
    }
}

/// Nothing is decoded before a keyframe: whatever is fed to a decoder that is
/// not configured, only a keyframe asks for a configuration, and a decoder that
/// dropped anything else asks the compositor for one.
pub proof fn decoding_starts_at_a_keyframe(before: Decoder, payload: Seq<u8>, feed: FeedView, after: Decoder)
    requires
        !before.configured,
        feed_follows(before, payload, feed, after),
    ensures
        feed !is Queue,
        feed is Configure ==> has_idr(payload),
        !has_idr(payload) ==> feed is Drop && after.wants_keyframe,
        !after.configured,
{
}

/// What [`Decoder::decode`] promises of one access unit.
pub open spec fn feed_follows(
    before: Decoder,
    payload: Seq<u8>,
    feed: FeedView,
    after: Decoder,
) -> bool {
    match feed {
        FeedView::Queue(chunk) => before.configured && chunk == (Chunk {
            key: has_idr(payload),
            timestamp: before.timestamp,
        }) && after == (Decoder { timestamp: next_timestamp(before.timestamp), ..before }),
        FeedView::Configure(codec) => !before.configured && has_idr(payload) && is_codec(
            payload,
            Some(codec),
        ) && after == before,
        FeedView::Drop => !before.configured && (has_idr(payload) ==> is_codec(payload, None))
            && after == (Decoder {
            wants_keyframe: before.wants_keyframe || !has_idr(payload),
            ..before
        }),
    }
}

/// Once it is configured a decoder takes everything, in order: each chunk stands
/// alone exactly where it holds a keyframe, and comes later than the one before,
/// until the count starts over.
pub proof fn a_configured_decoder_takes_everything(
    before: Decoder,
    payload: Seq<u8>,
    feed: FeedView,
    after: Decoder,
)
    requires
        before.configured,
        feed_follows(before, payload, feed, after),
    ensures
        feed matches FeedView::Queue(chunk) && chunk.key == has_idr(payload) && chunk.timestamp
            == before.timestamp,
        after.configured,
        after.wants_keyframe == before.wants_keyframe,
        before.timestamp <= i32::MAX - 1000 ==> after.timestamp == before.timestamp + 1000,
{
}

/// A decoder that failed or was replaced takes nothing until it is configured
/// again, and asks for the keyframe that takes once.
pub proof fn a_closed_decoder_starts_over(
    decoder: Decoder,
    payload: Seq<u8>,
    feed: FeedView,
    after: Decoder,
)
    requires
        feed_follows(decoder.emptied(), payload, feed, after),
    ensures
        feed !is Queue,
        !after.configured,
        after.wants_keyframe,
        after.timestamp == decoder.timestamp,
        after.asked().wants_keyframe == false,
        after.asked().configured == after.configured,
        after.asked().timestamp == after.timestamp,
{
}

/// Chunks are one duration apart, around the whole circle of timestamps.
pub proof fn timestamps_go_round(timestamp: i32)
    ensures
        (next_timestamp(timestamp) - timestamp - CHUNK_DURATION) % 0x1_0000_0000 == 0,
{
}

} // verus!
