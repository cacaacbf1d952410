//! What one socket has carried, each way.

use vstd::prelude::*;

verus! {

/// Bytes sent and received on one socket since it opened.
///
/// Counted where every frame passes through, and shown in the panel: on a link
/// that is not loopback, the bandwidth a desktop costs is the thing worth
/// watching.
#[derive(Debug)]
pub struct Traffic {
    sent: u64,
    received: u64,
}

/// What a [`Traffic`] has counted.
pub struct Totals {
    pub received: int,
    pub sent: int,
}

impl View for Traffic {
    type V = Totals;

    closed spec fn view(&self) -> Totals {
        Totals { received: self.received as int, sent: self.sent as int }
    }
}

impl Default for Traffic {
    fn default() -> (traffic: Self)
        ensures
            traffic@ == (Totals { received: 0, sent: 0 }),
    {
        Traffic { sent: 0, received: 0 }
    }
}

impl Traffic {
    /// Totals since the socket opened: `(received, sent)`.
    #[must_use]
    pub fn totals(&self) -> (totals: (u64, u64))
        ensures
            totals.0 == self@.received,
            totals.1 == self@.sent,
    {
        (self.received, self.sent)
    }

    /// A frame of `len` bytes went out.
    pub fn count_sent(&mut self, len: usize)
        requires
            old(self)@.sent + len <= u64::MAX,
        ensures
            final(self)@ == (Totals { received: old(self)@.received, sent: old(self)@.sent + len }),
    {
        self.sent = self.sent + len as u64;
    }

    /// A frame of `len` bytes arrived.
    pub fn count_received(&mut self, len: usize)
        requires
            old(self)@.received + len <= u64::MAX,
        ensures
            final(self)@ == (Totals { received: old(self)@.received + len, sent: old(self)@.sent }),
    {
        self.received = self.received + len as u64;
    }
}

/// How many bytes went each way between two readings of the totals.
///
/// Cut off at zero, because the totals are unsigned: subtracting them the wrong
/// way round is not a small negative number, it is an enormous positive one, and
/// the panel would report gigabytes a second.
pub fn since(now: (u64, u64), last: (u64, u64)) -> (moved: (u64, u64))
    ensures
        moved.0 == (if now.0 > last.0 {
            now.0 - last.0
        } else {
            0
        }),
        moved.1 == (if now.1 > last.1 {
            now.1 - last.1
        } else {
            0
        }),
{
    (now.0.saturating_sub(last.0), now.1.saturating_sub(last.1))
}

/// What moved between two readings and the earlier reading add up to the later
/// one, each way on its own; a reading taken the wrong way round moved nothing.
pub proof fn what_moved_adds_up(now: (u64, u64), last: (u64, u64), moved: (u64, u64))
    requires
        call_ensures(since, (now, last), moved),
    ensures
        last.0 <= now.0 ==> last.0 + moved.0 == now.0,
        last.1 <= now.1 ==> last.1 + moved.1 == now.1,
        last.0 > now.0 ==> moved.0 == 0,
        last.1 > now.1 ==> moved.1 == 0,
{
}

} // verus!
