//! Paces `wl_surface.frame` callbacks against the browser.
//!
//! Wayland clients redraw only when the compositor fires their frame callback.
//! Firing on the compositor's own loop rate lets a client run ahead of a browser
//! that cannot keep up: it renders into frames that are then discarded, and
//! latency grows without bound. So a callback costs credit, and credit comes
//! from the browser saying it presented.
//!
//! Times are nanoseconds on one monotonic clock.

use std::collections::VecDeque;
use vstd::prelude::*;

verus! {

/// How many frame callbacks may be outstanding before the browser has to catch
/// up. More than one, so a client is not stalled by a single round trip.
pub const INITIAL_FRAME_CREDIT: i32 = 2;

/// Fire callbacks this often even with no credit, so clients still make progress
/// when no browser is attached. Otherwise nothing ever renders, nothing is ever
/// sent, and no ack can arrive: a deadlock.
pub const IDLE_FRAME_INTERVAL: u64 = 250_000_000;

/// The frame interval the pipe is sized against, in microseconds: 60 Hz.
pub const FRAME_INTERVAL_MICROS: u64 = 16_000;

/// The most frames allowed in flight, however long the round trip.
///
/// At 60 Hz it is a fifth of a second of queued frames, and a link slower than
/// that should drop frames rather than build a queue nobody wants to watch.
pub const MAX_FRAME_CREDIT: i32 = 12;

/// The most unacknowledged frames whose sending time is remembered.
pub const MAX_REMEMBERED: usize = 48;

/// A surface's frame clock.
pub struct FrameClock {
    credit: i32,
    /// How many frames may be in flight at once. Adaptive: see [`FrameClock::on_ack`].
    ceiling: i32,
    last_tick: u64,
    /// When each unacknowledged frame was sent, oldest first.
    ///
    /// Acks arrive in the order the frames were sent, so pairing them off gives
    /// an exact round trip rather than an estimate.
    sent: VecDeque<u64>,
    /// Smoothed round trip to the browser and back; zero before the first one.
    round_trip: u64,
}

/// What a [`FrameClock`] holds.
#[verifier::ext_equal]
pub struct ClockView {
    pub credit: int,
    pub ceiling: int,
    pub last_tick: int,
    pub sent: Seq<u64>,
    pub round_trip: int,
}

/// The time from `earlier` to `later`; zero where they are the other way round.
pub open spec fn elapsed(earlier: int, later: int) -> int {
    if later > earlier {
        later - earlier
    } else {
        0
    }
}

/// The smoothed round trip after one more sample: the sample itself the first
/// time, and a quarter of the way towards it from then on.
pub open spec fn smoothed(round_trip: int, sample: int) -> int {
    if round_trip == 0 {
        sample
    } else {
        (round_trip * 3 + sample) / 4
    }
}

/// How many whole frame intervals fit in a round trip.
pub open spec fn frames_in_pipe(round_trip: int) -> int {
    round_trip / 1000 / FRAME_INTERVAL_MICROS as int
}

/// The number of frames that may be in flight over a link with this round trip:
/// those that fit in it, but never fewer than the initial two and never more than
/// the bound.
pub open spec fn ceiling_for(round_trip: int) -> int {
    let fits = frames_in_pipe(round_trip);
    if fits < INITIAL_FRAME_CREDIT {
        INITIAL_FRAME_CREDIT as int
    } else if fits > MAX_FRAME_CREDIT {
        MAX_FRAME_CREDIT as int
    } else {
        fits
    }
}

impl ClockView {
    /// A clock that has just been started.
    pub open spec fn started(now: u64) -> ClockView {
        ClockView {
            credit: INITIAL_FRAME_CREDIT as int,
            ceiling: INITIAL_FRAME_CREDIT as int,
            last_tick: now as int,
            sent: Seq::empty(),
            round_trip: 0,
        }
    }

    /// What always holds of a clock.
    pub open spec fn valid(self) -> bool {
        &&& 0 <= self.credit <= self.ceiling
        &&& INITIAL_FRAME_CREDIT <= self.ceiling <= MAX_FRAME_CREDIT
        &&& self.sent.len() <= MAX_REMEMBERED
    }

    /// The clock after a frame was sent at `now`.
    pub open spec fn after_send(self, now: u64) -> ClockView {
        let remembered = if self.sent.len() >= MAX_REMEMBERED {
            self.sent.drop_first()
        } else {
            self.sent
        };
        ClockView { sent: remembered.push(now), ..self }
    }

    /// The round trip after an ack at `now`.
    pub open spec fn round_trip_after(self, now: u64) -> int {
        if self.sent.len() > 0 {
            smoothed(self.round_trip, elapsed(self.sent[0] as int, now as int))
        } else {
            self.round_trip
        }
    }

    /// The ceiling after an ack at `now`: only an ack that pairs off with a frame
    /// measures anything.
    pub open spec fn ceiling_after(self, now: u64) -> int {
        if self.sent.len() > 0 {
            ceiling_for(self.round_trip_after(now))
        } else {
            self.ceiling
        }
    }

    /// The clock after the browser acknowledged a frame at `now`.
    pub open spec fn after_ack(self, now: u64) -> ClockView {
        let ceiling = self.ceiling_after(now);
        ClockView {
            credit: if self.credit + 1 <= ceiling {
                self.credit + 1
            } else {
                ceiling
            },
            ceiling,
            sent: if self.sent.len() > 0 {
                self.sent.drop_first()
            } else {
                self.sent
            },
            round_trip: self.round_trip_after(now),
            last_tick: self.last_tick,
        }
    }

    /// Whether a callback is due at `now`: there is credit to spend, or the
    /// clock has been quiet for the idle interval.
    pub open spec fn ticks(self, now: u64) -> bool {
        self.credit > 0 || elapsed(self.last_tick, now as int) >= IDLE_FRAME_INTERVAL
    }

    /// The clock after it was asked at `now`.
    pub open spec fn after_tick(self, now: u64) -> ClockView {
        if self.credit > 0 {
            ClockView { credit: self.credit - 1, last_tick: now as int, ..self }
        } else if self.ticks(now) {
            ClockView { last_tick: now as int, ..self }
        } else {
            self
        }
    }
}

impl FrameClock {
    pub closed spec fn view(&self) -> ClockView {
        ClockView {
            credit: self.credit as int,
            ceiling: self.ceiling as int,
            last_tick: self.last_tick as int,
            sent: self.sent@,
            round_trip: self.round_trip as int,
        }
    }

    #[verifier::type_invariant]
    spec fn well_formed(self) -> bool {
        self.view().valid()
    }

    /// A clock that starts at `now`, with its first callbacks already granted.
    pub fn new(now: u64) -> (clock: Self)
        ensures
            clock@ == ClockView::started(now),
            clock@.valid(),
    {
        FrameClock {
            credit: INITIAL_FRAME_CREDIT,
            ceiling: INITIAL_FRAME_CREDIT,
            last_tick: now,
            sent: VecDeque::new(),
            round_trip: 0,
        }
    }

    /// A frame went out; remember when, so its ack can be timed.
    pub fn on_send(&mut self, now: u64)
        ensures
            final(self)@ == old(self)@.after_send(now),
            final(self)@.valid(),
    {
        proof {
            use_type_invariant(&*self);
        }
        let mut sent: VecDeque<u64> = VecDeque::new();
        std::mem::swap(&mut sent, &mut self.sent);
        // Bounded: a browser that stops acking must not grow this without end.
        if sent.len() >= MAX_REMEMBERED {
            sent.pop_front();
            assert(sent@ =~= old(self)@.sent.drop_first());
        }
        sent.push_back(now);
        self.sent = sent;
    }

    /// The browser presented a frame, so one more redraw is warranted.
    ///
    /// The ceiling on in-flight frames is the round trip divided by the frame
    /// interval: the number of frames that fit in the pipe before the first ack
    /// can possibly return, between the initial two and the bound. A fixed ceiling
    /// of two is right on loopback and crippling anywhere else.
    pub fn on_ack(&mut self, now: u64)
        ensures
            final(self)@ == old(self)@.after_ack(now),
            final(self)@.valid(),
    {
        proof {
            use_type_invariant(&*self);
        }
        let mut sent: VecDeque<u64> = VecDeque::new();
        std::mem::swap(&mut sent, &mut self.sent);
        let mut ceiling: i32 = self.ceiling;
        let mut round_trip: u64 = self.round_trip;
        if let Some(at) = sent.pop_front() {
            assert(sent@ =~= old(self)@.sent.drop_first());
            let sample: u64 = now.saturating_sub(at);
            if round_trip == 0 {
                round_trip = sample;
            } else {
                round_trip = ((round_trip as u128 * 3 + sample as u128) / 4) as u64;
            }
            let fits: u64 = round_trip / 1000 / FRAME_INTERVAL_MICROS;
            ceiling = if fits > MAX_FRAME_CREDIT as u64 {
                MAX_FRAME_CREDIT
            } else if fits < INITIAL_FRAME_CREDIT as u64 {
                INITIAL_FRAME_CREDIT
            } else {
                fits as i32
            };
        } else {
            assert(sent@ =~= old(self)@.sent);
        }
        let credit: i32 = if self.credit + 1 <= ceiling {
            self.credit + 1
        } else {
            ceiling
        };
        *self = FrameClock { credit, ceiling, last_tick: self.last_tick, sent, round_trip };
    }

    /// Whether to fire frame callbacks this iteration.
    pub fn should_tick(&mut self, now: u64) -> (fire: bool)
        ensures
            fire == old(self)@.ticks(now),
            final(self)@ == old(self)@.after_tick(now),
            final(self)@.valid(),
    {
        proof {
            use_type_invariant(&*self);
        }
        if self.credit > 0 {
            self.credit = self.credit - 1;
            self.last_tick = now;
            return true;
        }
        // No browser, or one that has gone quiet: keep clients alive slowly.
        if now.saturating_sub(self.last_tick) >= IDLE_FRAME_INTERVAL {
            self.last_tick = now;
            return true;
        }
        false
    }
}

/// How long a pass that has taken this long still rests: what is left of the frame
/// interval, not a whole interval on top of it, and nothing once it is over.
pub fn rest_of_pass(elapsed: u64) -> (rest: Option<u64>)
    ensures
        rest == (if elapsed <= FRAME_INTERVAL_MICROS * 1000 {
            Some((FRAME_INTERVAL_MICROS * 1000 - elapsed) as u64)
        } else {
            None
        }),
{
    (FRAME_INTERVAL_MICROS * 1000).checked_sub(elapsed)
}

/// Something that happens to a clock, and when.
pub enum ClockEvent {
    Send(u64),
    Ack(u64),
    Tick(u64),
}

impl ClockView {
    /// The clock after one event.
    pub open spec fn after(self, event: ClockEvent) -> ClockView {
        match event {
            ClockEvent::Send(now) => self.after_send(now),
            ClockEvent::Ack(now) => self.after_ack(now),
            ClockEvent::Tick(now) => self.after_tick(now),
        }
    }

    /// The clock after a run of events.
    pub open spec fn after_all(self, events: Seq<ClockEvent>) -> ClockView
        decreases events.len(),
    {
        if events.len() == 0 {
            self
        } else {
            self.after(events[0]).after_all(events.drop_first())
        }
    }

    /// The callbacks paid for with credit during a run of events.
    pub open spec fn spent(self, events: Seq<ClockEvent>) -> nat
        decreases events.len(),
    {
        if events.len() == 0 {
            0
        } else {
            let here: nat = if events[0] is Tick && self.credit > 0 {
                1
            } else {
                0
            };
            here + self.after(events[0]).spent(events.drop_first())
        }
    }
}

/// The acks in a run of events.
pub open spec fn acks(events: Seq<ClockEvent>) -> nat
    decreases events.len(),
{
    if events.len() == 0 {
        0
    } else {
        let here: nat = if events[0] is Ack {
            1
        } else {
            0
        };
        here + acks(events.drop_first())
    }
}

/// Whatever happens, a clock stays valid: never more credit than the ceiling,
/// never a ceiling outside its bounds, never an unbounded memory.
pub proof fn clocks_stay_valid(clock: ClockView, events: Seq<ClockEvent>)
    requires
        clock.valid(),
    ensures
        clock.after_all(events).valid(),
    decreases events.len(),
{
    if events.len() > 0 {
        clocks_stay_valid(clock.after(events[0]), events.drop_first());
    }
}

/// A client cannot run ahead of the browser: over any run of events, the
/// callbacks paid for with credit are at most the credit there was and one for
/// every frame the browser presented.
pub proof fn credit_is_never_overdrawn(clock: ClockView, events: Seq<ClockEvent>)
    requires
        clock.valid(),
    ensures
        clock.spent(events) + clock.after_all(events).credit <= clock.credit + acks(events),
    decreases events.len(),
{
    if events.len() > 0 {
        credit_is_never_overdrawn(clock.after(events[0]), events.drop_first());
    }
}

/// With no credit and no idle interval gone by, nothing fires and nothing
/// changes until the browser acknowledges a frame.
pub proof fn without_credit_the_clock_waits(clock: ClockView, now: u64)
    requires
        clock.credit == 0,
        elapsed(clock.last_tick, now as int) < IDLE_FRAME_INTERVAL,
    ensures
        !clock.ticks(now),
        clock.after_tick(now) == clock,
{
}

/// An ack always buys a callback, whatever the clock had left.
pub proof fn an_ack_buys_a_callback(clock: ClockView, acked: u64, now: u64)
    requires
        clock.valid(),
    ensures
        clock.after_ack(acked).ticks(now),
{
}

/// With no browser at all a client still gets a callback every idle interval.
pub proof fn an_idle_clock_still_ticks(clock: ClockView, now: u64)
    requires
        now >= clock.last_tick + IDLE_FRAME_INTERVAL,
    ensures
        clock.ticks(now),
        clock.after_tick(now).last_tick == now,
{
}

/// The frames allowed in flight are the frame intervals that fit in the round
/// trip, however long it is, from the initial two up to the bound.
pub proof fn ceiling_follows_the_round_trip(round_trip: int)
    ensures
        ceiling_for(round_trip) == (if round_trip < 32_000_000 {
            2
        } else if round_trip < 192_000_000 {
            round_trip / 16_000_000
        } else {
            12
        }),
{
    assert(frames_in_pipe(round_trip) == round_trip / 16_000_000);
}

/// An ack is timed against the oldest frame that has none: the first of them
/// sets the round trip, later ones move it a quarter of the way, and a link that
/// does not change keeps its round trip.
pub proof fn an_ack_times_the_oldest_frame(clock: ClockView, now: u64)
    requires
        clock.sent.len() > 0,
        clock.sent[0] <= now,
        clock.round_trip >= 0,
    ensures
        ({
            let sample = now - clock.sent[0];
            let after = clock.after_ack(now);
            &&& after.sent == clock.sent.skip(1)
            &&& clock.round_trip == 0 ==> after.round_trip == sample
            &&& clock.round_trip > 0 ==> 0 <= 3 * clock.round_trip + sample - 4 * after.round_trip
                < 4
            &&& clock.round_trip == sample ==> after.round_trip == sample
            &&& after.last_tick == clock.last_tick
        }),
{
    assert(clock.sent.drop_first() =~= clock.sent.skip(1));
}

/// An ack that belongs to no frame measures nothing.
pub proof fn a_stray_ack_measures_nothing(clock: ClockView, now: u64)
    requires
        clock.valid(),
        clock.sent.len() == 0,
    ensures
        clock.after_ack(now).round_trip == clock.round_trip,
        clock.after_ack(now).ceiling == clock.ceiling,
        clock.after_ack(now).sent.len() == 0,
{
}

/// Every ack adds one to the credit, up to the ceiling, and every callback that
/// is paid for takes one off; sending a frame costs none.
pub proof fn credit_moves_one_at_a_time(clock: ClockView, now: u64)
    requires
        clock.valid(),
    ensures
        clock.after_ack(now).credit <= clock.credit + 1,
        clock.after_ack(now).credit == clock.credit + 1 || clock.after_ack(now).credit
            == clock.after_ack(now).ceiling,
        clock.credit > 0 ==> clock.ticks(now) && clock.after_tick(now).credit == clock.credit - 1
            && clock.after_tick(now).last_tick == now,
        clock.credit == 0 ==> clock.after_tick(now).credit == 0,
        clock.after_send(now).credit == clock.credit,
        clock.after_tick(now).sent == clock.sent && clock.after_tick(now).ceiling == clock.ceiling,
{
}

/// A frame that goes out is remembered behind those that went before it; only
/// where too many are waiting is the oldest of them given up.
pub proof fn a_sent_frame_is_remembered(clock: ClockView, now: u64)
    requires
        clock.valid(),
    ensures
        clock.after_send(now).sent.last() == now,
        clock.sent.len() < MAX_REMEMBERED ==> clock.after_send(now).sent == clock.sent.push(now),
        clock.sent.len() == MAX_REMEMBERED ==> clock.after_send(now).sent == clock.sent.skip(
            1,
        ).push(now),
        clock.after_send(now).round_trip == clock.round_trip,
{
    if clock.sent.len() == MAX_REMEMBERED {
        assert(clock.sent.drop_first() =~= clock.sent.skip(1));
    }
}

/// The frames allowed in flight after an ack are those that fit in the round trip
/// as it now stands, from two to twelve; a clock that ran backwards counts as no
/// time at all.
pub proof fn an_ack_sizes_the_pipe(clock: ClockView, now: u64)
    requires
        clock.sent.len() > 0,
        clock.round_trip >= 0,
    ensures
        ({
            let after = clock.after_ack(now);
            &&& after.round_trip < 32_000_000 ==> after.ceiling == 2
            &&& 32_000_000 <= after.round_trip < 192_000_000 ==> 16_000_000 * after.ceiling
                <= after.round_trip < 16_000_000 * (after.ceiling + 1)
            &&& after.round_trip >= 192_000_000 ==> after.ceiling == 12
            &&& after.credit <= after.ceiling
            &&& clock.sent[0] >= now ==> after.round_trip <= clock.round_trip
        }),
{
    ceiling_follows_the_round_trip(clock.after_ack(now).round_trip);
}

} // verus!
