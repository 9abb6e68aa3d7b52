use vstd::prelude::*;

verus! {

/// Ticks in one second of play.
pub const TICKS_PER_SECOND: usize = 60;

/// `seconds * ticks_per_second`, clamped to the largest tick count.
pub open spec fn duration_in_ticks(seconds: int, ticks_per_second: int) -> int {
    if seconds * ticks_per_second > usize::MAX {
        usize::MAX as int
    } else {
        seconds * ticks_per_second
    }
}

/// `a - b`, or zero where `b` exceeds `a`.
pub open spec fn sat_sub(a: int, b: int) -> int {
    if a >= b {
        a - b
    } else {
        0
    }
}

/// A countdown that started at `start_tick` and runs for `duration_ticks` ticks.
///
/// The tick source belongs to the host, so every query takes the current tick.
#[derive(Clone, Copy, Debug, PartialEq, Eq, Structural)]
pub struct Timer {
    pub start_tick: usize,
    pub duration_ticks: usize,
}

impl Timer {
    /// Whether the timer has run out at tick `now`.
    pub open spec fn done_at(self, now: int) -> bool {
        now >= self.start_tick + self.duration_ticks
    }

    /// Ticks since the start, never negative.
    pub open spec fn elapsed_at(self, now: int) -> int {
        sat_sub(now, self.start_tick as int)
    }

    /// Ticks still to run at tick `now`.
    pub open spec fn ticks_left_at(self, now: int) -> int {
        sat_sub(self.duration_ticks as int, self.elapsed_at(now))
    }

    /// Ticks run at tick `now`, capped at the duration.
    pub open spec fn stopwatch_at(self, now: int) -> int {
        if self.elapsed_at(now) <= self.duration_ticks {
            self.elapsed_at(now)
        } else {
            self.duration_ticks as int
        }
    }

    /// A timer started at `now` that runs for `duration_seconds` seconds of
    /// `ticks_per_second` ticks each.
    pub fn new(now: usize, duration_seconds: usize, ticks_per_second: usize) -> (r: Timer)
        ensures
            r.start_tick == now,
            r.duration_ticks == duration_in_ticks(duration_seconds as int, ticks_per_second as int),
    {
        let duration_ticks = match duration_seconds.checked_mul(ticks_per_second) {
            Some(d) => d,
            None => usize::MAX,
        };
        Timer { start_tick: now, duration_ticks }
    }

    /// True iff `now >= start_tick + duration_ticks`.
    pub fn is_done(&self, now: usize) -> (r: bool)
        ensures
            r == self.done_at(now as int),
    {
        now >= self.start_tick && now - self.start_tick >= self.duration_ticks
    }

    /// The ticks still to run at `now`; divided by the tick rate, the time left.
    pub fn get_time_left(&self, now: usize) -> (r: usize)
        ensures
            r == self.ticks_left_at(now as int),
            r <= self.duration_ticks,
    {
        let elapsed = now.saturating_sub(self.start_tick);
        self.duration_ticks.saturating_sub(elapsed)
    }

    /// The ticks run at `now`, capped at the duration; divided by the tick
    /// rate, the stopwatch reading.
    pub fn get_stopwatch_time(&self, now: usize) -> (r: usize)
        ensures
            r == self.stopwatch_at(now as int),
            r <= self.duration_ticks,
    {
        let elapsed = now.saturating_sub(self.start_tick);
        if elapsed <= self.duration_ticks {
            elapsed
        } else {
            self.duration_ticks
        }
    }

    /// Starts the timer over at `now`, keeping its duration.
    pub fn reset(&mut self, now: usize)
        ensures
            final(self).start_tick == now,
            final(self).duration_ticks == old(self).duration_ticks,
    {
        self.start_tick = now;
    }
}

/// A timer made at tick `now` is done at once iff its duration is zero.
pub proof fn lemma_new_done_iff_empty(now: usize, duration_seconds: usize, ticks_per_second: usize)
    requires
        ticks_per_second > 0,
    ensures
        ({
            let t = Timer {
                start_tick: now,
                duration_ticks: duration_in_ticks(duration_seconds as int, ticks_per_second as int) as usize,
            };
            !t.done_at(now as int) <==> t.duration_ticks > 0
        }),
{
}

/// From the start tick on, the ticks left never grow as time goes on, and are
/// zero from `start_tick + duration_ticks` on.
pub proof fn lemma_time_left_monotone(t: Timer, a: int, b: int)
    requires
        t.start_tick <= a <= b,
    ensures
        t.ticks_left_at(b) <= t.ticks_left_at(a),
        b >= t.start_tick + t.duration_ticks ==> t.ticks_left_at(b) == 0,
{
}

/// The stopwatch never reads more than the duration.
pub proof fn lemma_stopwatch_capped(t: Timer, now: int)
    ensures
        0 <= t.stopwatch_at(now) <= t.duration_ticks,
{
}

/// Right after a reset, a timer with a nonzero duration is not done.
pub proof fn lemma_reset_not_done(t: Timer, now: usize)
    requires
        t.duration_ticks > 0,
    ensures
        !(Timer { start_tick: now, ..t }).done_at(now as int),
{
}

} // verus!
