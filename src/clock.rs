use vstd::prelude::*;

use std::time::Instant;

verus! {

/// `std::time::Instant`, held opaque: the moment a clock started.
#[verifier::external_type_specification]
#[verifier::external_body]
pub struct ExInstant(Instant);

/// Relies on `Instant::now`: a reading of the platform's monotonic clock.
/// Nothing is known of its value.
pub assume_specification[ Instant::now ]() -> Instant;

/// Relies on `Instant::elapsed`: the time since the instant was taken, which
/// depends on when it is called; nothing is known of its value.
pub assume_specification[ Instant::elapsed ](i: &Instant) -> core::time::Duration;

/// Relies on `Duration::as_nanos`: the whole duration in nanoseconds, of an
/// elapsed time that nothing is known of.
pub assume_specification[ core::time::Duration::as_nanos ](d: &core::time::Duration) -> u128;

/// What a clock reports: the time of the latest update and that of the one
/// before, both in nanoseconds since the clock started.
pub struct ClockState {
    pub time: u64,
    pub prev_time: u64,
}

/// The clock after a reading of `now`: the current time becomes the previous
/// one, and the time moves to `now` unless that would run it backwards.
pub open spec fn advanced(c: ClockState, now: u64) -> ClockState {
    ClockState { time: if now >= c.time { now } else { c.time }, prev_time: c.time }
}

/// The clock after the readings of `readings`, one after the other.
pub open spec fn advanced_by(c: ClockState, readings: Seq<u64>) -> ClockState
    decreases readings.len(),
{
    if readings.len() == 0 {
        c
    } else {
        advanced(advanced_by(c, readings.drop_last()), readings.last())
    }
}

/// The sum of the deltas that the clock reports after each of `readings`.
pub open spec fn total_delta(c: ClockState, readings: Seq<u64>) -> int
    decreases readings.len(),
{
    if readings.len() == 0 {
        0
    } else {
        let d = advanced_by(c, readings);
        total_delta(c, readings.drop_last()) + (d.time - d.prev_time)
    }
}

/// The deltas of any run of updates add up to the time that passed over it,
/// whatever the number of updates.
pub proof fn lemma_deltas_add_up(c: ClockState, readings: Seq<u64>)
    ensures
        total_delta(c, readings) == advanced_by(c, readings).time - c.time,
    decreases readings.len(),
{
    if readings.len() > 0 {
        lemma_deltas_add_up(c, readings.drop_last());
    }
}

/// `n` ticks of `dt` each report `dt` every time and `n * dt` in all, as one
/// tick of `n * dt` does: motion scaled by the delta does not depend on the
/// frame rate.
pub proof fn lemma_equal_ticks(start: u64, dt: u64, n: nat)
    requires
        start + n * dt <= u64::MAX,
    ensures
        ({
            let c = ClockState { time: start, prev_time: start };
            let ticks = Seq::new(n, |i: int| (start + (i + 1) * dt) as u64);
            let one = advanced(c, (start + n * dt) as u64);
            &&& advanced_by(c, ticks).time == start + n * dt
            &&& total_delta(c, ticks) == n * dt
            &&& one.time - one.prev_time == n * dt
            &&& forall|k: int|
                0 < k <= n ==> #[trigger] advanced_by(c, ticks.take(k)).time
                    - advanced_by(c, ticks.take(k)).prev_time == dt
        }),
    decreases n,
{
    let c = ClockState { time: start, prev_time: start };
    let ticks = Seq::new(n, |i: int| (start + (i + 1) * dt) as u64);
    assert(0 <= n * dt) by (nonlinear_arith);
    if n == 0 {
        assert(n * dt == 0) by (nonlinear_arith)
            requires
                n == 0,
        ;
        assert(ticks =~= Seq::<u64>::empty());
    } else {
        let m = (n - 1) as nat;
        assert(start + m * dt <= u64::MAX) by (nonlinear_arith)
            requires
                start + n * dt <= u64::MAX,
                m + 1 == n,
        ;
        lemma_equal_ticks(start, dt, m);
        let prefix = Seq::new(m, |i: int| (start + (i + 1) * dt) as u64);
        assert(ticks.drop_last() =~= prefix);
        assert(n * dt == m * dt + dt) by (nonlinear_arith)
            requires
                m + 1 == n,
        ;
        assert(ticks.last() == start + n * dt);
        assert(advanced_by(c, prefix).time == start + m * dt);
        assert(advanced_by(c, ticks) == advanced(advanced_by(c, prefix), ticks.last()));
        assert(advanced_by(c, ticks).time == start + n * dt);
        assert(advanced_by(c, ticks).prev_time == start + m * dt);
        assert forall|k: int| 0 < k <= n implies #[trigger] advanced_by(c, ticks.take(k)).time
            - advanced_by(c, ticks.take(k)).prev_time == dt by {
            if k < n {
                assert(ticks.take(k) =~= prefix.take(k));
            } else {
                assert(ticks.take(k) =~= ticks);
            }
        }
    }
    lemma_deltas_add_up(c, ticks);
}

/// Frame clock: monotonic time since start and the delta between the last two
/// updates, in nanoseconds.
pub struct Clock {
    start: Instant,
    time: u64,
    prev_time: u64,
}

impl View for Clock {
    type V = ClockState;

    closed spec fn view(&self) -> ClockState {
        ClockState { time: self.time, prev_time: self.prev_time }
    }
}

impl Clock {
    /// The reported time never runs backwards.
    #[verifier::type_invariant]
    closed spec fn inv(&self) -> bool {
        self.prev_time <= self.time
    }

    /// A clock that starts now, at time zero.
    pub fn new() -> (r: Self)
        ensures
            r@.time == 0,
            r@.prev_time == 0,
    {
        Clock { start: Instant::now(), time: 0, prev_time: 0 }
    }

    /// Time of the latest update.
    pub fn time(&self) -> (r: u64)
        ensures
            r == self@.time,
    {
        self.time
    }

    /// Time between the last two updates.
    pub fn delta_time(&self) -> (r: u64)
        ensures
            r == self@.time - self@.prev_time,
    {
        proof {
            use_type_invariant(self);
        }
        self.time - self.prev_time
    }

    /// Records a new reading `now`. A reading below the current time (a
    /// platform clock that stepped back) keeps the current time, so the clock
    /// stays monotonic.
    pub fn advance(&mut self, now: u64)
        ensures
            final(self)@ == advanced(old(self)@, now),
    {
        proof {
            use_type_invariant(&*self);
        }
        self.prev_time = self.time;
        if now >= self.time {
            self.time = now;
        }
    }

    /// Reads the time elapsed since the start and records it; a reading past
    /// the range of `u64` nanoseconds is held at `u64::MAX`.
    pub fn update(&mut self)
        ensures
            exists|now: u64| final(self)@ == #[trigger] advanced(old(self)@, now),
    {
        let nanos: u128 = self.start.elapsed().as_nanos();
        let now: u64 = if nanos > u64::MAX as u128 {
            u64::MAX
        } else {
            nanos as u64
        };
        self.advance(now);
    }
}

impl Default for Clock {
    fn default() -> (r: Self)
        ensures
            r@.time == 0,
            r@.prev_time == 0,
    {
        Clock::new()
    }
}

} // verus!
