use vstd::prelude::*;

verus! {

/// The discretized height of the jump parabola at a given time step: the
/// floor of `4 * max * time * (duration - time) / duration^2`, forced to 0
/// from `duration` onward. The curve touches 0 at both endpoints and peaks
/// near `max` at `duration / 2`.
pub open spec fn parabola_value_at(max: int, duration: int, time: int) -> int
    recommends
        duration > 0,
{
    if time >= duration {
        0
    } else {
        (4 * max * duration * time - 4 * max * time * time) / (duration * duration)
    }
}

/// A discretized integer parabolic jump arc: height over time, advancing one
/// tick at a time. Integer-only arithmetic keeps the trajectory deterministic
/// and replayable across runs.
#[derive(Copy, Clone, Debug)]
pub struct Parabola {
    max: usize,
    duration: usize,
    time: usize,
    // Derived from the three fields above; cached so `value` is a plain read.
    value: usize,
}

impl Parabola {
    pub closed spec fn spec_max(self) -> int {
        self.max as int
    }

    pub closed spec fn spec_duration(self) -> int {
        self.duration as int
    }

    pub closed spec fn spec_time(self) -> int {
        self.time as int
    }

    /// The current height dictated by the curve's parameters and elapsed time.
    pub open spec fn spec_value(self) -> int {
        parabola_value_at(self.spec_max(), self.spec_duration(), self.spec_time())
    }

    /// Well-formedness: a positive duration (a zero duration would divide by
    /// zero), parameters small enough that the parabola formula never
    /// overflows the machine word, and a cached value that agrees with the
    /// formula.
    pub closed spec fn wf(self) -> bool {
        &&& self.duration > 0
        &&& 4 * (self.max as int) * (self.duration as int) * (self.duration as int)
            <= usize::MAX
        &&& (self.duration as int) * (self.duration as int) <= usize::MAX
        &&& self.value == self.spec_value()
    }

    /// Constructs the curve at elapsed time 0, where its value is 0.
    pub fn new(max: usize, duration: usize) -> (r: Parabola)
        requires
            duration > 0,
            4 * max * duration * duration <= usize::MAX,
            duration * duration <= usize::MAX,
        ensures
            r.wf(),
            r.spec_max() == max,
            r.spec_duration() == duration,
            r.spec_time() == 0,
    {
        proof {
            lemma_parabola_value_zero_at_start(max as int, duration as int);
        }
        Parabola { max, duration, time: 0, value: 0 }
    }

    /// Advances elapsed time by one tick and recomputes the height.
    pub fn step(&mut self)
        requires
            old(self).wf(),
            old(self).spec_time() < usize::MAX,
        ensures
            final(self).wf(),
            final(self).spec_max() == old(self).spec_max(),
            final(self).spec_duration() == old(self).spec_duration(),
            final(self).spec_time() == old(self).spec_time() + 1,
    {
        self.time = self.time + 1;
        self.value = self.calc_value();
    }

    /// The current discretized height; 0 at time 0 and from `duration` on,
    /// never negative, and never above `max`.
    pub fn value(&self) -> (r: usize)
        requires
            self.wf(),
        ensures
            r == self.spec_value(),
    {
        self.value
    }

    /// True once elapsed time has reached the total duration.
    pub fn finished(&self) -> (r: bool)
        ensures
            r == (self.spec_time() >= self.spec_duration()),
    {
        self.time >= self.duration
    }

    fn calc_value(&self) -> (r: usize)
        requires
            self.duration > 0,
            4 * (self.max as int) * (self.duration as int) * (self.duration as int)
                <= usize::MAX,
            (self.duration as int) * (self.duration as int) <= usize::MAX,
        ensures
            r == parabola_value_at(self.spec_max(), self.spec_duration(), self.spec_time()),
    {
        let ghost m = self.max as int;
        let ghost d = self.duration as int;
        let ghost t = self.time as int;
        assert(4 * m <= 4 * m * d * d && 4 * m * d <= 4 * m * d * d) by (nonlinear_arith)
            requires
                m >= 0,
                d >= 1,
        ;
        let a: usize = 4 * self.max;
        let b: usize = 4 * self.max * self.duration;

        if self.time >= self.duration {
            return 0;
        }

        assert(4 * m * t * t <= 4 * m * d * t <= 4 * m * d * d && 4 * m * t <= 4 * m * d
            && d * d >= 1) by (nonlinear_arith)
            requires
                m >= 0,
                d >= 1,
                0 <= t < d,
        ;
        (b * self.time - a * self.time * self.time) / (self.duration * self.duration)
    }
}

/// The curve's value is exactly 0 at time 0.
pub proof fn lemma_parabola_value_zero_at_start(max: int, duration: int)
    requires
        duration > 0,
    ensures
        parabola_value_at(max, duration, 0) == 0,
{
    if 0 < duration {
        assert(4 * max * duration * 0 - 4 * max * 0 * 0 == 0) by (nonlinear_arith);
        assert(duration * duration > 0) by (nonlinear_arith)
            requires
                duration > 0,
        ;
    }
}

/// The curve's value is exactly 0 at `duration` and at every later time.
pub proof fn lemma_parabola_value_zero_after_end(max: int, duration: int, time: int)
    requires
        duration > 0,
        time >= duration,
    ensures
        parabola_value_at(max, duration, time) == 0,
{
}

/// The curve's value is never negative over the whole arc.
pub proof fn lemma_parabola_value_nonneg(max: int, duration: int, time: int)
    requires
        max >= 0,
        duration > 0,
        time >= 0,
    ensures
        parabola_value_at(max, duration, time) >= 0,
{
    if time < duration {
        assert(4 * max * duration * time - 4 * max * time * time >= 0 && duration * duration
            > 0) by (nonlinear_arith)
            requires
                max >= 0,
                0 <= time < duration,
        ;
        assert((4 * max * duration * time - 4 * max * time * time) / (duration * duration)
            >= 0) by (nonlinear_arith)
            requires
                4 * max * duration * time - 4 * max * time * time >= 0,
                duration * duration > 0,
        ;
    }
}

/// The curve's value never exceeds the peak parameter `max`.
pub proof fn lemma_parabola_value_le_max(max: int, duration: int, time: int)
    requires
        max >= 0,
        duration > 0,
        time >= 0,
    ensures
        parabola_value_at(max, duration, time) <= max,
{
    if time < duration {
        assert(duration * duration > 0) by (nonlinear_arith)
            requires
                duration > 0,
        ;
        assert(4 * max * duration * time - 4 * max * time * time <= max * (duration
            * duration)) by (nonlinear_arith)
            requires
                max >= 0,
                0 <= time < duration,
        ;
        assert((4 * max * duration * time - 4 * max * time * time) / (duration * duration)
            <= max) by (nonlinear_arith)
            requires
                4 * max * duration * time - 4 * max * time * time <= max * (duration
                    * duration),
                duration * duration > 0,
        ;
    }
}

} // verus!
