use vstd::prelude::*;
use crate::input::Key;
use crate::input::Keys;
use crate::input::spec_press_chain;
use crate::input::spec_release_chain;
use crate::rng::rng_from_seed;
use crate::rng::rng_range_u32;
use rand::rngs::SmallRng;

verus! {

/// Number of slots in the solution ring buffer: a power of two sized to
/// cover the maximum lookahead or lookback offset the game ever asks for.
pub const SOLUTION_SIZE: usize = 1024;

/// The stochastic regime the input synthesizer is currently in: quiet
/// (rare, single actions) or bursty (rapid, overlapping key activity).
#[derive(Copy, Clone, Debug)]
enum GeneratorPhase {
    LowFreq,
    HighFreq,
}

impl GeneratorPhase {
    /// Weighted phase choice: roughly 30% quiet, 70% bursty.
    fn sample(rng: &mut SmallRng) -> GeneratorPhase {
        let roll: u32 = rng_range_u32(rng, 0, 100);
        if roll <= 29 {
            GeneratorPhase::LowFreq
        } else {
            GeneratorPhase::HighFreq
        }
    }
}

/// A phase-based stochastic process synthesizing a plausible stream of key
/// states, one per call to `next`. Seeded with a fixed constant so the
/// stream — and the autopilot ghost it drives — replays identically on
/// every run.
struct SolutionGenerator {
    keys: Keys,
    phase: GeneratorPhase,
    phase_time_left: usize,
    random_generator: SmallRng,
}

impl SolutionGenerator {
    fn new() -> SolutionGenerator {
        SolutionGenerator {
            keys: Keys::new(),
            phase: GeneratorPhase::LowFreq,
            phase_time_left: 0,
            // The bytes of "This is a funny random seed !!!!".
            random_generator: rng_from_seed(
                [
                    84, 104, 105, 115, 32, 105, 115, 32, 97, 32, 102, 117, 110, 110, 121,
                    32, 114, 97, 110, 100, 111, 109, 32, 115, 101, 101, 100, 32, 33, 33,
                    33, 33,
                ],
            ),
        }
    }

    /// One uniformly random key out of the five; only the random generator
    /// advances.
    fn random_key(&mut self) -> (r: Key)
        ensures
            final(self).keys == old(self).keys,
            final(self).phase == old(self).phase,
            final(self).phase_time_left == old(self).phase_time_left,
    {
        let n: u32 = rng_range_u32(&mut self.random_generator, 0, 5);
        Key::from_u8(n as u8)
    }

    /// Synthesizes the key state for the next tick. When the current phase's
    /// countdown reaches zero a new phase is sampled and the countdown is
    /// redrawn from 50..100; otherwise it counts down and the phase is kept.
    /// The "freshly pressed" bits of the previous tick are cleared first.
    /// Within LowFreq, each tick has a 1-in-20 chance of one action: release
    /// everything if any key is active, else press one random key. Within
    /// HighFreq, each tick rolls four 1-in-2 chances to release a random key
    /// and four 1-in-5 chances to press one, yielding bursts of overlapping
    /// activity.
    fn next(&mut self) -> (r: Keys)
        ensures
            r == final(self).keys,
            old(self).phase_time_left > 0 ==> final(self).phase == old(self).phase
                && final(self).phase_time_left == old(self).phase_time_left - 1,
            old(self).phase_time_left == 0 ==> 50 <= final(self).phase_time_left <= 99,
            ({
                let base = old(self).keys.spec_updated();
                match final(self).phase {
                    GeneratorPhase::LowFreq => {
                        &&& (base.spec_any_pressed() ==> (final(self).keys == base
                            || (final(self).keys.spec_just_pressed_mask() == 0
                                && final(self).keys.spec_pressing_mask() == 0)))
                        &&& (!base.spec_any_pressed() ==> (final(self).keys == base
                            || exists|k: Key| final(self).keys == base.spec_pressed(k)))
                    },
                    GeneratorPhase::HighFreq => exists|mid: Keys|
                        spec_release_chain(base, mid, 4) && spec_press_chain(
                            mid,
                            final(self).keys,
                            4,
                        ),
                }
            }),
    {
        if self.phase_time_left == 0 {
            self.phase = GeneratorPhase::sample(&mut self.random_generator);
            self.phase_time_left = rng_range_u32(&mut self.random_generator, 50, 100)
                as usize;
        } else {
            self.phase_time_left = self.phase_time_left - 1;
        }

        self.keys.update();
        let ghost base = self.keys;
        let ghost phase_now = self.phase;
        let ghost countdown_now = self.phase_time_left;

        match self.phase {
            GeneratorPhase::LowFreq => {
                if rng_range_u32(&mut self.random_generator, 0, 20) == 0 {
                    if self.keys.any_pressed() {
                        self.keys = Keys::new();  // Release all
                    } else {
                        let key = self.random_key();
                        self.keys.press(key);
                        proof {
                            assert(self.keys == base.spec_pressed(key));
                        }
                    }
                }
            },
            GeneratorPhase::HighFreq => {
                // Release keys
                let mut i: u32 = 0;
                while i < 4
                    invariant
                        i <= 4,
                        spec_release_chain(base, self.keys, i as nat),
                        self.phase == phase_now,
                        self.phase_time_left == countdown_now,
                    decreases 4 - i,
                {
                    if rng_range_u32(&mut self.random_generator, 0, 2) == 0 {
                        let key = self.random_key();
                        proof {
                            crate::input::lemma_release_chain_extend(
                                base,
                                self.keys,
                                key,
                                i as nat,
                            );
                        }
                        self.keys.release(key);
                    } else {
                        proof {
                            crate::input::lemma_release_chain_widen(base, self.keys, i as nat);
                        }
                    }
                    i = i + 1;
                }
                let ghost mid = self.keys;

                // Press keys
                let mut j: u32 = 0;
                while j < 4
                    invariant
                        j <= 4,
                        spec_release_chain(base, mid, 4),
                        spec_press_chain(mid, self.keys, j as nat),
                        self.phase == phase_now,
                        self.phase_time_left == countdown_now,
                    decreases 4 - j,
                {
                    if rng_range_u32(&mut self.random_generator, 0, 5) == 0 {
                        let key = self.random_key();
                        proof {
                            crate::input::lemma_press_chain_extend(
                                mid,
                                self.keys,
                                key,
                                j as nat,
                            );
                        }
                        self.keys.press(key);
                    } else {
                        proof {
                            crate::input::lemma_press_chain_widen(mid, self.keys, j as nat);
                        }
                    }
                    j = j + 1;
                }
            },
        }

        self.keys
    }
}

/// A fixed-capacity circular buffer of synthesized key states, indexable by
/// relative time offset. The slot at logical offset `t` from the current
/// tick is stored at `(first_index + t) mod SOLUTION_SIZE`.
pub struct Solution {
    first_index: usize,
    generator: SolutionGenerator,
    keys: Vec<Keys>,
}

impl Solution {
    /// Well-formedness: the buffer holds exactly `SOLUTION_SIZE` slots and
    /// the rolling index stays below the capacity.
    pub closed spec fn wf(self) -> bool {
        &&& self.keys@.len() == SOLUTION_SIZE
        &&& self.first_index < SOLUTION_SIZE
    }

    /// The key state at relative time offset `t` from the current tick.
    pub closed spec fn spec_keys_at(self, t: int) -> Keys
        recommends
            0 <= t < SOLUTION_SIZE,
    {
        self.keys@[(self.first_index + t) % (SOLUTION_SIZE as int)]
    }

    /// Seeds the generator and eagerly fills the whole window, so later
    /// lookups at any offset in `[0, SOLUTION_SIZE)` are O(1) reads.
    pub fn new() -> (r: Solution)
        ensures
            r.wf(),
    {
        let mut generator = SolutionGenerator::new();
        let mut keys: Vec<Keys> = Vec::new();
        while keys.len() < SOLUTION_SIZE
            invariant
                keys@.len() <= SOLUTION_SIZE,
            decreases SOLUTION_SIZE - keys@.len(),
        {
            let k = generator.next();
            keys.push(k);
        }
        Solution { first_index: 0, generator, keys }
    }

    /// The key state at offset `time` ticks from now. Offsets at or beyond
    /// the capacity are a caller error (the reference behavior aborts on
    /// them) and are ruled out here.
    pub fn keys(&self, time: usize) -> (r: Keys)
        requires
            self.wf(),
            time < SOLUTION_SIZE,
        ensures
            r == self.spec_keys_at(time as int),
    {
        let index: usize = (self.first_index + time) % SOLUTION_SIZE;
        self.keys[index]
    }

    /// The checked form of `keys`: a value for every offset in
    /// `[0, SOLUTION_SIZE)` and `None` for every offset at or beyond the
    /// capacity — if and only if.
    pub fn keys_checked(&self, time: usize) -> (r: Option<Keys>)
        requires
            self.wf(),
        ensures
            time < SOLUTION_SIZE ==> r == Some(self.spec_keys_at(time as int)),
            time >= SOLUTION_SIZE ==> r is None,
    {
        if time >= SOLUTION_SIZE {
            None
        } else {
            Some(self.keys(time))
        }
    }

    /// Advances the window one tick: the slot that held offset 0 is
    /// overwritten with a freshly generated key state (it now represents the
    /// input `SOLUTION_SIZE - 1` ticks ahead) and the rolling index moves
    /// up by one modulo the capacity. Every other offset shifts down by one:
    /// offset `t` afterwards holds what offset `t + 1` held before. To be
    /// called once per application tick, after all reads of that tick.
    pub fn update(&mut self)
        requires
            old(self).wf(),
        ensures
            final(self).wf(),
            forall|t: int|
                0 <= t < SOLUTION_SIZE - 1 ==> final(self).spec_keys_at(t) == old(
                    self,
                ).spec_keys_at(t + 1),
    {
        let fresh = self.generator.next();
        let first = self.first_index;
        self.keys[first] = fresh;
        self.first_index = (self.first_index + 1) % SOLUTION_SIZE;

        proof {
            let n = SOLUTION_SIZE as int;
            assert forall|t: int| 0 <= t < n - 1 implies self.spec_keys_at(t) == old(
                self,
            ).spec_keys_at(t + 1) by {
                let f = old(self).first_index as int;
                assert(self.first_index == (f + 1) % n);
                assert((f + 1) % n == if f + 1 < n {
                    f + 1
                } else {
                    0
                });
                let idx = (self.first_index + t) % n;
                assert(idx == (f + t + 1) % n);
                assert(idx != f);
            }
        }
    }
}

} // verus!
