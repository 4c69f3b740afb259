use vstd::prelude::*;

use crate::plugin::Waveform;

verus! {

/// 1.0 in the Q16.16 fixed-point format of frequencies, gains and levels.
pub const UNIT: u64 = 65536;

/// 1.0 in the Q.30 format of the quarter-wave sine polynomial.
pub const QUARTER: u64 = 1073741824;

/// Taylor coefficients of `sin(pi / 2 * x)` in Q.30: `(pi / 2)^k / k!` for
/// k = 1, 3, 5, 7, 9.
pub const SINE_C1: u64 = 1686629713;
pub const SINE_C3: u64 = 693598668;
pub const SINE_C5: u64 = 85569306;
pub const SINE_C7: u64 = 5026995;
pub const SINE_C9: u64 = 172272;

/// `2^32`: a phase read as a 32-bit fraction of a cycle.
pub const TURN: u64 = 4294967296;

/// The longest cycle an oscillator counts in: `UNIT` steps per sample at the
/// largest `u32` sample rate.
pub const MAX_CYCLE: u64 = 0xFFFF_FFFF * UNIT;

/// The number of phase steps in one cycle at `sample_rate`: a frequency in
/// Q16.16 advances the phase by exactly its own value each sample.
pub open spec fn cycle_of(sample_rate: int) -> int {
    sample_rate * UNIT
}

/// The phase after one sample: the old phase `phase / cycle` carried over to
/// the cycle length of `sample_rate` (rounded down), advanced by `frequency`
/// and brought back into `[0, 1)` of a cycle.
pub open spec fn advanced(phase: int, cycle: int, sample_rate: int, frequency: int) -> int {
    (phase * cycle_of(sample_rate) / cycle + frequency) % cycle_of(sample_rate)
}

/// One Horner step of the alternating series: `c - a * s` in Q.30.
pub open spec fn horner_step(c: int, a: int, s: int) -> int {
    c - a * s / (QUARTER as int)
}

/// `sin(pi / 2 * u / QUARTER)` in Q16.16, for `u` in `[0, QUARTER]`, by the
/// degree-nine Taylor polynomial. Its distance from the true sine (under
/// 2e-5 of full scale when evaluated) is not stated here; what is proved is
/// that it starts at zero and peaks at exactly one (`lemma_quarter_sine_ends`).
pub open spec fn quarter_sine(u: int) -> int {
    let s = u * u / (QUARTER as int);
    let a7 = horner_step(SINE_C7 as int, SINE_C9 as int, s);
    let a5 = horner_step(SINE_C5 as int, a7, s);
    let a3 = horner_step(SINE_C3 as int, a5, s);
    let a1 = horner_step(SINE_C1 as int, a3, s);
    a1 * u / (QUARTER as int * 16384)
}

/// The sine wave at turn `t` of `TURN`, in Q16.16: the quarter wave mirrored
/// into the second quarter and negated in the second half.
pub open spec fn sine_level(t: int) -> int {
    let q = t / (QUARTER as int);
    let r = t % (QUARTER as int);
    let mag = if q % 2 == 0 {
        quarter_sine(r)
    } else {
        quarter_sine(QUARTER - r)
    };
    if q < 2 {
        mag
    } else {
        -mag
    }
}

/// The level of `waveform` at turn `t` of `TURN`, that is at phase
/// `p = t / TURN`, in Q16.16 and rounded down: sine `sin(2 pi p)`, saw
/// `2p - 1`, square `1` from `p = 1/2` on and `-1` before, triangle `-1 + 4p`
/// before `p = 1/2` and `1 - 4(p - 1/2)` from it on.
pub open spec fn level(waveform: Waveform, t: int) -> int {
    let unit = UNIT as int;
    let half = TURN as int / 2;
    match waveform {
        Waveform::Sine => sine_level(t),
        Waveform::Saw => t / 32768 - unit,
        Waveform::Square => if t >= half {
            unit
        } else {
            -unit
        },
        Waveform::Triangle => if t >= half {
            unit - (t - half) / 16384
        } else {
            t / 16384 - unit
        },
    }
}

/// What an oscillator is: its waveform and its phase, `phase / cycle` of a
/// cycle.
pub ghost struct WaveView {
    pub waveform: Waveform,
    pub phase: nat,
    pub cycle: nat,
}

impl WaveView {
    pub open spec fn wf(self) -> bool {
        0 < self.cycle <= MAX_CYCLE && self.phase < self.cycle
    }

    /// A new oscillator: phase zero.
    pub open spec fn fresh(waveform: Waveform) -> WaveView {
        WaveView { waveform, phase: 0, cycle: 1 }
    }

    /// The phase as a fraction of `TURN`, rounded down.
    pub open spec fn turn(self) -> int {
        (self.phase * TURN) as int / (self.cycle as int)
    }

    /// The level at the current phase, in Q16.16.
    pub open spec fn level(self) -> int {
        level(self.waveform, self.turn())
    }

    /// The sample emitted at the current phase with `gain`: Q16.16 times
    /// Q16.16, full scale `UNIT * UNIT`.
    pub open spec fn output(self, gain: int) -> int {
        self.level() * gain
    }

    /// The oscillator after one sample at `frequency` and `sample_rate`. At
    /// frequency zero the phase does not move at all, whatever the rate.
    pub open spec fn stepped(self, frequency: int, sample_rate: int) -> WaveView {
        if frequency == 0 {
            self
        } else {
            WaveView {
                waveform: self.waveform,
                phase: advanced(self.phase as int, self.cycle as int, sample_rate, frequency) as nat,
                cycle: cycle_of(sample_rate) as nat,
            }
        }
    }

    /// The oscillator after `k` samples at a steady `frequency` and
    /// `sample_rate`.
    pub open spec fn run(self, frequency: int, sample_rate: int, k: nat) -> WaveView
        decreases k,
    {
        if k == 0 {
            self
        } else {
            self.run(frequency, sample_rate, (k - 1) as nat).stepped(frequency, sample_rate)
        }
    }
}

/// The quarter wave runs from exactly zero to exactly one (`UNIT`).
pub proof fn lemma_quarter_sine_ends()
    ensures
        quarter_sine(0) == 0,
        quarter_sine(QUARTER as int) == UNIT,
{
    let q = QUARTER as int;
    assert(0int * 0 / q == 0);
    vstd::arithmetic::div_mod::lemma_div_multiples_vanish(q, q);
    vstd::arithmetic::div_mod::lemma_div_multiples_vanish(SINE_C9 as int, q);
    assert(horner_step(SINE_C7 as int, SINE_C9 as int, q) == 4854723);
    vstd::arithmetic::div_mod::lemma_div_multiples_vanish(4854723, q);
    assert(horner_step(SINE_C5 as int, 4854723, q) == 80714583);
    vstd::arithmetic::div_mod::lemma_div_multiples_vanish(80714583, q);
    assert(horner_step(SINE_C3 as int, 80714583, q) == 612884085);
    vstd::arithmetic::div_mod::lemma_div_multiples_vanish(612884085, q);
    assert(horner_step(SINE_C1 as int, 612884085, q) == 1073745628);
    vstd::arithmetic::div_mod::lemma_div_denominator(1073745628 * q, q, 16384);
    vstd::arithmetic::div_mod::lemma_div_multiples_vanish(1073745628, q);
    assert(1073745628int / 16384 == 65536);
}

/// Multiplying by a Q.30 factor of at most 1.0 does not increase a value.
proof fn lemma_scaled_down(a: int, s: int, c: int)
    requires
        0 <= a <= c,
        0 <= s <= QUARTER,
    ensures
        0 <= a * s / (QUARTER as int) <= c,
        a * s <= c * QUARTER,
{
    assert(0 <= a * s <= a * (QUARTER as int)) by (nonlinear_arith)
        requires 0 <= a, 0 <= s <= QUARTER;
    assert(a * (QUARTER as int) <= c * QUARTER) by (nonlinear_arith)
        requires a <= c;
    vstd::arithmetic::div_mod::lemma_div_pos_is_pos(a * s, QUARTER as int);
    vstd::arithmetic::div_mod::lemma_div_is_ordered(a * s, a * (QUARTER as int), QUARTER as int);
    vstd::arithmetic::div_mod::lemma_div_multiples_vanish(a, QUARTER as int);
}

/// One Horner step, `c - a * s` in Q.30, where `a` is at most the previous
/// coefficient `prev`, itself at most `c`, so the step stays in `[0, c]`.
fn horner_step_exec(c: u64, a: u64, s: u64, prev: Ghost<int>) -> (r: u64)
    requires
        a <= prev@,
        prev@ <= c,
        c < 0x8000_0000,
        s <= QUARTER,
    ensures
        r == horner_step(c as int, a as int, s as int),
        r <= c,
{
    proof {
        lemma_scaled_down(a as int, s as int, prev@);
    }
    c - a * s / QUARTER
}

/// The quarter-wave sine of `u`, for `u` in `[0, QUARTER]`.
fn quarter_sine_exec(u: u64) -> (r: u64)
    requires
        u <= QUARTER,
    ensures
        r == quarter_sine(u as int),
        r <= 2 * UNIT,
{
    assert(u * u <= QUARTER * QUARTER) by (nonlinear_arith)
        requires u <= QUARTER;
    let s = u * u / QUARTER;
    proof {
        lemma_scaled_down(u as int, u as int, QUARTER as int);
    }
    let a7 = horner_step_exec(SINE_C7, SINE_C9, s, Ghost(SINE_C9 as int));
    let a5 = horner_step_exec(SINE_C5, a7, s, Ghost(SINE_C7 as int));
    let a3 = horner_step_exec(SINE_C3, a5, s, Ghost(SINE_C5 as int));
    let a1 = horner_step_exec(SINE_C1, a3, s, Ghost(SINE_C3 as int));
    assert(a1 * u <= SINE_C1 * QUARTER) by (nonlinear_arith)
        requires a1 <= SINE_C1, u <= QUARTER;
    let r = a1 * u / (QUARTER * 16384);
    assert(r <= 2 * UNIT) by {
        vstd::arithmetic::div_mod::lemma_div_is_ordered(
            (a1 * u) as int, (SINE_C1 * QUARTER) as int, (QUARTER * 16384) as int);
    }
    r
}

/// One oscillator: a waveform and a phase accumulator.
pub struct Wave {
    waveform: Waveform,
    phase: u64,
    cycle: u64,
}

impl View for Wave {
    type V = WaveView;

    closed spec fn view(&self) -> WaveView {
        WaveView { waveform: self.waveform, phase: self.phase as nat, cycle: self.cycle as nat }
    }
}

/// A phase below one cycle, carried over to another cycle length, stays below
/// one cycle.
proof fn lemma_rescaled_below(phase: int, cycle: int, new_cycle: int)
    requires
        0 <= phase < cycle,
        0 < new_cycle,
    ensures
        0 <= phase * new_cycle / cycle < new_cycle,
{
    assert(phase * new_cycle < cycle * new_cycle) by (nonlinear_arith)
        requires 0 <= phase < cycle, 0 < new_cycle;
    assert(0 <= phase * new_cycle) by (nonlinear_arith)
        requires 0 <= phase, 0 < new_cycle;
    vstd::arithmetic::div_mod::lemma_multiply_divide_lt(phase * new_cycle, cycle, new_cycle);
    vstd::arithmetic::div_mod::lemma_div_pos_is_pos(phase * new_cycle, cycle);
}

/// Adding a frequency below zero is adding the complement of its magnitude.
proof fn lemma_negative_step(a: int, k: int, c: int)
    requires
        0 < k,
        0 < c,
    ensures
        (a + (if k % c == 0 { 0 } else { c - k % c })) % c == (a - k) % c,
{
    let m = k % c;
    vstd::arithmetic::div_mod::lemma_fundamental_div_mod(k, c);
    vstd::arithmetic::div_mod::lemma_mod_multiples_vanish(-(k / c), a - m, c);
    assert(c * (-(k / c)) + (a - m) == a - k) by (nonlinear_arith)
        requires k == c * (k / c) + m;
    if m != 0 {
        vstd::arithmetic::div_mod::lemma_mod_multiples_vanish(1, a - m, c);
    }
}

impl Wave {
    pub open spec fn wf(&self) -> bool {
        self@.wf()
    }

    /// A new oscillator of `waveform` at phase zero.
    pub fn new(waveform: Waveform) -> (r: Wave)
        ensures
            r.wf(),
            r@ == WaveView::fresh(waveform),
    {
        Wave { waveform: waveform, phase: 0, cycle: 1 }
    }

    /// The waveform this oscillator plays.
    pub fn waveform(&self) -> (r: Waveform)
        ensures
            r == self@.waveform,
    {
        self.waveform
    }

    /// The phase as a fraction of `TURN`.
    fn turn(&self) -> (t: u64)
        requires
            self.wf(),
        ensures
            t == self@.turn(),
            t < TURN,
    {
        assert(self.phase * TURN < self.cycle * TURN) by (nonlinear_arith)
            requires self.phase < self.cycle;
        assert(self.cycle * TURN <= MAX_CYCLE * TURN) by (nonlinear_arith)
            requires self.cycle <= MAX_CYCLE;
        proof {
            lemma_rescaled_below(self.phase as int, self.cycle as int, TURN as int);
        }
        ((self.phase as u128 * TURN as u128) / self.cycle as u128) as u64
    }

    /// Moves the phase on by `frequency` at `sample_rate`, wrapping it into
    /// one cycle.
    fn increment_phase(&mut self, frequency: i64, sample_rate: u32)
        requires
            old(self).wf(),
            sample_rate > 0,
        ensures
            final(self).wf(),
            final(self)@ == old(self)@.stepped(frequency as int, sample_rate as int),
    {
        if frequency == 0 {
            return;
        }
        let cycle = sample_rate as u64 * UNIT;
        assert(self.phase * cycle < MAX_CYCLE * MAX_CYCLE) by (nonlinear_arith)
            requires self.phase < MAX_CYCLE, cycle <= MAX_CYCLE;
        proof {
            lemma_rescaled_below(self.phase as int, self.cycle as int, cycle as int);
        }
        let rescaled = ((self.phase as u128 * cycle as u128) / self.cycle as u128) as u64;
        let step = if frequency >= 0 {
            proof {
                vstd::arithmetic::div_mod::lemma_add_mod_noop_right(
                    rescaled as int, frequency as int, cycle as int);
            }
            (frequency as u64) % cycle
        } else {
            let m = ((-(frequency as i128)) as u128 % cycle as u128) as u64;
            proof {
                lemma_negative_step(rescaled as int, -(frequency as int), cycle as int);
            }
            if m == 0 {
                0
            } else {
                cycle - m
            }
        };
        self.phase = (rescaled + step) % cycle;
        self.cycle = cycle;
    }

    /// The level of a sine wave at the current phase.
    fn sample_sine(&self) -> (r: i64)
        requires
            self.wf(),
        ensures
            r == sine_level(self@.turn()),
            -2 * UNIT <= r <= 2 * UNIT,
    {
        let t = self.turn();
        let q = t / QUARTER;
        let rem = t % QUARTER;
        let mag = if q % 2 == 0 {
            quarter_sine_exec(rem)
        } else {
            quarter_sine_exec(QUARTER - rem)
        };
        if q < 2 {
            mag as i64
        } else {
            -(mag as i64)
        }
    }

    /// The level of a saw wave at the current phase: `2p - 1`.
    fn sample_saw(&self) -> (r: i64)
        requires
            self.wf(),
        ensures
            r == level(Waveform::Saw, self@.turn()),
            -2 * UNIT <= r <= 2 * UNIT,
    {
        let t = self.turn();
        (t / 32768) as i64 - UNIT as i64
    }

    /// The level of a square wave at the current phase: `1` from half a
    /// cycle on, `-1` before.
    fn sample_square(&self) -> (r: i64)
        requires
            self.wf(),
        ensures
            r == level(Waveform::Square, self@.turn()),
            -2 * UNIT <= r <= 2 * UNIT,
    {
        let t = self.turn();
        if t >= TURN / 2 {
            UNIT as i64
        } else {
            -(UNIT as i64)
        }
    }

    /// The level of a triangle wave at the current phase: up from `-1` to
    /// `1` over the first half of the cycle and back down over the second.
    fn sample_triangle(&self) -> (r: i64)
        requires
            self.wf(),
        ensures
            r == level(Waveform::Triangle, self@.turn()),
            -2 * UNIT <= r <= 2 * UNIT,
    {
        let t = self.turn();
        if t >= TURN / 2 {
            let past_half = t - TURN / 2;
            UNIT as i64 - (past_half / 16384) as i64
        } else {
            (t / 16384) as i64 - UNIT as i64
        }
    }

    /// Renders `n` samples in a row at a steady `frequency`, `gain` and
    /// `sample_rate`: sample `k` is the one the oscillator gives after `k`
    /// earlier samples.
    pub fn render(&mut self, frequency: i64, gain: i32, sample_rate: u32, n: usize) -> (out: Vec<i64>)
        requires
            old(self).wf(),
            sample_rate > 0,
        ensures
            final(self).wf(),
            final(self)@ == old(self)@.run(frequency as int, sample_rate as int, n as nat),
            out@.len() == n,
            forall|k: int|
                0 <= k < n ==> #[trigger] out@[k] == old(self)@.run(
                    frequency as int,
                    sample_rate as int,
                    k as nat,
                ).output(gain as int),
    {
        let ghost start = self@;
        let mut out: Vec<i64> = Vec::new();
        let mut i: usize = 0;
        while i < n
            invariant
                self.wf(),
                sample_rate > 0,
                i <= n,
                self@ == start.run(frequency as int, sample_rate as int, i as nat),
                out@.len() == i,
                forall|k: int|
                    0 <= k < i ==> #[trigger] out@[k] == start.run(
                        frequency as int,
                        sample_rate as int,
                        k as nat,
                    ).output(gain as int),
            decreases n - i,
        {
            let v = self.sample(frequency, gain, sample_rate);
            out.push(v);
            i = i + 1;
        }
        out
    }

    /// Emits the level of the waveform at the current phase times `gain`,
    /// then advances the phase by `frequency / sample_rate` of a cycle.
    ///
    /// `frequency` and `gain` are Q16.16; the result has full scale
    /// `UNIT * UNIT`. The level is taken before the phase moves.
    pub fn sample(&mut self, frequency: i64, gain: i32, sample_rate: u32) -> (r: i64)
        requires
            old(self).wf(),
            sample_rate > 0,
        ensures
            final(self).wf(),
            final(self)@ == old(self)@.stepped(frequency as int, sample_rate as int),
            r == old(self)@.output(gain as int),
            frequency == 0 ==> final(self)@ == old(self)@ && final(self)@.turn() == old(self)@.turn(),
            -0x2_0000_0000_0000 <= r <= 0x2_0000_0000_0000,
    {
        let new_sample = match self.waveform {
            Waveform::Sine => self.sample_sine(),
            Waveform::Saw => self.sample_saw(),
            Waveform::Square => self.sample_square(),
            Waveform::Triangle => self.sample_triangle(),
        };
        self.increment_phase(frequency, sample_rate);
        assert(-0x2_0000_0000_0000 <= new_sample * gain <= 0x2_0000_0000_0000) by (nonlinear_arith)
            requires
                -2 * UNIT <= new_sample <= 2 * UNIT,
                -0x8000_0000 <= gain < 0x8000_0000;
        new_sample * gain as i64
    }
}

/// Carrying a phase over to the cycle length it already counts in changes
/// nothing.
proof fn lemma_rescale_same(phase: int, cycle: int)
    requires
        0 < cycle,
    ensures
        phase * cycle / cycle == phase,
{
    vstd::arithmetic::div_mod::lemma_div_multiples_vanish(phase, cycle);
    vstd::arithmetic::mul::lemma_mul_is_commutative(phase, cycle);
}

/// From the first sample on, a fresh oscillator at a steady frequency sits
/// at `k * frequency` steps into the cycle of the sample rate.
proof fn lemma_fresh_run(waveform: Waveform, frequency: int, sample_rate: int, k: nat)
    requires
        0 < sample_rate,
        frequency != 0,
        0 < k,
    ensures
        WaveView::fresh(waveform).run(frequency, sample_rate, k) == (WaveView {
            waveform,
            phase: ((k * frequency) % cycle_of(sample_rate)) as nat,
            cycle: cycle_of(sample_rate) as nat,
        }),
    decreases k,
{
    let c = cycle_of(sample_rate);
    assert(c > 0) by (nonlinear_arith)
        requires c == sample_rate * UNIT, 0 < sample_rate;
    vstd::arithmetic::div_mod::lemma_mod_bound(k * frequency, c);
    if k == 1 {
        assert(WaveView::fresh(waveform).run(frequency, sample_rate, 0) == WaveView::fresh(waveform));
        assert(0 * c / 1 == 0 && 1 * frequency == frequency) by (nonlinear_arith);
    } else {
        lemma_fresh_run(waveform, frequency, sample_rate, (k - 1) as nat);
        let prev = ((k - 1) * frequency) % c;
        vstd::arithmetic::div_mod::lemma_mod_bound((k - 1) * frequency, c);
        lemma_rescale_same(prev, c);
        vstd::arithmetic::div_mod::lemma_add_mod_noop_right(frequency, (k - 1) * frequency, c);
        assert((k - 1) * frequency + frequency == k * frequency) by (nonlinear_arith);
    }
}

/// Periodicity: a fresh oscillator whose frequency goes `n` times into the
/// sample rate (`n * frequency == sample_rate` in Q16.16) repeats itself
/// exactly every `n` samples, from the first sample on.
pub proof fn law_periodic(
    waveform: Waveform,
    frequency: int,
    sample_rate: int,
    gain: int,
    n: nat,
    k: nat,
)
    requires
        0 < sample_rate,
        0 < n,
        n * frequency == cycle_of(sample_rate),
    ensures
        WaveView::fresh(waveform).run(frequency, sample_rate, k + n).output(gain)
            == WaveView::fresh(waveform).run(frequency, sample_rate, k).output(gain),
{
    let c = cycle_of(sample_rate);
    assert(c > 0) by (nonlinear_arith)
        requires c == sample_rate * UNIT, 0 < sample_rate;
    assert(frequency != 0) by (nonlinear_arith)
        requires n * frequency == c, c > 0;
    lemma_fresh_run(waveform, frequency, sample_rate, k + n);
    assert((k + n) * frequency == c * 1 + k * frequency) by (nonlinear_arith)
        requires n * frequency == c;
    vstd::arithmetic::div_mod::lemma_mod_multiples_vanish(1, k * frequency, c);
    if k == 0 {
        vstd::arithmetic::div_mod::lemma_mod_self_0(c);
        assert(0 * TURN / c == 0 && 0 * TURN / 1 == 0) by (nonlinear_arith)
            requires c > 0;
    } else {
        lemma_fresh_run(waveform, frequency, sample_rate, k);
    }
}

/// Zero frequency: at frequency zero the phase never moves, so every call
/// gives the same sample, from any state and at any sample rate.
pub proof fn law_zero_frequency(w: WaveView, sample_rate: int, gain: int, k: nat)
    ensures
        w.run(0, sample_rate, k) == w,
        w.run(0, sample_rate, k).output(gain) == w.output(gain),
    decreases k,
{
    if k > 0 {
        law_zero_frequency(w, sample_rate, gain, (k - 1) as nat);
    }
}

/// Gain linearity: the gain scales the sample and nothing else. The sample at
/// gain `g` is the sample at gain one times `g` (in Q16.16), and the phase
/// moves on the same way whatever the gain.
pub proof fn law_gain_linear(w: WaveView, gain: int)
    ensures
        w.output(gain) * UNIT == w.output(UNIT as int) * gain,
{
    let l = w.level();
    assert(l * gain * UNIT == l * UNIT * gain) by (nonlinear_arith);
}

/// Wrapping: one sample always leaves the phase inside one cycle, and a
/// phase that lands exactly on a whole cycle wraps to zero. The landing is
/// exact when `phase / cycle + frequency / cycle_of(sample_rate)` is exactly
/// one, also across a change of sample rate.
pub proof fn law_wrap(w: WaveView, frequency: int, sample_rate: int)
    requires
        w.wf(),
        0 < sample_rate < 0x1_0000_0000,
    ensures
        w.stepped(frequency, sample_rate).wf(),
        w.phase * cycle_of(sample_rate) + frequency * w.cycle == cycle_of(sample_rate) * w.cycle
            ==> {
            &&& w.stepped(frequency, sample_rate).phase == 0
            &&& w.stepped(frequency, sample_rate).turn() == 0
        },
{
    let c = cycle_of(sample_rate);
    assert(0 < c <= MAX_CYCLE) by (nonlinear_arith)
        requires c == sample_rate * UNIT, 0 < sample_rate < 0x1_0000_0000;
    lemma_rescaled_below(w.phase as int, w.cycle as int, c);
    vstd::arithmetic::div_mod::lemma_mod_bound(w.phase * c / (w.cycle as int) + frequency, c);
    if w.phase * c + frequency * w.cycle == c * w.cycle {
        if frequency == 0 {
            assert(w.phase * c == w.cycle * c);
            vstd::arithmetic::mul::lemma_mul_equality_converse(c, w.phase as int, w.cycle as int);
            assert(false);
        }
        assert(w.phase * c == (c - frequency) * w.cycle) by (nonlinear_arith)
            requires w.phase * c + frequency * w.cycle == c * w.cycle;
        lemma_rescale_same(c - frequency, w.cycle as int);
        vstd::arithmetic::div_mod::lemma_mod_self_0(c);
        assert(0 * TURN / c == 0) by (nonlinear_arith)
            requires c > 0;
    }
}

} // verus!
