use vstd::prelude::*;

use crate::wave::{cycle_of, Wave, WaveView, MAX_CYCLE, UNIT};

verus! {

/// The shape of the three oscillators.
#[derive(Clone, Copy, Debug, PartialEq, Eq, Structural)]
pub enum Waveform {
    Sine,
    Saw,
    Square,
    Triangle,
}

/// The controls of one oscillator slot for one sample, all Q16.16.
#[derive(Clone, Copy, Debug, PartialEq, Eq, Structural)]
pub struct WaveParams {
    /// Factor on the base frequency.
    pub multiplier: i32,
    /// Linear gain (not decibels).
    pub gain: i32,
    /// Relative detune: the frequency is scaled by `1 + offset`.
    pub offset: i32,
}

/// The controls of the whole bank for one sample.
#[derive(Clone, Copy, Debug, PartialEq, Eq, Structural)]
pub struct WaveCompositorParams {
    pub waveform: Waveform,
    /// Base frequency in Hz, Q16.16.
    pub base_frequency: u32,
    pub wave_1: WaveParams,
    pub wave_2: WaveParams,
    pub wave_3: WaveParams,
}

/// The Q16.16 form of 440 Hz.
pub const DEFAULT_BASE_FREQUENCY: u32 = 28835840;

impl Default for WaveParams {
    /// Multiplier one, no detune, and a gain of -100 dB (1e-5), the nearest
    /// Q16.16 step to which is one.
    fn default() -> (r: Self)
        ensures
            r == (WaveParams { multiplier: UNIT as i32, gain: 1, offset: 0 }),
    {
        WaveParams { multiplier: UNIT as i32, gain: 1, offset: 0 }
    }
}

impl Default for WaveCompositorParams {
    /// A sine at 440 Hz with every slot at its default.
    fn default() -> (r: Self)
        ensures
            r.waveform == Waveform::Sine,
            r.base_frequency == DEFAULT_BASE_FREQUENCY,
            r.wave_1 == (WaveParams { multiplier: UNIT as i32, gain: 1, offset: 0 }),
            r.wave_2 == r.wave_1,
            r.wave_3 == r.wave_1,
    {
        WaveCompositorParams {
            waveform: Waveform::Sine,
            base_frequency: DEFAULT_BASE_FREQUENCY,
            wave_1: WaveParams::default(),
            wave_2: WaveParams::default(),
            wave_3: WaveParams::default(),
        }
    }
}

/// The frequency of one slot, Q16.16: `base * multiplier * (1 + offset)`,
/// rounded down.
pub open spec fn target_frequency(base: int, multiplier: int, offset: int) -> int {
    base * multiplier * (UNIT + offset) / (UNIT * UNIT) as int
}

/// A product of two bounded magnitudes is bounded by the product of the
/// bounds.
proof fn lemma_mul_bound(x: int, y: int, a: int, b: int)
    requires
        -a <= x <= a,
        -b <= y <= b,
    ensures
        -(a * b) <= x * y <= a * b,
{
    if x >= 0 {
        if y >= 0 {
            assert(x * y <= a * b) by (nonlinear_arith)
                requires 0 <= x <= a, 0 <= y <= b;
            assert(0 <= x * y) by (nonlinear_arith)
                requires 0 <= x, 0 <= y;
        } else {
            assert((-y) * x <= b * a) by (nonlinear_arith)
                requires 0 <= x <= a, 0 <= -y <= b;
            assert(x * y <= 0) by (nonlinear_arith)
                requires 0 <= x, y < 0;
        }
    } else {
        if y >= 0 {
            assert((-x) * y <= a * b) by (nonlinear_arith)
                requires 0 <= -x <= a, 0 <= y <= b;
            assert(x * y <= 0) by (nonlinear_arith)
                requires x < 0, 0 <= y;
        } else {
            assert((-x) * (-y) <= a * b) by (nonlinear_arith)
                requires 0 <= -x <= a, 0 <= -y <= b;
            assert(0 <= x * y) by (nonlinear_arith)
                requires x < 0, y < 0;
        }
    }
    assert(a * b >= 0) by (nonlinear_arith)
        requires -a <= x <= a, -b <= y <= b;
    assert((-x) * y == -(x * y) && x * (-y) == -(x * y) && (-y) * x == -(x * y)
        && (-x) * (-y) == x * y && b * a == a * b) by (nonlinear_arith);
}

/// Division by a positive number rounds down below zero too.
proof fn lemma_floor_of_negative(n: int, d: int)
    requires
        0 < n,
        0 < d,
    ensures
        (-n) / d == -((n + d - 1) / d),
{
    let q = n / d;
    let r = n % d;
    vstd::arithmetic::div_mod::lemma_fundamental_div_mod(n, d);
    vstd::arithmetic::div_mod::lemma_mod_pos_bound(n, d);
    assert(n + d - 1 == q * d + r + d - 1 && -n == (-q) * d - r) by (nonlinear_arith)
        requires n == d * q + r;
    assert((q + 1) * d == q * d + d && (-(q + 1)) * d == (-q) * d - d) by (nonlinear_arith);
    if r == 0 {
        vstd::arithmetic::div_mod::lemma_fundamental_div_mod_converse_div(n + d - 1, d, q, d - 1);
        vstd::arithmetic::div_mod::lemma_fundamental_div_mod_converse_div(-n, d, -q, 0);
    } else {
        vstd::arithmetic::div_mod::lemma_fundamental_div_mod_converse_div(n + d - 1, d, q + 1, r - 1);
        vstd::arithmetic::div_mod::lemma_fundamental_div_mod_converse_div(-n, d, -(q + 1), d - r);
    }
}

/// The frequency of one slot, Q16.16: `base * multiplier * (1 + offset)`,
/// rounded down. No value is rejected.
pub fn target_frequency_exec(base: u32, multiplier: i32, offset: i32) -> (r: i64)
    ensures
        r == target_frequency(base as int, multiplier as int, offset as int),
{
    let scale: u128 = (UNIT * UNIT) as u128;
    let factor: i128 = UNIT as i128 + offset as i128;
    proof {
        lemma_mul_bound(base as int, multiplier as int, 0x1_0000_0000, 0x8000_0000);
    }
    let bm: i128 = base as i128 * multiplier as i128;
    proof {
        lemma_mul_bound(bm as int, factor as int, 0x8000_0000_0000_0000, 0x8001_0000);
    }
    let p: i128 = bm * factor;
    if p >= 0 {
        (p as u128 / scale) as i64
    } else {
        let n: u128 = (-p) as u128;
        proof {
            lemma_floor_of_negative(n as int, scale as int);
        }
        -(((n + scale - 1) / scale) as i64)
    }
}

/// What the bank is: the sample rate in effect and the three oscillators.
pub ghost struct CompositorView {
    pub sample_rate: nat,
    pub wave_1: WaveView,
    pub wave_2: WaveView,
    pub wave_3: WaveView,
}

impl CompositorView {
    /// A positive sample rate, three well-formed oscillators, one waveform.
    pub open spec fn wf(self) -> bool {
        &&& 0 < self.sample_rate < 0x1_0000_0000
        &&& self.wave_1.wf()
        &&& self.wave_2.wf()
        &&& self.wave_3.wf()
        &&& self.wave_2.waveform == self.wave_1.waveform
        &&& self.wave_3.waveform == self.wave_1.waveform
    }

    pub open spec fn waveform(self) -> Waveform {
        self.wave_1.waveform
    }

    /// The bank after being told to play `target`: unchanged if it already
    /// does, else three fresh oscillators of `target`.
    pub open spec fn with_waveform(self, target: Waveform) -> CompositorView {
        if target == self.waveform() {
            self
        } else {
            CompositorView {
                sample_rate: self.sample_rate,
                wave_1: WaveView::fresh(target),
                wave_2: WaveView::fresh(target),
                wave_3: WaveView::fresh(target),
            }
        }
    }

    /// The sum of the three oscillators' samples, each at its gain in
    /// `params`.
    pub open spec fn mix(self, params: WaveCompositorParams) -> int {
        self.wave_1.output(params.wave_1.gain as int) + self.wave_2.output(
            params.wave_2.gain as int,
        ) + self.wave_3.output(params.wave_3.gain as int)
    }

    /// The three oscillators advanced by one sample, each at its own target
    /// frequency.
    pub open spec fn advance(self, params: WaveCompositorParams) -> CompositorView {
        let base = params.base_frequency as int;
        let sr = self.sample_rate as int;
        CompositorView {
            sample_rate: self.sample_rate,
            wave_1: self.wave_1.stepped(
                target_frequency(base, params.wave_1.multiplier as int, params.wave_1.offset as int),
                sr,
            ),
            wave_2: self.wave_2.stepped(
                target_frequency(base, params.wave_2.multiplier as int, params.wave_2.offset as int),
                sr,
            ),
            wave_3: self.wave_3.stepped(
                target_frequency(base, params.wave_3.multiplier as int, params.wave_3.offset as int),
                sr,
            ),
        }
    }

    /// The composite sample for one snapshot of the controls.
    pub open spec fn rendered(self, params: WaveCompositorParams) -> int {
        self.with_waveform(params.waveform).mix(params)
    }

    /// The bank after rendering one sample.
    pub open spec fn next(self, params: WaveCompositorParams) -> CompositorView {
        self.with_waveform(params.waveform).advance(params)
    }

    /// The bank after rendering one sample for each snapshot, in order.
    pub open spec fn after(self, snapshots: Seq<WaveCompositorParams>) -> CompositorView
        decreases snapshots.len(),
    {
        if snapshots.len() == 0 {
            self
        } else {
            self.after(snapshots.drop_last()).next(snapshots.last())
        }
    }
}

/// The render engine: three oscillators sharing one waveform, summed.
pub struct WaveCompositor {
    sample_rate: u32,
    wave_1: Wave,
    wave_2: Wave,
    wave_3: Wave,
}

impl View for WaveCompositor {
    type V = CompositorView;

    closed spec fn view(&self) -> CompositorView {
        CompositorView {
            sample_rate: self.sample_rate as nat,
            wave_1: self.wave_1@,
            wave_2: self.wave_2@,
            wave_3: self.wave_3@,
        }
    }
}

impl Default for WaveCompositor {
    /// A bank of three sine oscillators at phase zero, with a sample rate of
    /// one until `initialize` sets the real one.
    fn default() -> (r: Self)
        ensures
            r@.wf(),
            r@ == (CompositorView {
                sample_rate: 1,
                wave_1: WaveView::fresh(Waveform::Sine),
                wave_2: WaveView::fresh(Waveform::Sine),
                wave_3: WaveView::fresh(Waveform::Sine),
            }),
    {
        WaveCompositor {
            sample_rate: 1,
            wave_1: Wave::new(Waveform::Sine),
            wave_2: Wave::new(Waveform::Sine),
            wave_3: Wave::new(Waveform::Sine),
        }
    }
}

impl WaveCompositor {
    /// Sets the sample rate of a new processing session. A rate of zero is
    /// refused: the result is `false` and nothing changes.
    pub fn initialize(&mut self, sample_rate: u32) -> (ok: bool)
        requires
            old(self)@.wf(),
        ensures
            final(self)@.wf(),
            ok == (sample_rate > 0),
            ok ==> final(self)@ == (CompositorView { sample_rate: sample_rate as nat, ..old(self)@ }),
            !ok ==> final(self)@ == old(self)@,
    {
        if sample_rate == 0 {
            return false;
        }
        self.sample_rate = sample_rate;
        true
    }

    /// The sample rate in effect.
    pub fn sample_rate(&self) -> (r: u32)
        ensures
            r == self@.sample_rate,
    {
        self.sample_rate
    }

    /// The waveform the three oscillators play.
    pub fn waveform(&self) -> (r: Waveform)
        requires
            self@.wf(),
        ensures
            r == self@.waveform(),
    {
        self.wave_1.waveform()
    }

    /// Switches all three oscillators to `target` at once, from phase zero,
    /// unless they already play it.
    pub fn set_waveform(&mut self, target: Waveform)
        requires
            old(self)@.wf(),
        ensures
            final(self)@.wf(),
            final(self)@ == old(self)@.with_waveform(target),
    {
        if self.wave_1.waveform() != target {
            self.wave_1 = Wave::new(target);
            self.wave_2 = Wave::new(target);
            self.wave_3 = Wave::new(target);
        }
    }

    /// Renders one sample for one snapshot of the controls: sets the
    /// waveform, then samples the three oscillators in order, each at
    /// `base * multiplier * (1 + offset)` and its gain, and returns the sum.
    pub fn render_sample(&mut self, params: &WaveCompositorParams) -> (r: i64)
        requires
            old(self)@.wf(),
        ensures
            final(self)@.wf(),
            r == old(self)@.rendered(*params),
            final(self)@ == old(self)@.next(*params),
    {
        self.set_waveform(params.waveform);
        let f1 = target_frequency_exec(params.base_frequency, params.wave_1.multiplier, params.wave_1.offset);
        let s1 = self.wave_1.sample(f1, params.wave_1.gain, self.sample_rate);
        let f2 = target_frequency_exec(params.base_frequency, params.wave_2.multiplier, params.wave_2.offset);
        let s2 = self.wave_2.sample(f2, params.wave_2.gain, self.sample_rate);
        let f3 = target_frequency_exec(params.base_frequency, params.wave_3.multiplier, params.wave_3.offset);
        let s3 = self.wave_3.sample(f3, params.wave_3.gain, self.sample_rate);
        s1 + s2 + s3
    }

    /// Renders one sample per snapshot, in order, reading each snapshot fresh
    /// for its own sample. The same mono signal goes to every output channel.
    pub fn process(&mut self, snapshots: &Vec<WaveCompositorParams>) -> (out: Vec<i64>)
        requires
            old(self)@.wf(),
        ensures
            final(self)@.wf(),
            final(self)@ == old(self)@.after(snapshots@),
            out@.len() == snapshots@.len(),
            forall|i: int|
                0 <= i < snapshots@.len() ==> out@[i] == old(self)@.after(
                    #[trigger] snapshots@.take(i),
                ).rendered(snapshots@[i]),
    {
        let ghost start = self@;
        let mut out: Vec<i64> = Vec::new();
        let mut i: usize = 0;
        while i < snapshots.len()
            invariant
                self@.wf(),
                i <= snapshots@.len(),
                self@ == start.after(snapshots@.take(i as int)),
                out@.len() == i,
                forall|j: int|
                    0 <= j < i ==> out@[j] == start.after(#[trigger] snapshots@.take(j)).rendered(
                        snapshots@[j],
                    ),
            decreases snapshots@.len() - i,
        {
            let v = self.render_sample(&snapshots[i]);
            out.push(v);
            assert(snapshots@.take(i + 1).drop_last() =~= snapshots@.take(i as int));
            i = i + 1;
        }
        assert(snapshots@.take(i as int) =~= snapshots@);
        out
    }
}

/// Switching the waveform restarts the bank: whatever state it is in, when
/// a snapshot asks for another waveform all three oscillators start again
/// from phase zero, so the composite sample is the one three new oscillators
/// of that waveform give.
pub proof fn law_switch_resets_phase(c: CompositorView, params: WaveCompositorParams)
    requires
        c.wf(),
        params.waveform != c.waveform(),
    ensures
        c.with_waveform(params.waveform).wave_1 == WaveView::fresh(params.waveform),
        c.with_waveform(params.waveform).wave_2 == WaveView::fresh(params.waveform),
        c.with_waveform(params.waveform).wave_3 == WaveView::fresh(params.waveform),
        c.rendered(params) == WaveView::fresh(params.waveform).output(params.wave_1.gain as int)
            + WaveView::fresh(params.waveform).output(params.wave_2.gain as int)
            + WaveView::fresh(params.waveform).output(params.wave_3.gain as int),
{
}

/// Summation: the composite sample is the exact sum of three stand-alone
/// oscillators in the bank's state, each fed its slot's target frequency and
/// gain, and the bank moves on exactly as they do.
pub proof fn law_sum_of_voices(
    c: CompositorView,
    params: WaveCompositorParams,
    w1: WaveView,
    w2: WaveView,
    w3: WaveView,
)
    requires
        c.wf(),
        c.with_waveform(params.waveform).wave_1 == w1,
        c.with_waveform(params.waveform).wave_2 == w2,
        c.with_waveform(params.waveform).wave_3 == w3,
    ensures
        c.rendered(params) == w1.output(params.wave_1.gain as int) + w2.output(
            params.wave_2.gain as int,
        ) + w3.output(params.wave_3.gain as int),
        c.next(params).wave_1 == w1.stepped(
            target_frequency(
                params.base_frequency as int,
                params.wave_1.multiplier as int,
                params.wave_1.offset as int,
            ),
            c.sample_rate as int,
        ),
        c.next(params).wave_2 == w2.stepped(
            target_frequency(
                params.base_frequency as int,
                params.wave_2.multiplier as int,
                params.wave_2.offset as int,
            ),
            c.sample_rate as int,
        ),
        c.next(params).wave_3 == w3.stepped(
            target_frequency(
                params.base_frequency as int,
                params.wave_3.multiplier as int,
                params.wave_3.offset as int,
            ),
            c.sample_rate as int,
        ),
{
}

} // verus!
