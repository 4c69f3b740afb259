use wave_compositor::plugin::{
    target_frequency_exec, WaveCompositor, WaveCompositorParams, WaveParams, Waveform,
    DEFAULT_BASE_FREQUENCY,
};
use wave_compositor::wave::{Wave, UNIT};

fn slot(multiplier: i32, gain: i32, offset: i32) -> WaveParams {
    WaveParams { multiplier, gain, offset }
}

fn snapshot(waveform: Waveform) -> WaveCompositorParams {
    WaveCompositorParams {
        waveform,
        base_frequency: 440 * 65536,
        wave_1: slot(65536, 65536, 0),
        wave_2: slot(131072, 32768, 3277),
        wave_3: slot(196608, 16384, -3277),
    }
}

fn started(sample_rate: u32) -> WaveCompositor {
    let mut c = WaveCompositor::default();
    assert!(c.initialize(sample_rate));
    c
}

#[test]
fn target_frequency_is_base_times_multiplier_times_detune() {
    assert_eq!(target_frequency_exec(440 * 65536, 65536, 0), 440 * 65536);
    assert_eq!(target_frequency_exec(28835840, 131072, 6554), 63439200);
    assert_eq!(target_frequency_exec(28835840, 65536, -6554), 25952080);
    assert_eq!(target_frequency_exec(28835840, -65536, 1), -28836280);
}

#[test]
fn target_frequency_rounds_down_below_zero() {
    assert_eq!(target_frequency_exec(1, -1, 0), -1);
    assert_eq!(target_frequency_exec(1, 1, 0), 0);
}

#[test]
fn initialize_refuses_a_zero_sample_rate() {
    let mut c = WaveCompositor::default();
    assert_eq!(c.sample_rate(), 1);
    assert!(!c.initialize(0));
    assert_eq!(c.sample_rate(), 1);
    assert!(c.initialize(48000));
    assert_eq!(c.sample_rate(), 48000);
}

#[test]
fn render_is_the_sum_of_three_oscillators() {
    let params = snapshot(Waveform::Sine);
    let mut c = started(44100);
    let mut w1 = Wave::new(Waveform::Sine);
    let mut w2 = Wave::new(Waveform::Sine);
    let mut w3 = Wave::new(Waveform::Sine);
    let f1 = target_frequency_exec(params.base_frequency, params.wave_1.multiplier, params.wave_1.offset);
    let f2 = target_frequency_exec(params.base_frequency, params.wave_2.multiplier, params.wave_2.offset);
    let f3 = target_frequency_exec(params.base_frequency, params.wave_3.multiplier, params.wave_3.offset);
    for _ in 0..64 {
        let expected = w1.sample(f1, params.wave_1.gain, 44100)
            + w2.sample(f2, params.wave_2.gain, 44100)
            + w3.sample(f3, params.wave_3.gain, 44100);
        assert_eq!(c.render_sample(&params), expected);
    }
}

#[test]
fn switching_waveform_resets_all_phases() {
    let mut c = started(44100);
    let sine = snapshot(Waveform::Sine);
    for _ in 0..37 {
        c.render_sample(&sine);
    }
    let saw = snapshot(Waveform::Saw);
    let fresh = Wave::new(Waveform::Saw);
    let mut w1 = Wave::new(Waveform::Saw);
    let mut w2 = Wave::new(Waveform::Saw);
    let mut w3 = Wave::new(Waveform::Saw);
    assert_eq!(fresh.waveform(), Waveform::Saw);
    let expected = w1.sample(0, saw.wave_1.gain, 44100)
        + w2.sample(0, saw.wave_2.gain, 44100)
        + w3.sample(0, saw.wave_3.gain, 44100);
    assert_eq!(c.render_sample(&saw), expected);
    assert_eq!(c.waveform(), Waveform::Saw);
    // Phase zero of a saw is -1 in every slot.
    let one = (UNIT * UNIT) as i64;
    assert_eq!(expected, -one - one / 2 - one / 4);
}

#[test]
fn same_waveform_keeps_the_phases() {
    let mut c = started(8);
    let mut params = snapshot(Waveform::Saw);
    params.base_frequency = 65536;
    params.wave_2 = slot(65536, 0, 0);
    params.wave_3 = slot(65536, 0, 0);
    let one = (UNIT * UNIT) as i64;
    assert_eq!(c.render_sample(&params), -one);
    c.set_waveform(Waveform::Saw);
    assert_eq!(c.render_sample(&params), -one + one / 4);
    c.set_waveform(Waveform::Square);
    assert_eq!(c.waveform(), Waveform::Square);
    params.waveform = Waveform::Square;
    assert_eq!(c.render_sample(&params), -one);
}

#[test]
fn process_renders_each_snapshot_in_turn() {
    let mut snapshots: Vec<WaveCompositorParams> = Vec::new();
    for k in 0..40u32 {
        let mut p = snapshot(if k < 20 { Waveform::Triangle } else { Waveform::Square });
        p.base_frequency = (300 + k) * 65536;
        snapshots.push(p);
    }
    let mut a = started(48000);
    let out = a.process(&snapshots);
    let mut b = started(48000);
    assert_eq!(out.len(), 40);
    for i in 0..40 {
        assert_eq!(out[i], b.render_sample(&snapshots[i]));
    }
    assert_eq!(a.process(&Vec::new()), Vec::<i64>::new());
}

#[test]
fn defaults() {
    let p = WaveCompositorParams::default();
    assert_eq!(p.waveform, Waveform::Sine);
    assert_eq!(p.base_frequency, DEFAULT_BASE_FREQUENCY);
    assert_eq!(DEFAULT_BASE_FREQUENCY, 440 * 65536);
    assert_eq!(p.wave_1, WaveParams::default());
    assert_eq!(p.wave_1, slot(65536, 1, 0));
    assert_eq!(p.wave_3, p.wave_2);
    let c = WaveCompositor::default();
    assert_eq!(c.waveform(), Waveform::Sine);
    assert_eq!(c.sample_rate(), 1);
}
