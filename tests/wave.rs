use wave_compositor::plugin::Waveform;
use wave_compositor::wave::{Wave, UNIT};

const FREQUENCY: i64 = 65536;
const SAMPLE_RATE: u32 = 8;
const FULL_SCALE: f64 = 4294967296.0;

fn render(waveform: Waveform, n: usize, frequency: i64, gain: i32, sample_rate: u32) -> Vec<i64> {
    let mut wave = Wave::new(waveform);
    let mut buf: Vec<i64> = Vec::new();
    for _ in 0..n {
        buf.push(wave.sample(frequency, gain, sample_rate));
    }
    buf
}

fn run_test(waveform: Waveform, expected: Vec<f64>) {
    let actual = render(waveform, expected.len(), FREQUENCY, UNIT as i32, SAMPLE_RATE);
    let mut is_pass = true;
    for i in 0..expected.len() {
        let left = expected[i];
        let right = actual[i] as f64 / FULL_SCALE;
        println!("{:.3} = {:.3}", left, right);
        if (left - right).abs() > 0.001 {
            is_pass = false;
        }
    }
    assert!(is_pass)
}

#[test]
fn test_sine() {
    let expected = vec![0.0, 0.707, 1.0, 0.707, 0.0, -0.707, -1.0, -0.707];
    run_test(Waveform::Sine, expected)
}

#[test]
fn test_saw() {
    let expected = vec![-1.0, -0.75, -0.5, -0.25, 0.0, 0.25, 0.5, 0.75];
    run_test(Waveform::Saw, expected)
}

#[test]
fn test_square() {
    let expected = vec![-1.0, -1.0, -1.0, -1.0, 1.0, 1.0, 1.0, 1.0];
    run_test(Waveform::Square, expected)
}

#[test]
fn test_triangle() {
    let expected = vec![-1.0, -0.5, 0.0, 0.5, 1.0, 0.5, 0.0, -0.5];
    run_test(Waveform::Triangle, expected)
}

const ALL: [Waveform; 4] = [Waveform::Sine, Waveform::Saw, Waveform::Square, Waveform::Triangle];

#[test]
fn saw_square_triangle_are_exact_at_eighths() {
    let one = (UNIT * UNIT) as i64;
    let saw = render(Waveform::Saw, 8, FREQUENCY, UNIT as i32, SAMPLE_RATE);
    let expected: Vec<i64> = (0..8).map(|k| -one + k * one / 4).collect();
    assert_eq!(saw, expected);
    let square = render(Waveform::Square, 8, FREQUENCY, UNIT as i32, SAMPLE_RATE);
    assert_eq!(square, vec![-one, -one, -one, -one, one, one, one, one]);
    let triangle = render(Waveform::Triangle, 8, FREQUENCY, UNIT as i32, SAMPLE_RATE);
    assert_eq!(triangle, vec![-one, -one / 2, 0, one / 2, one, one / 2, 0, -one / 2]);
}

#[test]
fn sine_hits_its_peaks_exactly() {
    let one = (UNIT * UNIT) as i64;
    let sine = render(Waveform::Sine, 8, FREQUENCY, UNIT as i32, SAMPLE_RATE);
    assert_eq!(sine[0], 0);
    assert_eq!(sine[2], one);
    assert_eq!(sine[4], 0);
    assert_eq!(sine[6], -one);
    assert_eq!(sine[1], -sine[5]);
}

#[test]
fn periodic_over_whole_cycles() {
    // 480 Hz at 48 kHz: a cycle of exactly 100 samples.
    for w in ALL {
        let out = render(w, 300, 480 * 65536, UNIT as i32, 48000);
        assert_eq!(&out[0..100], &out[100..200]);
        assert_eq!(&out[100..200], &out[200..300]);
    }
}

#[test]
fn gain_scales_linearly() {
    let g: i32 = 19661; // about 0.3
    for w in ALL {
        let unit = render(w, 50, 441 * 65536, UNIT as i32, 44100);
        let scaled = render(w, 50, 441 * 65536, g, 44100);
        for i in 0..50 {
            assert_eq!(scaled[i] * UNIT as i64, unit[i] * g as i64);
        }
    }
}

#[test]
fn zero_frequency_holds_the_phase() {
    for w in ALL {
        let out = render(w, 20, 0, 40000, 44100);
        for v in &out {
            assert_eq!(*v, out[0]);
        }
    }
    let mut wave = Wave::new(Waveform::Saw);
    for _ in 0..3 {
        wave.sample(1000 * 65536, UNIT as i32, 8000);
    }
    let held = wave.sample(0, UNIT as i32, 8000);
    for _ in 0..10 {
        assert_eq!(wave.sample(0, UNIT as i32, 8000), held);
    }
}

#[test]
fn phase_at_one_wraps_to_zero() {
    // Half a hertz at 8 Hz: the phase reaches exactly one cycle after 16 samples.
    for w in ALL {
        let out = render(w, 17, 32768, UNIT as i32, SAMPLE_RATE);
        assert_eq!(out[16], out[0]);
    }
    let saw = render(Waveform::Saw, 17, 32768, UNIT as i32, SAMPLE_RATE);
    assert_eq!(saw[16], -((UNIT * UNIT) as i64));
}

#[test]
fn negative_frequency_runs_backwards() {
    let out = render(Waveform::Saw, 3, -FREQUENCY, UNIT as i32, SAMPLE_RATE);
    let one = (UNIT * UNIT) as i64;
    assert_eq!(out, vec![-one, one - one / 4, one / 2]);
}

#[test]
fn sample_rate_change_keeps_the_phase_fraction() {
    let mut wave = Wave::new(Waveform::Saw);
    // A quarter cycle at 8 Hz, then the session moves to 16 Hz.
    wave.sample(2 * 65536, UNIT as i32, SAMPLE_RATE);
    let next = wave.sample(0, UNIT as i32, 16);
    assert_eq!(next, -((UNIT * UNIT) as i64) / 2);
}

#[test]
fn new_wave_reports_its_waveform() {
    for w in ALL {
        assert_eq!(Wave::new(w).waveform(), w);
    }
}

#[test]
fn zero_frequency_keeps_the_phase_across_a_rate_change() {
    let mut wave = Wave::new(Waveform::Triangle);
    wave.sample(1, UNIT as i32, 3);
    let a = wave.sample(0, UNIT as i32, 2);
    let b = wave.sample(0, UNIT as i32, 2);
    assert_eq!(a, b);
    assert_eq!(a, -65535 * 65536);
}

#[test]
fn render_repeats_every_whole_cycle() {
    for w in ALL {
        let mut wave = Wave::new(w);
        let out = wave.render(480 * 65536, UNIT as i32, 48000, 200);
        assert_eq!(out.len(), 200);
        assert_eq!(&out[0..100], &out[100..200]);
        assert_eq!(out, render(w, 200, 480 * 65536, UNIT as i32, 48000));
    }
}

#[test]
fn wrap_is_exact_across_a_rate_change() {
    // A quarter cycle at 8 Hz, then three quarters at 16 Hz: exactly one cycle.
    let mut wave = Wave::new(Waveform::Saw);
    wave.sample(2 * 65536, UNIT as i32, SAMPLE_RATE);
    wave.sample(12 * 65536, UNIT as i32, 16);
    assert_eq!(wave.sample(0, UNIT as i32, 16), -((UNIT * UNIT) as i64));
}
