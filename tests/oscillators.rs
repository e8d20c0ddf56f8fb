use libdsp::oscillators::{Oscillator, OscillatorMode};
use libdsp::traits::MonoGenerator;
use libdsp::{HALF_CYCLE, PHASE_CYCLE, SAMPLE_ONE};

const MODES: [OscillatorMode; 4] = [
    OscillatorMode::Sine,
    OscillatorMode::Saw,
    OscillatorMode::Square,
    OscillatorMode::Triangle,
];

#[test]
fn increment_for_concert_pitch() {
    let osc = Oscillator::new(OscillatorMode::Saw, 440_000, 48_000);
    assert_eq!(osc.phase_increment(), 39_370_533);
    assert_eq!(osc.phase(), 0);
    assert_eq!(osc.frequency(), 440_000);
    assert_eq!(osc.sample_rate(), 48_000);
}

#[test]
fn zero_sample_rate_gives_no_advance() {
    let mut osc = Oscillator::new(OscillatorMode::Saw, 440_000, 0);
    assert_eq!(osc.phase_increment(), 0);
    let first = osc.tick_poly_blep();
    for _ in 0..10 {
        assert_eq!(osc.tick_poly_blep(), first);
    }
}

#[test]
fn band_limited_output_stays_in_range() {
    for mode in MODES {
        for freq in [1_000u32, 440_000, 5_000_000, 12_000_000, 23_999_000] {
            let mut osc = Oscillator::new(mode, freq, 48_000);
            for _ in 0..5_000 {
                let s = osc.tick_poly_blep();
                assert!(s >= -SAMPLE_ONE * 3 / 2 && s <= SAMPLE_ONE * 3 / 2);
                assert!(s >= -SAMPLE_ONE && s <= SAMPLE_ONE);
            }
        }
    }
}

#[test]
fn naive_output_stays_in_range() {
    for mode in MODES {
        for freq in [1_000u32, 440_000, 23_999_000, 100_000_000] {
            let mut osc = Oscillator::new(mode, freq, 48_000);
            for _ in 0..5_000 {
                let s = osc.tick_naive();
                assert!(s >= -SAMPLE_ONE && s <= SAMPLE_ONE);
            }
        }
    }
}

#[test]
fn phase_stays_within_one_cycle() {
    for freq in [440_000u32, 47_000_000, 96_000_000, 4_000_000_000] {
        let mut osc = Oscillator::new(OscillatorMode::Sine, freq, 48_000);
        for _ in 0..10_000 {
            osc.tick_poly_blep();
            assert!(osc.phase() < PHASE_CYCLE);
        }
    }
}

#[test]
fn setter_order_does_not_matter() {
    let mut a = Oscillator::new(OscillatorMode::Square, 220_000, 48_000);
    let mut b = Oscillator::new(OscillatorMode::Square, 220_000, 48_000);
    a.set_frequency(330_000);
    a.set_sample_rate(44_100);
    b.set_sample_rate(44_100);
    b.set_frequency(330_000);
    let expected = 330_000u64 * PHASE_CYCLE / (1000 * 44_100);
    assert_eq!(a.phase_increment(), expected);
    assert_eq!(b.phase_increment(), expected);
    for _ in 0..100 {
        assert_eq!(a.tick_poly_blep(), b.tick_poly_blep());
    }
}

#[test]
fn zero_frequency_is_static() {
    for mode in MODES {
        let mut osc = Oscillator::new(mode, 0, 48_000);
        let first = osc.tick_poly_blep();
        for _ in 0..100 {
            assert_eq!(osc.tick_poly_blep(), first);
            assert_eq!(osc.phase(), 0);
        }
        let mut naive = Oscillator::new(mode, 0, 48_000);
        let first = naive.tick_naive();
        for _ in 0..100 {
            assert_eq!(naive.tick_naive(), first);
        }
    }
}

#[test]
fn zero_frequency_after_running_holds_last_sample() {
    let mut osc = Oscillator::new(OscillatorMode::Triangle, 440_000, 48_000);
    for _ in 0..37 {
        osc.tick_poly_blep();
    }
    osc.set_frequency(0);
    let first = osc.tick_poly_blep();
    for _ in 0..50 {
        assert_eq!(osc.tick_poly_blep(), first);
    }
}

#[test]
fn saw_period_matches_frequency() {
    let mut osc = Oscillator::new(OscillatorMode::Saw, 440_000, 48_000);
    let start = osc.phase();
    let inc = osc.phase_increment();
    for _ in 0..109 {
        osc.tick_poly_blep();
    }
    let end = osc.phase();
    let shortfall = (start + PHASE_CYCLE - end) % PHASE_CYCLE;
    assert!(shortfall < inc);
    assert_eq!(end, 109 * 39_370_533 % PHASE_CYCLE);
}

#[test]
fn naive_waveform_values() {
    // Quarter cycle: sine at its peak, saw halfway up, square high,
    // triangle at its zero crossing.
    let quarter = PHASE_CYCLE / 4;
    let inc_freq = 12_000_000; // a quarter of 48 kHz
    let expected = [
        (OscillatorMode::Sine, [0, SAMPLE_ONE, 0, -SAMPLE_ONE]),
        (OscillatorMode::Saw, [-SAMPLE_ONE, -SAMPLE_ONE / 2, 0, SAMPLE_ONE / 2]),
        (OscillatorMode::Square, [SAMPLE_ONE, SAMPLE_ONE, -SAMPLE_ONE, -SAMPLE_ONE]),
        (OscillatorMode::Triangle, [SAMPLE_ONE, 0, -SAMPLE_ONE, 0]),
    ];
    for (mode, values) in expected {
        let mut osc = Oscillator::new(mode, inc_freq, 48_000);
        assert_eq!(osc.phase_increment(), quarter);
        for v in values {
            assert_eq!(osc.tick_naive(), v);
        }
        assert_eq!(osc.phase(), 0);
    }
}

#[test]
fn poly_blep_values_at_the_step() {
    // At phase zero the saw's correction cancels the step: -1 - (-1) = 0.
    let mut saw = Oscillator::new(OscillatorMode::Saw, 440_000, 48_000);
    assert_eq!(saw.tick_poly_blep(), 0);
    // The square is corrected at its rising edge the same way.
    let mut square = Oscillator::new(OscillatorMode::Square, 440_000, 48_000);
    assert_eq!(square.tick_poly_blep(), 0);
    // Away from both edges the square is uncorrected.
    let mut square = Oscillator::new(OscillatorMode::Square, 12_000_000, 48_000);
    square.tick_poly_blep();
    assert_eq!(square.phase(), PHASE_CYCLE / 4);
    // phase 1/4 with dt = 1/4: t is not below dt, and the falling edge
    // at t + 1/2 = 3/4 is not above 1 - dt, so no correction.
    assert_eq!(square.tick_poly_blep(), SAMPLE_ONE);
    // The sine is never corrected.
    let mut sine = Oscillator::new(OscillatorMode::Sine, 12_000_000, 48_000);
    let mut naive = Oscillator::new(OscillatorMode::Sine, 12_000_000, 48_000);
    for _ in 0..8 {
        assert_eq!(sine.tick_poly_blep(), naive.tick_naive());
    }
}

#[test]
fn poly_blep_correction_just_before_the_step() {
    // Saw at 7 kHz, 48 kHz: after six ticks the phase lies within one
    // increment of the end of the cycle.
    let mut osc = Oscillator::new(OscillatorMode::Saw, 7_000_000, 48_000);
    let inc = osc.phase_increment();
    assert_eq!(inc, 626_349_397);
    for _ in 0..6 {
        osc.tick_poly_blep();
    }
    let t = osc.phase();
    assert_eq!(t, 6 * inc);
    assert!(t > PHASE_CYCLE - inc);
    // Naive value, then the correction (1 + x)^2 with x = (t - 1) / dt.
    let naive = (t / 65_536) as i32 - SAMPLE_ONE;
    let q = (PHASE_CYCLE - t) * 32_768 / inc;
    let d = 32_768 - q;
    let blep = (d * d / 32_768) as i32;
    assert_eq!(blep, 668);
    assert_eq!(osc.tick_poly_blep(), naive - blep);
}

#[test]
fn triangle_is_smoothed_square() {
    let mut tri = Oscillator::new(OscillatorMode::Triangle, 440_000, 48_000);
    // The first corrected square sample is zero, and so is the filter's
    // output from rest.
    assert_eq!(tri.tick_poly_blep(), 0);
    let second = tri.tick_poly_blep();
    assert!(second > 0 && second < SAMPLE_ONE);
    let mut last = second;
    for _ in 0..50 {
        let s = tri.tick_poly_blep();
        assert!(s >= last);
        last = s;
    }
}

#[test]
fn set_mode_keeps_phase() {
    let mut osc = Oscillator::new(OscillatorMode::Saw, 440_000, 48_000);
    for _ in 0..10 {
        osc.tick_poly_blep();
    }
    let phase = osc.phase();
    osc.set_mode(OscillatorMode::Square);
    assert_eq!(osc.mode(), OscillatorMode::Square);
    assert_eq!(osc.phase(), phase);
    assert!(phase < HALF_CYCLE);
    assert_eq!(osc.tick_naive(), SAMPLE_ONE);
}

#[test]
fn mono_generator_tick_is_band_limited() {
    let mut a = Oscillator::new(OscillatorMode::Square, 440_000, 48_000);
    let mut b = Oscillator::new(OscillatorMode::Square, 440_000, 48_000);
    for _ in 0..200 {
        assert_eq!(MonoGenerator::tick(&mut a), b.tick_poly_blep());
    }
}
