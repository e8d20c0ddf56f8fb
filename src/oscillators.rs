use vstd::prelude::*;

use vstd::arithmetic::div_mod::{
    lemma_div_is_ordered, lemma_div_is_ordered_by_denominator, lemma_div_pos_is_pos,
    lemma_multiply_divide_le, lemma_multiply_divide_lt, lemma_small_mod, lemma_add_mod_noop,
    lemma_mod_twice, lemma_fundamental_div_mod, lemma_mod_bound,
};

use crate::traits::MonoGenerator;
use crate::{HALF_CYCLE, PHASE_CYCLE, SAMPLE_ONE};

verus! {

/// 2π in Q28, the scale from phase units to radians.
pub const TWO_PI_Q28: u64 = 1686629713;

/// `2^45`: turns `phase units · TWO_PI_Q28` into radians in Q15.
pub const RADIAN_SHIFT: u64 = 35184372088832;

/// Phase units per step of the Q15 position within a cycle.
pub const PHASE_PER_STEP: u64 = 65536;

/// A bound on every phase increment (`2^55`).
pub const INCREMENT_LIMIT: u64 = 36028797018963968;

/// The waveform an oscillator produces.
#[derive(PartialEq, Eq, Structural, Clone, Copy, Debug)]
pub enum OscillatorMode {
    Sine,
    Saw,
    Square,
    Triangle,
}

/// Phase advance per sample for `frequency` (millihertz) at `sample_rate`
/// (hertz): `frequency · 2π / sample_rate` in phase units, rounded down.
/// A zero sample rate gives no advance at all.
pub open spec fn increment_of(frequency: u32, sample_rate: u32) -> nat {
    if sample_rate == 0 {
        0
    } else {
        ((frequency as nat) * (PHASE_CYCLE as nat)) / (1000 * (sample_rate as nat))
    }
}

/// Bhaskara's rational approximation of `sin(π · u / SAMPLE_ONE)` for
/// `0 <= u <= SAMPLE_ONE`, scaled to Q15.
pub open spec fn bhaskara(u: int) -> int {
    let v = u * (SAMPLE_ONE - u);
    (16 * v * SAMPLE_ONE) / (5 * SAMPLE_ONE * SAMPLE_ONE - 4 * v)
}

/// Sine of a phase: the positive half-wave below `HALF_CYCLE`, mirrored
/// and negated above it.
pub open spec fn sine_of(phase: int) -> int {
    if phase < HALF_CYCLE {
        bhaskara(phase / (PHASE_PER_STEP as int))
    } else {
        -bhaskara((phase - HALF_CYCLE) / (PHASE_PER_STEP as int))
    }
}

pub open spec fn abs(x: int) -> int {
    if x < 0 { -x } else { x }
}

/// The waveform at a phase with no band limiting.
pub open spec fn naive_of(mode: OscillatorMode, phase: int) -> int {
    match mode {
        OscillatorMode::Sine => sine_of(phase),
        OscillatorMode::Saw => phase / (PHASE_PER_STEP as int) - SAMPLE_ONE,
        OscillatorMode::Square => if phase < HALF_CYCLE { SAMPLE_ONE as int } else { -SAMPLE_ONE },
        OscillatorMode::Triangle => 2 * abs(phase / (PHASE_PER_STEP as int) - SAMPLE_ONE) - SAMPLE_ONE,
    }
}

/// The polyBLEP correction at phase position `t` for a phase increment `inc`.
/// With `x` the distance to the step in increments, it is `-(1 - x)²` just
/// after the step and `(1 + x)²` just before it, in Q15; zero elsewhere and
/// when the increment is zero.
pub open spec fn blep_of(t: int, inc: int) -> int {
    if inc == 0 {
        0
    } else if t < inc {
        let d = SAMPLE_ONE - t * SAMPLE_ONE / inc;
        -(d * d / (SAMPLE_ONE as int))
    } else if t > PHASE_CYCLE - inc {
        let d = SAMPLE_ONE - (PHASE_CYCLE - t) * SAMPLE_ONE / inc;
        d * d / (SAMPLE_ONE as int)
    } else {
        0
    }
}

/// The square wave corrected at its rising edge (phase `0`) and at its
/// falling edge (phase `HALF_CYCLE`).
pub open spec fn corrected_square_of(phase: int, inc: int) -> int {
    naive_of(OscillatorMode::Square, phase) + blep_of(phase, inc) - blep_of(
        (phase + HALF_CYCLE) % (PHASE_CYCLE as int),
        inc,
    )
}

/// The phase increment in radians, Q15: the triangle's filter coefficient.
pub open spec fn coefficient_of(inc: int) -> int {
    inc * TWO_PI_Q28 / (RADIAN_SHIFT as int)
}

pub open spec fn saturate(v: int) -> int {
    if v > SAMPLE_ONE {
        SAMPLE_ONE as int
    } else if v < -SAMPLE_ONE {
        -SAMPLE_ONE
    } else {
        v
    }
}

/// One step of the one-pole filter `c·x + (1 - c)·last` in Q15, rounded
/// down and held to full scale.
pub open spec fn one_pole(c: int, x: int, last: int) -> int {
    saturate((c * x + (SAMPLE_ONE - c) * last) / (SAMPLE_ONE as int))
}

/// Settings shared by the voices of one output stream.
pub struct DSPSettings {
    /// hertz
    pub sample_rate: u32,
}

/// What an oscillator holds, as plain values.
pub struct OscillatorView {
    pub mode: OscillatorMode,
    /// millihertz
    pub frequency: u32,
    /// hertz
    pub sample_rate: u32,
    pub phase: u64,
    pub phase_increment: u64,
    pub last_output: i32,
}

impl OscillatorView {
    pub open spec fn wf(self) -> bool {
        &&& self.phase < PHASE_CYCLE
        &&& self.phase_increment == increment_of(self.frequency, self.sample_rate)
        &&& -SAMPLE_ONE <= self.last_output <= SAMPLE_ONE
    }

    /// The state with the phase advanced by one increment and renormalised
    /// into one cycle.
    pub open spec fn advanced(self) -> OscillatorView {
        OscillatorView {
            phase: ((self.phase + self.phase_increment) % (PHASE_CYCLE as int)) as u64,
            ..self
        }
    }

    pub open spec fn naive_sample(self) -> int {
        naive_of(self.mode, self.phase as int)
    }

    pub open spec fn blep_sample(self) -> int {
        let inc = self.phase_increment as int;
        match self.mode {
            OscillatorMode::Sine => self.naive_sample(),
            OscillatorMode::Saw => self.naive_sample() - blep_of(self.phase as int, inc),
            OscillatorMode::Square => corrected_square_of(self.phase as int, inc),
            OscillatorMode::Triangle => one_pole(
                coefficient_of(inc),
                corrected_square_of(self.phase as int, inc),
                self.last_output as int,
            ),
        }
    }

    /// The state after one band-limited tick: the triangle also keeps its
    /// filter output.
    pub open spec fn after_blep_tick(self) -> OscillatorView {
        if self.mode == OscillatorMode::Triangle {
            OscillatorView { last_output: self.blep_sample() as i32, ..self.advanced() }
        } else {
            self.advanced()
        }
    }

    pub open spec fn with_frequency(self, frequency: u32) -> OscillatorView {
        OscillatorView {
            frequency,
            phase_increment: increment_of(frequency, self.sample_rate) as u64,
            ..self
        }
    }

    pub open spec fn with_sample_rate(self, sample_rate: u32) -> OscillatorView {
        OscillatorView {
            sample_rate,
            phase_increment: increment_of(self.frequency, sample_rate) as u64,
            ..self
        }
    }
}

pub proof fn lemma_increment_bound(frequency: u32, sample_rate: u32)
    ensures
        increment_of(frequency, sample_rate) < INCREMENT_LIMIT,
{
    if sample_rate != 0 {
        let num = (frequency as nat) * (PHASE_CYCLE as nat);
        lemma_div_is_ordered_by_denominator(num as int, 1000, 1000 * (sample_rate as int));
    }
}

proof fn lemma_bhaskara_range(u: int)
    requires
        0 <= u <= SAMPLE_ONE,
    ensures
        0 <= bhaskara(u) <= SAMPLE_ONE,
{
    let v = u * (SAMPLE_ONE - u);
    assert(0 <= v && 4 * v <= SAMPLE_ONE * SAMPLE_ONE) by (nonlinear_arith)
        requires
            0 <= u <= SAMPLE_ONE,
            v == u * (SAMPLE_ONE - u),
    ;
    let num = 16 * v * SAMPLE_ONE;
    let den = 5 * SAMPLE_ONE * SAMPLE_ONE - 4 * v;
    assert(num <= den * SAMPLE_ONE) by (nonlinear_arith)
        requires
            0 <= v,
            4 * v <= SAMPLE_ONE * SAMPLE_ONE,
            num == 16 * v * SAMPLE_ONE,
            den == 5 * SAMPLE_ONE * SAMPLE_ONE - 4 * v,
    ;
    lemma_div_pos_is_pos(num, den);
    lemma_multiply_divide_le(num, den, SAMPLE_ONE as int);
}

pub proof fn lemma_sine_range(phase: int)
    requires
        0 <= phase < PHASE_CYCLE,
    ensures
        -SAMPLE_ONE <= sine_of(phase) <= SAMPLE_ONE,
{
    if phase < HALF_CYCLE {
        lemma_bhaskara_range(phase / (PHASE_PER_STEP as int));
    } else {
        lemma_bhaskara_range((phase - HALF_CYCLE) / (PHASE_PER_STEP as int));
    }
}

/// The naive waveform never leaves full scale.
pub proof fn lemma_naive_range(mode: OscillatorMode, phase: int)
    requires
        0 <= phase < PHASE_CYCLE,
    ensures
        -SAMPLE_ONE <= naive_of(mode, phase) <= SAMPLE_ONE,
{
    if mode == OscillatorMode::Sine {
        lemma_sine_range(phase);
    }
}

/// `d = SAMPLE_ONE - a · SAMPLE_ONE / inc` with `0 <= a < inc` lies in
/// `(0, SAMPLE_ONE]`, so `d² / SAMPLE_ONE` lies in `[0, SAMPLE_ONE]`.
proof fn lemma_blep_term(a: int, inc: int)
    requires
        0 <= a < inc,
    ensures
        0 < SAMPLE_ONE - a * SAMPLE_ONE / inc <= SAMPLE_ONE,
        0 <= (SAMPLE_ONE - a * SAMPLE_ONE / inc) * (SAMPLE_ONE - a * SAMPLE_ONE / inc)
            / (SAMPLE_ONE as int) <= SAMPLE_ONE,
{
    let n = a * SAMPLE_ONE;
    assert(0 <= n < inc * SAMPLE_ONE) by (nonlinear_arith)
        requires
            0 <= a < inc,
            n == a * SAMPLE_ONE,
    ;
    lemma_div_pos_is_pos(n, inc);
    lemma_multiply_divide_lt(n, inc, SAMPLE_ONE as int);
    let d = SAMPLE_ONE - n / inc;
    assert(0 <= d * d <= SAMPLE_ONE * SAMPLE_ONE) by (nonlinear_arith)
        requires
            0 < d <= SAMPLE_ONE,
    ;
}

pub proof fn lemma_blep_range(t: int, inc: int)
    requires
        0 <= t < PHASE_CYCLE,
        0 <= inc,
    ensures
        -SAMPLE_ONE <= blep_of(t, inc) <= SAMPLE_ONE,
        t < inc ==> blep_of(t, inc) <= 0,
        !(t < inc) ==> blep_of(t, inc) >= 0,
{
    if inc != 0 {
        if t < inc {
            lemma_blep_term(t, inc);
        } else if t > PHASE_CYCLE - inc {
            lemma_blep_term(PHASE_CYCLE - t, inc);
        }
    }
}

/// The triangle filter's coefficient for an increment below the bound.
proof fn lemma_coefficient_bound(inc: int)
    requires
        0 <= inc < INCREMENT_LIMIT,
    ensures
        0 <= coefficient_of(inc) < 2199023255552,
{
    let n = inc * TWO_PI_Q28;
    assert(0 <= n < RADIAN_SHIFT * 2199023255552) by (nonlinear_arith)
        requires
            0 <= inc < INCREMENT_LIMIT,
            n == inc * TWO_PI_Q28,
    ;
    lemma_div_pos_is_pos(n, RADIAN_SHIFT as int);
    lemma_multiply_divide_lt(n, RADIAN_SHIFT as int, 2199023255552);
}

impl OscillatorView {
    /// The state after `n` band-limited ticks.
    pub open spec fn ticks(self, n: nat) -> OscillatorView
        decreases n,
    {
        if n == 0 {
            self
        } else {
            self.after_blep_tick().ticks((n - 1) as nat)
        }
    }
}

/// The triangle's filter output always stays within full scale.
proof fn lemma_one_pole_range(c: int, x: int, last: int)
    ensures
        -SAMPLE_ONE <= one_pole(c, x, last) <= SAMPLE_ONE,
{
}

/// Below `sample_rate / 2π` (a coefficient of at most one) the filter is a
/// convex combination of two full-scale values, so holding it to full scale
/// never changes it: it is exactly `c·x + (1 - c)·last`, rounded down.
pub proof fn lemma_one_pole_unsaturated(c: int, x: int, last: int)
    requires
        0 <= c <= SAMPLE_ONE,
        -SAMPLE_ONE <= x <= SAMPLE_ONE,
        -SAMPLE_ONE <= last <= SAMPLE_ONE,
    ensures
        one_pole(c, x, last) == (c * x + (SAMPLE_ONE - c) * last) / (SAMPLE_ONE as int),
{
    let n = c * x + (SAMPLE_ONE - c) * last;
    assert(-SAMPLE_ONE * SAMPLE_ONE <= n <= SAMPLE_ONE * SAMPLE_ONE) by (nonlinear_arith)
        requires
            0 <= c <= SAMPLE_ONE,
            -SAMPLE_ONE <= x <= SAMPLE_ONE,
            -SAMPLE_ONE <= last <= SAMPLE_ONE,
            n == c * x + (SAMPLE_ONE - c) * last,
    ;
}

/// A tick keeps the oscillator well formed: in particular the phase stays
/// in `[0, PHASE_CYCLE)`, that is in `[0, 2π)`.
pub proof fn lemma_tick_keeps_wf(v: OscillatorView)
    requires
        v.wf(),
    ensures
        v.advanced().wf(),
        v.after_blep_tick().wf(),
{
    if v.mode == OscillatorMode::Triangle {
        lemma_one_pole_range(
            coefficient_of(v.phase_increment as int),
            corrected_square_of(v.phase as int, v.phase_increment as int),
            v.last_output as int,
        );
    }
}

/// After any number of ticks the oscillator is well formed and its phase
/// lies in `[0, 2π)`.
pub proof fn lemma_phase_stays_in_cycle(v: OscillatorView, n: nat)
    requires
        v.wf(),
    ensures
        v.ticks(n).wf(),
        v.ticks(n).phase < PHASE_CYCLE,
    decreases n,
{
    if n > 0 {
        lemma_tick_keeps_wf(v);
        lemma_phase_stays_in_cycle(v.after_blep_tick(), (n - 1) as nat);
    }
}

/// Setting the frequency and then the sample rate gives the same oscillator
/// as the reverse order, with the increment `frequency · 2π / sample_rate`.
pub proof fn lemma_setters_commute(v: OscillatorView, frequency: u32, sample_rate: u32)
    ensures
        v.with_frequency(frequency).with_sample_rate(sample_rate) == v.with_sample_rate(
            sample_rate,
        ).with_frequency(frequency),
        v.with_frequency(frequency).with_sample_rate(sample_rate).phase_increment
            == increment_of(frequency, sample_rate),
{
    lemma_increment_bound(frequency, sample_rate);
}

/// At frequency zero a tick changes nothing, so every later tick returns
/// the same sample.
pub proof fn lemma_zero_frequency_is_static(v: OscillatorView, n: nat)
    requires
        v.wf(),
        v.frequency == 0,
    ensures
        v.after_blep_tick() == v,
        v.advanced() == v,
        v.ticks(n) == v,
        v.ticks(n).blep_sample() == v.blep_sample(),
    decreases n,
{
    assert(v.phase_increment == 0) by {
        if v.sample_rate != 0 {
            lemma_div_pos_is_pos(0, 1000 * (v.sample_rate as int));
        }
    }
    assert(v.advanced() == v);
    if v.mode == OscillatorMode::Triangle {
        let x = corrected_square_of(v.phase as int, 0);
        assert(coefficient_of(0) == 0);
        assert(one_pole(0, x, v.last_output as int) == v.last_output) by {
            assert(0 * x + (SAMPLE_ONE - 0) * v.last_output == SAMPLE_ONE * v.last_output);
        }
    }
    if n > 0 {
        lemma_zero_frequency_is_static(v, (n - 1) as nat);
    }
}

/// Below half the sample rate every waveform's band-limited sample stays
/// within full scale, `[-1, 1]`, which is within `[-1.5, 1.5]`.
pub proof fn lemma_band_limited_range(v: OscillatorView)
    requires
        v.wf(),
        (v.frequency as int) < 500 * (v.sample_rate as int),
    ensures
        -SAMPLE_ONE <= v.blep_sample() <= SAMPLE_ONE,
{
    let inc = v.phase_increment as int;
    let t = v.phase as int;
    let fp = (v.frequency as int) * (PHASE_CYCLE as int);
    let den = 1000 * (v.sample_rate as int);
    assert(fp < den * HALF_CYCLE) by (nonlinear_arith)
        requires
            (v.frequency as int) < 500 * (v.sample_rate as int),
            fp == (v.frequency as int) * (PHASE_CYCLE as int),
            den == 1000 * (v.sample_rate as int),
    ;
    lemma_multiply_divide_lt(fp, den, HALF_CYCLE as int);
    assert(inc < HALF_CYCLE);
    lemma_blep_range(t, inc);
    let t2 = (t + HALF_CYCLE) % (PHASE_CYCLE as int);
    assert(t < HALF_CYCLE ==> t2 == t + HALF_CYCLE);
    assert(t >= HALF_CYCLE ==> t2 == t - HALF_CYCLE);
    lemma_blep_range(t2, inc);
    lemma_naive_range(v.mode, t);
    if v.mode == OscillatorMode::Saw {
        if t < inc {
            lemma_div_is_ordered(t, HALF_CYCLE as int, PHASE_PER_STEP as int);
        } else if t > PHASE_CYCLE - inc {
            lemma_div_is_ordered(HALF_CYCLE as int, t, PHASE_PER_STEP as int);
        }
    } else if v.mode == OscillatorMode::Triangle {
        lemma_one_pole_range(
            coefficient_of(inc),
            corrected_square_of(t, inc),
            v.last_output as int,
        );
    }
}

/// Phase after `n` ticks: the start advanced by `n` increments, modulo one
/// cycle.
pub proof fn lemma_phase_after_ticks(v: OscillatorView, n: nat)
    requires
        v.wf(),
    ensures
        v.ticks(n).phase == (v.phase + n * v.phase_increment) % (PHASE_CYCLE as int),
        v.ticks(n).phase_increment == v.phase_increment,
    decreases n,
{
    if n == 0 {
        lemma_small_mod(v.phase as nat, PHASE_CYCLE as nat);
    } else {
        let w = v.after_blep_tick();
        lemma_tick_keeps_wf(v);
        lemma_phase_after_ticks(w, (n - 1) as nat);
        let inc = v.phase_increment as int;
        let m = (n - 1) as nat;
        assert(w.phase == (v.phase + inc) % (PHASE_CYCLE as int));
        let p1 = v.phase + inc;
        lemma_add_mod_noop(p1 % (PHASE_CYCLE as int), m * inc, PHASE_CYCLE as int);
        lemma_mod_twice(p1, PHASE_CYCLE as int);
        lemma_add_mod_noop(p1, m * inc, PHASE_CYCLE as int);
        assert(p1 + m * inc == v.phase + n * inc) by (nonlinear_arith)
            requires
                n == m + 1,
                p1 == v.phase + inc,
        ;
    }
}

/// The period matches the frequency: with `k` the number of whole increments
/// in one cycle, `k` ticks bring the phase back to its start less a shortfall
/// smaller than one increment.
pub proof fn lemma_period_matches_frequency(v: OscillatorView)
    requires
        v.wf(),
        v.phase_increment > 0,
    ensures
        ({
            let inc = v.phase_increment as int;
            let k = (PHASE_CYCLE as int) / inc;
            let shortfall = PHASE_CYCLE - k * inc;
            &&& 0 <= shortfall < inc
            &&& v.ticks(k as nat).phase == (v.phase + PHASE_CYCLE - shortfall) % (
            PHASE_CYCLE as int)
        }),
{
    let inc = v.phase_increment as int;
    let k = (PHASE_CYCLE as int) / inc;
    lemma_div_pos_is_pos(PHASE_CYCLE as int, inc);
    lemma_fundamental_div_mod(PHASE_CYCLE as int, inc);
    lemma_mod_bound(PHASE_CYCLE as int, inc);
    lemma_phase_after_ticks(v, k as nat);
}

/// A single voice: one band-limited sample per tick.
pub struct Oscillator {
    sample_rate: u32,
    mode: OscillatorMode,
    frequency: u32,
    phase: u64,
    phase_increment: u64,
    last_output: i32,
}

impl View for Oscillator {
    type V = OscillatorView;

    closed spec fn view(&self) -> OscillatorView {
        OscillatorView {
            mode: self.mode,
            frequency: self.frequency,
            sample_rate: self.sample_rate,
            phase: self.phase,
            phase_increment: self.phase_increment,
            last_output: self.last_output,
        }
    }
}

impl Oscillator {
    /// An oscillator at phase zero with an empty triangle filter;
    /// `frequency` in millihertz, `sample_rate` in hertz.
    pub fn new(mode: OscillatorMode, frequency: u32, sample_rate: u32) -> (osc: Oscillator)
        ensures
            osc@ == (OscillatorView {
                mode,
                frequency,
                sample_rate,
                phase: 0,
                phase_increment: increment_of(frequency, sample_rate) as u64,
                last_output: 0,
            }),
            osc@.wf(),
    {
        let mut osc = Oscillator {
            sample_rate,
            mode,
            frequency,
            phase: 0,
            phase_increment: 0,
            last_output: 0,
        };
        osc.update_phase_increment();
        osc
    }

    fn update_phase_increment(&mut self)
        ensures
            final(self)@ == (OscillatorView {
                phase_increment: increment_of(old(self)@.frequency, old(self)@.sample_rate) as u64,
                ..old(self)@
            }),
    {
        proof {
            lemma_increment_bound(self.frequency, self.sample_rate);
        }
        if self.sample_rate == 0 {
            self.phase_increment = 0;
        } else {
            let num: u64 = self.frequency as u64 * PHASE_CYCLE;
            let den: u64 = 1000 * self.sample_rate as u64;
            self.phase_increment = num / den;
        }
    }

    pub fn set_frequency(&mut self, frequency: u32)
        requires
            old(self)@.wf(),
        ensures
            final(self)@ == old(self)@.with_frequency(frequency),
            final(self)@.wf(),
    {
        self.frequency = frequency;
        self.update_phase_increment();
    }

    pub fn set_sample_rate(&mut self, sample_rate: u32)
        requires
            old(self)@.wf(),
        ensures
            final(self)@ == old(self)@.with_sample_rate(sample_rate),
            final(self)@.wf(),
    {
        self.sample_rate = sample_rate;
        self.update_phase_increment();
    }

    /// Selects another waveform; phase and filter state carry over.
    pub fn set_mode(&mut self, mode: OscillatorMode)
        requires
            old(self)@.wf(),
        ensures
            final(self)@ == (OscillatorView { mode, ..old(self)@ }),
            final(self)@.wf(),
    {
        self.mode = mode;
    }

    pub fn mode(&self) -> (r: OscillatorMode)
        ensures
            r == self@.mode,
    {
        self.mode
    }

    pub fn frequency(&self) -> (r: u32)
        ensures
            r == self@.frequency,
    {
        self.frequency
    }

    pub fn sample_rate(&self) -> (r: u32)
        ensures
            r == self@.sample_rate,
    {
        self.sample_rate
    }

    pub fn phase(&self) -> (r: u64)
        ensures
            r == self@.phase,
    {
        self.phase
    }

    pub fn phase_increment(&self) -> (r: u64)
        ensures
            r == self@.phase_increment,
    {
        self.phase_increment
    }

    fn poly_blep(&self, t: u64) -> (r: i32)
        requires
            self@.wf(),
            t < PHASE_CYCLE,
        ensures
            r == blep_of(t as int, self@.phase_increment as int),
    {
        proof {
            lemma_blep_range(t as int, self.phase_increment as int);
            lemma_increment_bound(self.frequency, self.sample_rate);
        }
        let inc = self.phase_increment;
        if inc == 0 {
            0
        } else if t < inc {
            proof {
                lemma_blep_term(t as int, inc as int);
            }
            let d: u64 = 32768 - t * 32768 / inc;
            -((d * d / 32768) as i32)
        } else if t > PHASE_CYCLE - inc {
            proof {
                lemma_blep_term(PHASE_CYCLE - t, inc as int);
            }
            let d: u64 = 32768 - (PHASE_CYCLE - t) * 32768 / inc;
            (d * d / 32768) as i32
        } else {
            0
        }
    }

    fn sine(phase: u64) -> (r: i32)
        requires
            phase < PHASE_CYCLE,
        ensures
            r == sine_of(phase as int),
    {
        proof {
            lemma_sine_range(phase as int);
        }
        let negative = phase >= HALF_CYCLE;
        let u: u64 = if negative {
            (phase - HALF_CYCLE) / PHASE_PER_STEP
        } else {
            phase / PHASE_PER_STEP
        };
        proof {
            lemma_bhaskara_range(u as int);
            assert(0 <= u * (32768 - u) <= 32768 * 32768) by (nonlinear_arith)
                requires
                    0 <= u <= 32768,
            ;
        }
        let v: u64 = u * (32768 - u);
        let magnitude: u64 = 16 * v * 32768 / (5 * 32768 * 32768 - 4 * v);
        if negative {
            -(magnitude as i32)
        } else {
            magnitude as i32
        }
    }

    fn naive_waveform(&self, mode: OscillatorMode) -> (r: i32)
        requires
            self@.wf(),
        ensures
            r == naive_of(mode, self@.phase as int),
    {
        match mode {
            OscillatorMode::Sine => Self::sine(self.phase),
            OscillatorMode::Saw => (self.phase / PHASE_PER_STEP) as i32 - 32768,
            OscillatorMode::Square => {
                if self.phase < HALF_CYCLE {
                    32768
                } else {
                    -32768
                }
            },
            OscillatorMode::Triangle => {
                let x: i32 = (self.phase / PHASE_PER_STEP) as i32 - 32768;
                let magnitude: i32 = if x < 0 {
                    -x
                } else {
                    x
                };
                2 * magnitude - 32768
            },
        }
    }

    fn advance_phase(&mut self)
        requires
            old(self)@.wf(),
        ensures
            final(self)@ == old(self)@.advanced(),
            final(self)@.wf(),
    {
        proof {
            lemma_increment_bound(self.frequency, self.sample_rate);
        }
        self.phase = (self.phase + self.phase_increment) % PHASE_CYCLE;
    }

    fn coefficient(inc: u64) -> (c: u64)
        requires
            inc < INCREMENT_LIMIT,
        ensures
            c == coefficient_of(inc as int),
            c < 2199023255552,
    {
        proof {
            lemma_coefficient_bound(inc as int);
        }
        ((inc as u128 * TWO_PI_Q28 as u128) / RADIAN_SHIFT as u128) as u64
    }

    fn one_pole_step(c: u64, x: i32, last: i32) -> (r: i32)
        requires
            c < 2199023255552,
            -3 * SAMPLE_ONE <= x <= 3 * SAMPLE_ONE,
            -SAMPLE_ONE <= last <= SAMPLE_ONE,
        ensures
            r == one_pole(c as int, x as int, last as int),
    {
        proof {
            assert(-288230376151711744 <= c * x <= 288230376151711744) by (nonlinear_arith)
                requires
                    0 <= c < 2199023255552,
                    -98304 <= x <= 98304,
            ;
            assert(-144115188075855872 <= (32768 - c) * last <= 144115188075855872)
                by (nonlinear_arith)
                requires
                    0 <= c < 2199023255552,
                    -32768 <= last <= 32768,
            ;
        }
        let n: i64 = c as i64 * x as i64 + (32768 - c as i64) * last as i64;
        let shifted: u64 = (n + 1152921504606846976) as u64;
        proof {
            assert((n + 1152921504606846976) / 32768 == n / 32768 + 35184372088832)
                by (nonlinear_arith);
        }
        let q: i64 = (shifted / 32768) as i64 - 35184372088832;
        if q > 32768 {
            32768
        } else if q < -32768 {
            -32768
        } else {
            q as i32
        }
    }

    /// One band-limited sample; advances the phase. Saw and square carry the
    /// polyBLEP correction at their steps; the triangle passes the corrected
    /// square through a one-pole filter whose coefficient is the phase
    /// increment in radians.
    pub fn tick_poly_blep(&mut self) -> (r: i32)
        requires
            old(self)@.wf(),
        ensures
            r == old(self)@.blep_sample(),
            final(self)@ == old(self)@.after_blep_tick(),
            final(self)@.wf(),
    {
        let t = self.phase;
        proof {
            lemma_increment_bound(self.frequency, self.sample_rate);
            lemma_naive_range(OscillatorMode::Square, t as int);
            lemma_naive_range(OscillatorMode::Saw, t as int);
            lemma_blep_range(t as int, self.phase_increment as int);
            lemma_blep_range(
                ((t + HALF_CYCLE) % (PHASE_CYCLE as int)) as int,
                self.phase_increment as int,
            );
        }
        let samp: i32 = match self.mode {
            OscillatorMode::Sine => self.naive_waveform(OscillatorMode::Sine),
            OscillatorMode::Saw => self.naive_waveform(OscillatorMode::Saw) - self.poly_blep(t),
            _ => {
                let mut x = self.naive_waveform(OscillatorMode::Square);
                x = x + self.poly_blep(t);
                x = x - self.poly_blep((t + HALF_CYCLE) % PHASE_CYCLE);
                if self.mode == OscillatorMode::Triangle {
                    let c = Self::coefficient(self.phase_increment);
                    x = Self::one_pole_step(c, x, self.last_output);
                    self.last_output = x;
                }
                x
            },
        };
        self.advance_phase();
        samp
    }

    /// One sample of the waveform with no band limiting; advances the phase.
    pub fn tick_naive(&mut self) -> (r: i32)
        requires
            old(self)@.wf(),
        ensures
            r == old(self)@.naive_sample(),
            final(self)@ == old(self)@.advanced(),
            final(self)@.wf(),
    {
        let x = self.naive_waveform(self.mode);
        self.advance_phase();
        x
    }
}

impl MonoGenerator for Oscillator {
    open spec fn ready(v: OscillatorView) -> bool {
        v.wf()
    }

    open spec fn output(v: OscillatorView) -> i32 {
        v.blep_sample() as i32
    }

    open spec fn next(v: OscillatorView) -> OscillatorView {
        v.after_blep_tick()
    }

    /// The band-limited sample.
    fn tick(&mut self) -> (r: i32) {
        self.tick_poly_blep()
    }
}

} // verus!
