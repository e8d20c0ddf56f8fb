use vstd::prelude::*;

verus! {

/// Full brightness (1.0), in thousandths.
pub const BRIGHTNESS_FULL: u32 = 1000;

/// What an indicator holds, as plain values.
pub struct IndicatorView {
    /// Current brightness, in thousandths.
    pub brightness: u32,
    /// Brightness that `update` moves toward, in thousandths.
    pub target: u32,
    /// Largest change of brightness per update.
    pub step: u32,
    /// Length of one blink in polls; zero for steady light.
    pub blink_period: u32,
    /// Position within the blink period.
    pub counter: u32,
    /// Whether the light is on in the blink schedule.
    pub on: bool,
}

pub open spec fn approach(current: u32, target: u32, step: u32) -> u32 {
    if current < target {
        if target - current <= step {
            target
        } else {
            (current + step) as u32
        }
    } else if current - target <= step {
        target
    } else {
        (current - step) as u32
    }
}

impl IndicatorView {
    pub open spec fn wf(self) -> bool {
        &&& self.brightness <= BRIGHTNESS_FULL
        &&& self.target <= BRIGHTNESS_FULL
        &&& self.blink_period > 0 ==> self.counter < self.blink_period
    }

    /// One poll: brightness moves toward the target by at most `step`; with
    /// a blink period the light is on for the first half of each period
    /// (rounded up) and off for the rest, else it stays on.
    pub open spec fn updated(self) -> IndicatorView {
        let counter = if self.blink_period == 0 {
            0
        } else {
            ((self.counter + 1) % (self.blink_period as int)) as u32
        };
        IndicatorView {
            brightness: approach(self.brightness, self.target, self.step),
            counter,
            on: self.blink_period == 0 || counter < (self.blink_period as int + 1) / 2,
            ..self
        }
    }
}

/// Brightness and blink state of a status light, updated once per poll.
pub struct Indicator {
    brightness: u32,
    target: u32,
    step: u32,
    blink_period: u32,
    counter: u32,
    on: bool,
}

impl View for Indicator {
    type V = IndicatorView;

    closed spec fn view(&self) -> IndicatorView {
        IndicatorView {
            brightness: self.brightness,
            target: self.target,
            step: self.step,
            blink_period: self.blink_period,
            counter: self.counter,
            on: self.on,
        }
    }
}

impl Indicator {
    /// A dark, steady indicator that changes by at most `step` per poll.
    pub fn new(step: u32) -> (led: Indicator)
        ensures
            led@ == (IndicatorView {
                brightness: 0,
                target: 0,
                step,
                blink_period: 0,
                counter: 0,
                on: true,
            }),
            led@.wf(),
    {
        Indicator { brightness: 0, target: 0, step, blink_period: 0, counter: 0, on: true }
    }

    pub fn set_brightness(&mut self, target: u32)
        requires
            old(self)@.wf(),
            target <= BRIGHTNESS_FULL,
        ensures
            final(self)@ == (IndicatorView { target, ..old(self)@ }),
            final(self)@.wf(),
    {
        self.target = target;
    }

    /// Starts a blink schedule of `period` polls from its beginning; zero
    /// gives steady light.
    pub fn set_blink_period(&mut self, period: u32)
        requires
            old(self)@.wf(),
        ensures
            final(self)@ == (IndicatorView {
                blink_period: period,
                counter: 0,
                on: true,
                ..old(self)@
            }),
            final(self)@.wf(),
    {
        self.blink_period = period;
        self.counter = 0;
        self.on = true;
    }

    pub fn update(&mut self)
        requires
            old(self)@.wf(),
        ensures
            final(self)@ == old(self)@.updated(),
            final(self)@.wf(),
    {
        if self.brightness < self.target {
            if self.target - self.brightness <= self.step {
                self.brightness = self.target;
            } else {
                self.brightness = self.brightness + self.step;
            }
        } else if self.brightness - self.target <= self.step {
            self.brightness = self.target;
        } else {
            self.brightness = self.brightness - self.step;
        }
        if self.blink_period == 0 {
            self.counter = 0;
            self.on = true;
        } else {
            self.counter = (self.counter + 1) % self.blink_period;
            self.on = self.counter < self.blink_period / 2 + self.blink_period % 2;
        }
    }

    /// Current brightness, in thousandths.
    pub fn brightness(&self) -> (r: u32)
        ensures
            r == self@.brightness,
    {
        self.brightness
    }

    pub fn is_on(&self) -> (r: bool)
        ensures
            r == self@.on,
    {
        self.on
    }
}

} // verus!
