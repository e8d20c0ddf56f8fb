use libdsp::indicator::{Indicator, BRIGHTNESS_FULL};

#[test]
fn brightness_moves_toward_target_by_step() {
    let mut led = Indicator::new(100);
    led.set_brightness(250);
    let mut seen = Vec::new();
    for _ in 0..4 {
        led.update();
        seen.push(led.brightness());
    }
    assert_eq!(seen, vec![100, 200, 250, 250]);
    led.set_brightness(0);
    led.update();
    assert_eq!(led.brightness(), 150);
    led.update();
    led.update();
    assert_eq!(led.brightness(), 0);
}

#[test]
fn brightness_stays_within_full_scale() {
    let mut led = Indicator::new(u32::MAX);
    led.set_brightness(BRIGHTNESS_FULL);
    led.update();
    assert_eq!(led.brightness(), BRIGHTNESS_FULL);
    led.set_brightness(0);
    led.update();
    assert_eq!(led.brightness(), 0);
}

#[test]
fn blink_schedule_follows_period() {
    let mut led = Indicator::new(1000);
    led.set_brightness(BRIGHTNESS_FULL);
    assert!(led.is_on());
    led.set_blink_period(4);
    let mut pattern = Vec::new();
    for _ in 0..8 {
        led.update();
        pattern.push(led.is_on());
    }
    assert_eq!(pattern, vec![true, false, false, true, true, false, false, true]);
    led.set_blink_period(0);
    led.update();
    assert!(led.is_on());
}

#[test]
fn odd_blink_period_is_on_for_the_longer_half() {
    let mut led = Indicator::new(1);
    led.set_blink_period(3);
    let mut pattern = Vec::new();
    for _ in 0..6 {
        led.update();
        pattern.push(led.is_on());
    }
    assert_eq!(pattern, vec![true, false, true, true, false, true]);
}
