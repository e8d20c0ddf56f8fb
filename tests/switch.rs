use libdsp::switch::{DebouncedInput, SwitchEvent};

const DEBOUNCE: u32 = 2;
const DOUBLE_CLICK: u32 = 10;
const HELD: u32 = 20;

fn run(input: &mut DebouncedInput, level: bool, polls: usize) -> Vec<SwitchEvent> {
    (0..polls).map(|_| input.update(level)).collect()
}

fn count(events: &[SwitchEvent], kind: SwitchEvent) -> usize {
    events.iter().filter(|e| **e == kind).count()
}

#[test]
fn bounce_shorter_than_window_is_ignored() {
    let mut input = DebouncedInput::new(3, DOUBLE_CLICK, HELD);
    let mut events = Vec::new();
    for level in [true, false, true, true, false, false, true, false] {
        events.push(input.update(level));
    }
    assert!(events.iter().all(|e| *e == SwitchEvent::Idle));
    assert!(!input.is_pressed());
}

#[test]
fn press_is_accepted_after_debounce_window() {
    let mut input = DebouncedInput::new(DEBOUNCE, DOUBLE_CLICK, HELD);
    assert_eq!(input.update(true), SwitchEvent::Idle);
    assert_eq!(input.update(true), SwitchEvent::Pressed);
    assert!(input.is_pressed());
    assert_eq!(input.update(false), SwitchEvent::Idle);
    assert_eq!(input.update(false), SwitchEvent::Released);
    assert!(!input.is_pressed());
}

#[test]
fn single_click_is_reported_when_window_ends() {
    let mut input = DebouncedInput::new(DEBOUNCE, DOUBLE_CLICK, HELD);
    let mut events = run(&mut input, true, 3);
    events.extend(run(&mut input, false, 2));
    assert_eq!(*events.last().unwrap(), SwitchEvent::Released);
    let rest = run(&mut input, false, DOUBLE_CLICK as usize);
    assert_eq!(rest[..DOUBLE_CLICK as usize - 1], vec![SwitchEvent::Idle; 9][..]);
    assert_eq!(rest[DOUBLE_CLICK as usize - 1], SwitchEvent::Clicked);
    events.extend(rest);
    events.extend(run(&mut input, false, 30));
    assert_eq!(count(&events, SwitchEvent::Clicked), 1);
    assert_eq!(count(&events, SwitchEvent::DoubleClicked), 0);
    assert_eq!(count(&events, SwitchEvent::Held), 0);
}

#[test]
fn two_short_presses_make_one_double_click() {
    let mut input = DebouncedInput::new(DEBOUNCE, DOUBLE_CLICK, HELD);
    let mut events = run(&mut input, true, 4);
    events.extend(run(&mut input, false, 5));
    events.extend(run(&mut input, true, 4));
    events.extend(run(&mut input, false, 40));
    assert_eq!(count(&events, SwitchEvent::DoubleClicked), 1);
    assert_eq!(count(&events, SwitchEvent::Held), 0);
    assert_eq!(count(&events, SwitchEvent::Clicked), 0);
    assert_eq!(count(&events, SwitchEvent::Pressed), 1);
    assert_eq!(count(&events, SwitchEvent::Released), 2);
}

#[test]
fn long_press_is_held_once_without_click() {
    let mut input = DebouncedInput::new(DEBOUNCE, DOUBLE_CLICK, HELD);
    let mut events = run(&mut input, true, 100);
    events.extend(run(&mut input, false, 40));
    assert_eq!(count(&events, SwitchEvent::Held), 1);
    assert_eq!(count(&events, SwitchEvent::Clicked), 0);
    assert_eq!(count(&events, SwitchEvent::DoubleClicked), 0);
    // Held comes held_thresh polls after the debounced press.
    assert_eq!(events[DEBOUNCE as usize - 1], SwitchEvent::Pressed);
    assert_eq!(events[DEBOUNCE as usize - 1 + HELD as usize], SwitchEvent::Held);
}

#[test]
fn held_suppresses_pending_click_with_short_hold_threshold() {
    // A hold threshold shorter than the double-click window: the press is
    // held before its release, so no click follows.
    let mut input = DebouncedInput::new(1, 50, 5);
    let mut events = run(&mut input, true, 8);
    events.extend(run(&mut input, false, 100));
    assert_eq!(count(&events, SwitchEvent::Held), 1);
    assert_eq!(count(&events, SwitchEvent::Clicked), 0);
}

#[test]
fn second_press_after_window_is_a_new_press() {
    let mut input = DebouncedInput::new(DEBOUNCE, DOUBLE_CLICK, HELD);
    let mut events = run(&mut input, true, 3);
    events.extend(run(&mut input, false, 20));
    events.extend(run(&mut input, true, 3));
    assert_eq!(count(&events, SwitchEvent::Clicked), 1);
    assert_eq!(count(&events, SwitchEvent::DoubleClicked), 0);
    assert_eq!(count(&events, SwitchEvent::Pressed), 2);
}
