//! Who owns a key, channel by channel: holds, pedals and panics.
use rf_tines::keyboard::{
    key_index, Keyboard, CONTROLLER_ALL_NOTES_OFF, CONTROLLER_ALL_SOUND_OFF,
    CONTROLLER_RESET_ALL, CONTROLLER_SUSTAIN, KEY_COUNT,
};
use rf_tines::midi::Level;

const A3: u8 = 57;

fn ringing(keys: &[usize]) -> Vec<bool> {
    let mut active = vec![false; KEY_COUNT];
    for key in keys {
        active[*key] = true;
    }
    active
}

#[test]
fn keys_cover_notes_28_to_100_on_sixteen_channels() {
    assert_eq!(key_index(0, 28), Some(0));
    assert_eq!(key_index(15, 100), Some(72));
    assert_eq!(key_index(3, A3), Some(29));
    assert_eq!(key_index(0, 27), None);
    assert_eq!(key_index(0, 101), None);
    assert_eq!(key_index(16, A3), None);
}

#[test]
fn a_new_keyboard_rests_every_damper() {
    let keyboard = Keyboard::new();
    for key in 0..KEY_COUNT {
        assert!(keyboard.damped(key));
        assert_eq!(keyboard.last_channel(key), 0);
    }
}

#[test]
fn pedal_and_all_notes_off_are_channel_aware() {
    let mut keyboard = Keyboard::new();
    let key = keyboard.note_on(0, A3).unwrap();
    let active = ringing(&[key]);
    let outcome = keyboard
        .control_change(0, CONTROLLER_SUSTAIN, true, &active)
        .unwrap();
    assert!(!outcome.centre_bend);
    keyboard
        .control_change(0, CONTROLLER_ALL_NOTES_OFF, false, &active)
        .unwrap();
    assert!(!keyboard.damped(key));
    keyboard
        .control_change(1, CONTROLLER_SUSTAIN, false, &active)
        .unwrap();
    assert!(!keyboard.damped(key));
    keyboard
        .control_change(0, CONTROLLER_SUSTAIN, false, &active)
        .unwrap();
    assert!(keyboard.damped(key));
}

#[test]
fn late_pedal_recaptures_a_released_tail() {
    let mut keyboard = Keyboard::new();
    let key = keyboard.note_on(0, A3).unwrap();
    assert_eq!(keyboard.note_off(0, A3), Some(key));
    assert!(keyboard.damped(key));
    keyboard
        .control_change(0, CONTROLLER_SUSTAIN, true, &ringing(&[key]))
        .unwrap();
    assert!(!keyboard.damped(key));
}

#[test]
fn a_late_pedal_leaves_a_silent_key_alone() {
    let mut keyboard = Keyboard::new();
    let key = keyboard.note_on(0, A3).unwrap();
    keyboard.note_off(0, A3);
    keyboard
        .control_change(0, CONTROLLER_SUSTAIN, true, &ringing(&[]))
        .unwrap();
    assert!(keyboard.damped(key));
}

#[test]
fn another_channels_pedal_does_not_catch_a_key() {
    let mut keyboard = Keyboard::new();
    let key = keyboard.note_on(2, A3).unwrap();
    keyboard.note_off(2, A3);
    keyboard
        .control_change(5, CONTROLLER_SUSTAIN, true, &ringing(&[key]))
        .unwrap();
    assert!(keyboard.damped(key));
}

#[test]
fn a_key_released_under_its_pedal_is_sustained_until_the_pedal_lifts() {
    let mut keyboard = Keyboard::new();
    keyboard
        .control_change(4, CONTROLLER_SUSTAIN, true, &ringing(&[]))
        .unwrap();
    let key = keyboard.note_on(4, A3).unwrap();
    keyboard.note_off(4, A3);
    assert!(!keyboard.damped(key));
    let outcome = keyboard
        .control_change(4, CONTROLLER_RESET_ALL, false, &ringing(&[key]))
        .unwrap();
    assert!(outcome.centre_bend);
    assert!(keyboard.damped(key));
}

#[test]
fn one_channels_panic_does_not_kill_another_channels_held_key() {
    let mut keyboard = Keyboard::new();
    let key = keyboard.note_on(0, A3).unwrap();
    keyboard.note_on(1, A3).unwrap();
    let active = ringing(&[key]);
    let first = keyboard
        .control_change(0, CONTROLLER_ALL_SOUND_OFF, false, &active)
        .unwrap();
    assert!(!first.stops[key]);
    assert!(!keyboard.damped(key));
    let second = keyboard
        .control_change(1, CONTROLLER_ALL_SOUND_OFF, false, &active)
        .unwrap();
    assert!(second.stops[key]);
    assert!(keyboard.damped(key));
}

#[test]
fn all_sound_off_stops_released_tails() {
    let mut keyboard = Keyboard::new();
    let key = keyboard.note_on(3, A3).unwrap();
    keyboard.note_off(3, A3);
    let outcome = keyboard
        .control_change(3, CONTROLLER_ALL_SOUND_OFF, false, &ringing(&[key]))
        .unwrap();
    assert!(outcome.stops[key]);
    assert_eq!(outcome.stops.iter().filter(|stop| **stop).count(), 1);
    let other = keyboard.silence(4);
    assert!(other.iter().all(|stop| !stop));
}

#[test]
fn unknown_controllers_and_channels_are_refused() {
    let mut keyboard = Keyboard::new();
    let key = keyboard.note_on(0, A3).unwrap();
    let active = ringing(&[key]);
    assert!(keyboard.control_change(0, 7, true, &active).is_none());
    assert!(keyboard
        .control_change(16, CONTROLLER_ALL_SOUND_OFF, false, &active)
        .is_none());
    assert!(!keyboard.damped(key));
    assert_eq!(keyboard.note_on(16, A3), None);
    assert_eq!(keyboard.note_off(0, 20), None);
}

#[test]
fn a_restrike_takes_the_key_for_the_new_channel() {
    let mut keyboard = Keyboard::new();
    let key = keyboard.note_on(2, A3).unwrap();
    keyboard.note_on(9, A3).unwrap();
    assert_eq!(keyboard.last_channel(key), 9);
    let active = ringing(&[key]);
    assert!(keyboard.bend_targets(9, &active)[key]);
    assert!(!keyboard.bend_targets(2, &active)[key]);
    assert!(!keyboard.bend_targets(9, &ringing(&[]))[key]);
    keyboard.note_off(9, A3);
    assert!(!keyboard.damped(key));
    keyboard.note_off(2, A3);
    assert!(keyboard.damped(key));
}

#[test]
fn reset_damps_everything_and_lifts_every_pedal() {
    let mut keyboard = Keyboard::new();
    keyboard
        .control_change(0, CONTROLLER_SUSTAIN, true, &ringing(&[]))
        .unwrap();
    let key = keyboard.note_on(0, A3).unwrap();
    let low = keyboard.note_on(7, 28).unwrap();
    keyboard.reset();
    assert!(keyboard.damped(key));
    assert!(keyboard.damped(low));
    assert_eq!(keyboard.last_channel(low), 7);
    let again = keyboard.note_on(0, A3).unwrap();
    keyboard.note_off(0, A3);
    assert!(keyboard.damped(again));
}

#[test]
fn release_all_and_lift_pedal_act_on_one_channel() {
    let mut keyboard = Keyboard::new();
    let a = keyboard.note_on(0, 40).unwrap();
    let b = keyboard.note_on(1, 41).unwrap();
    keyboard.release_all(0);
    assert!(keyboard.damped(a));
    assert!(!keyboard.damped(b));
    keyboard.press_pedal(1, &ringing(&[b]));
    keyboard.note_off(1, 41);
    assert!(!keyboard.damped(b));
    keyboard.lift_pedal(0);
    assert!(!keyboard.damped(b));
    keyboard.lift_pedal(1);
    assert!(keyboard.damped(b));
}

fn level(numerator: u32, denominator: u32) -> Level {
    Level {
        numerator,
        denominator,
    }
}

#[test]
fn note_on_levels_strike_release_or_are_refused() {
    let mut keyboard = Keyboard::new();
    assert_eq!(keyboard.play(0, A3, level(100, 127)), Some((29, true)));
    assert!(!keyboard.damped(29));
    assert_eq!(keyboard.play(0, A3, level(128, 127)), None);
    assert_eq!(keyboard.play(0, A3, level(1, 0)), None);
    assert!(!keyboard.damped(29));
    assert_eq!(keyboard.play(0, A3, level(0, 127)), Some((29, false)));
    assert!(keyboard.damped(29));
    assert_eq!(keyboard.play(0, 20, level(100, 127)), None);
}

#[test]
fn the_sustain_pedal_goes_down_at_half_travel() {
    let mut keyboard = Keyboard::new();
    let key = keyboard.note_on(0, A3).unwrap();
    let active = ringing(&[key]);
    keyboard.control(0, CONTROLLER_SUSTAIN, level(64, 127), &active).unwrap();
    keyboard.note_off(0, A3);
    assert!(!keyboard.damped(key));
    keyboard.control(0, CONTROLLER_SUSTAIN, level(63, 127), &active).unwrap();
    assert!(keyboard.damped(key));
    assert!(keyboard
        .control(0, CONTROLLER_SUSTAIN, level(200, 127), &active)
        .is_none());
    assert!(keyboard
        .control(0, CONTROLLER_SUSTAIN, level(u32::MAX / 2 + 1, u32::MAX), &active)
        .is_some());
    keyboard.note_on(0, A3);
    keyboard.note_off(0, A3);
    assert!(!keyboard.damped(key));
}
