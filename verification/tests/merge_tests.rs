use pad_merger::merge::{merge_pad_inputs, merge_thumb_joystick, merge_tick};
use pad_merger::pad::GamepadState;

fn sample(buttons: u16, thumb_lx: i16) -> GamepadState {
    GamepadState {
        buttons,
        left_trigger: 0,
        right_trigger: 0,
        thumb_lx,
        thumb_ly: 0,
        thumb_rx: 0,
        thumb_ry: 0,
    }
}

#[test]
fn joystick_picks_larger_magnitude() {
    assert_eq!(merge_thumb_joystick(100, -150), -150);
    assert_eq!(merge_thumb_joystick(-150, 100), -150);
    assert_eq!(merge_thumb_joystick(5, -3), 5);
    assert_eq!(merge_thumb_joystick(0, 0), 0);
}

#[test]
fn joystick_tie_keeps_accumulated() {
    assert_eq!(merge_thumb_joystick(100, -100), -100);
    assert_eq!(merge_thumb_joystick(-100, 100), 100);
}

#[test]
fn joystick_handles_minimum_value() {
    assert_eq!(merge_thumb_joystick(i16::MIN, i16::MAX), i16::MIN);
    assert_eq!(merge_thumb_joystick(i16::MAX, i16::MIN), i16::MIN);
    assert_eq!(merge_thumb_joystick(i16::MIN, i16::MIN), i16::MIN);
}

#[test]
fn joystick_merge_with_itself_is_identity() {
    for v in [i16::MIN, -1, 0, 1, 77, i16::MAX] {
        assert_eq!(merge_thumb_joystick(v, v), v);
    }
}

#[test]
fn trigger_merge_extremes() {
    let mut gamepad = GamepadState::neutral();
    let full = GamepadState { left_trigger: 0xFF, right_trigger: 0xFF, ..sample(0, 0) };
    let released = sample(0, 0);
    merge_pad_inputs(&released, &mut gamepad);
    assert_eq!(gamepad.left_trigger, 0x00);
    assert_eq!(gamepad.right_trigger, 0x00);
    merge_pad_inputs(&full, &mut gamepad);
    assert_eq!(gamepad.left_trigger, 0xFF);
    assert_eq!(gamepad.right_trigger, 0xFF);
}

#[test]
fn buttons_merge_by_or() {
    let mut gamepad = GamepadState::neutral();
    merge_pad_inputs(&sample(0x1001, 0), &mut gamepad);
    merge_pad_inputs(&sample(0x0110, 0), &mut gamepad);
    assert_eq!(gamepad.buttons, 0x1111);
}

#[test]
fn frame_merge_updates_every_field() {
    let mut gamepad = GamepadState::neutral();
    let src = GamepadState {
        buttons: 0x00C0,
        left_trigger: 0x80,
        right_trigger: 0x01,
        thumb_lx: -20000,
        thumb_ly: 31,
        thumb_rx: -1,
        thumb_ry: 12345,
    };
    merge_pad_inputs(&src, &mut gamepad);
    assert_eq!(gamepad, src);
}

#[test]
fn two_slot_merge_scenario() {
    let a = sample(0x0001, 100);
    let b = sample(0x0002, -150);
    let composed = merge_tick(&vec![Some(a), Some(b)]);
    assert_eq!(composed.buttons, 0x0003);
    assert_eq!(composed.thumb_lx, -150);
}

#[test]
fn tick_stops_at_failed_read() {
    let a = sample(0x0004, 90);
    let c = sample(0x0008, -9000);
    let with_failure = merge_tick(&vec![Some(a), None, Some(c)]);
    let first_only = merge_tick(&vec![Some(a)]);
    assert_eq!(with_failure, first_only);
    assert_eq!(with_failure.buttons, 0x0004);
    assert_eq!(with_failure.thumb_lx, 90);
}

#[test]
fn tick_failure_on_first_slot_publishes_neutral() {
    let a = sample(0x0700, 5);
    assert_eq!(merge_tick(&vec![None, Some(a)]), GamepadState::neutral());
}

#[test]
fn tick_of_no_slots_is_neutral() {
    assert_eq!(merge_tick(&vec![]), GamepadState::neutral());
}

#[test]
fn tick_buttons_independent_of_slot_order() {
    let a = sample(0x0021, 10);
    let b = sample(0x1200, -10);
    let ab = merge_tick(&vec![Some(a), Some(b)]);
    let ba = merge_tick(&vec![Some(b), Some(a)]);
    assert_eq!(ab.buttons, ba.buttons);
    assert_eq!(ab.buttons, 0x1221);
}
