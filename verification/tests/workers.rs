use sensor_handler::codes::{
    BTN_LEFT, BTN_MIDDLE, BTN_RIGHT, KEY_0, KEY_PAUSE, KEY_X, KEY_Z, REL_WHEEL, REL_X, REL_Y,
};
use sensor_handler::event::{Event, EventKind};
use sensor_handler::inputs::{KeyboardWorker, MouseWorker, OsuWorker};

fn key(code: u16, value: i32) -> Event {
    Event { kind: EventKind::Key, code, value }
}

fn rel(code: u16, value: i32) -> Event {
    Event { kind: EventKind::Relative, code, value }
}

#[test]
fn osu_first_frame_presses_set_bits_only() {
    // Payload "5" is binary 101: bit 0 presses the first action key, bit 1
    // stays released, bit 2 is outside the table and ignored.
    let mut worker = OsuWorker::new();
    let events = worker.process("5");
    assert_eq!(events, vec![key(KEY_Z, 1)]);
}

#[test]
fn osu_out_of_table_bits_are_ignored() {
    // Payload "7" is binary 111: both table bits press, bit 2 is ignored.
    let mut worker = OsuWorker::new();
    let events = worker.process("7");
    assert_eq!(events, vec![key(KEY_Z, 1), key(KEY_X, 1)]);
}

#[test]
fn osu_malformed_payload_drops_frame_keeps_state() {
    let mut worker = OsuWorker::new();
    assert_eq!(worker.process("1"), vec![key(KEY_Z, 1)]);
    // Malformed frames emit nothing and leave the state as it was.
    assert_eq!(worker.process("not a number"), vec![]);
    assert_eq!(worker.process(""), vec![]);
    assert_eq!(worker.process("256"), vec![]);
    assert_eq!(worker.process("-1"), vec![]);
    // The worker still believes the first key is pressed.
    assert_eq!(worker.process("0"), vec![key(KEY_Z, 0)]);
}

#[test]
fn osu_identical_mask_twice_is_silent() {
    let mut worker = OsuWorker::new();
    assert_eq!(worker.process("3"), vec![key(KEY_Z, 1), key(KEY_X, 1)]);
    assert_eq!(worker.process("3"), vec![]);
}

#[test]
fn osu_second_mask_emits_exactly_the_changed_bits() {
    // From mask 1 to mask 2: bit 0 falls, bit 1 rises.
    let mut worker = OsuWorker::new();
    worker.process("1");
    let events = worker.process("2");
    assert_eq!(events, vec![key(KEY_Z, 0), key(KEY_X, 1)]);
}

#[test]
fn keyboard_lowest_bit_is_key_0() {
    let mut worker = KeyboardWorker::new();
    let events = worker.process("1");
    assert_eq!(events, vec![key(KEY_0, 1)]);
}

#[test]
fn keyboard_highest_bit_is_key_pause() {
    // 2^85 sets the last bit of the table.
    let mut worker = KeyboardWorker::new();
    let events = worker.process("38685626227668133590597632");
    assert_eq!(events, vec![key(KEY_PAUSE, 1)]);
}

#[test]
fn keyboard_overflowing_payload_drops_frame() {
    let mut worker = KeyboardWorker::new();
    worker.process("1");
    // 2^128 does not fit the mask: the frame is dropped, state kept.
    assert_eq!(worker.process("340282366920938463463374607431768211456"), vec![]);
    assert_eq!(worker.process("0"), vec![key(KEY_0, 0)]);
}

#[test]
fn keyboard_chord_emits_in_table_order() {
    let mut worker = KeyboardWorker::new();
    // Bits 0 and 1 together: KEY_0 then KEY_1, in table order.
    let events = worker.process("3");
    assert_eq!(events.len(), 2);
    assert_eq!(events[0].code, KEY_0);
    assert_eq!(events[0].value, 1);
    assert_eq!(events[1].value, 1);
}

#[test]
fn mouse_frame_with_defaults_scales_and_inverts() {
    // dx 3.0 scales by 8 to 24; dy -2.0 scales and inverts to 16; no wheel
    // motion; button bit 0 presses the left button.
    let mut worker = MouseWorker::new();
    let events = worker.process("3.0;-2.0;0;1");
    assert_eq!(events, vec![rel(REL_X, 24), rel(REL_Y, 16), key(BTN_LEFT, 1)]);
}

#[test]
fn mouse_wheel_scales_by_ten() {
    let mut worker = MouseWorker::new();
    let events = worker.process("0;0;1.5;0");
    assert_eq!(events, vec![rel(REL_WHEEL, 15)]);
}

#[test]
fn mouse_buttons_are_edge_triggered_per_button() {
    let mut worker = MouseWorker::new();
    assert_eq!(worker.process("0;0;0;7"), vec![
        key(BTN_LEFT, 1),
        key(BTN_RIGHT, 1),
        key(BTN_MIDDLE, 1),
    ]);
    // Only the middle button changes.
    assert_eq!(worker.process("0;0;0;3"), vec![key(BTN_MIDDLE, 0)]);
    // Re-sending the same mask is silent.
    assert_eq!(worker.process("0;0;0;3"), vec![]);
}

#[test]
fn mouse_malformed_fields_read_as_zero() {
    let mut worker = MouseWorker::new();
    worker.process("0;0;0;1");
    // A line with no separators has one malformed motion field and no
    // button field: everything reads zero, so the left button releases.
    let events = worker.process("garbage");
    assert_eq!(events, vec![key(BTN_LEFT, 0)]);
}

#[test]
fn mouse_fractional_motion_rounds_toward_zero() {
    let mut worker = MouseWorker::new();
    // 0.125 x 8 = 1 exactly.
    assert_eq!(worker.process("0.125"), vec![rel(REL_X, 1)]);
    // 0.1 x 8 = 0.8, truncated to 0: the event still fires, with value 0.
    assert_eq!(worker.process("0.1"), vec![rel(REL_X, 0)]);
}

#[test]
fn mouse_huge_motion_saturates_axis_value() {
    let mut worker = MouseWorker::new();
    assert_eq!(worker.process("9999999999;0;0;0"), vec![rel(REL_X, 2147483647)]);
    assert_eq!(worker.process("0;9999999999;0;0"), vec![rel(REL_Y, -2147483648)]);
}

#[test]
fn mouse_missing_fields_default_to_zero() {
    let mut worker = MouseWorker::new();
    assert_eq!(worker.process("1.0"), vec![rel(REL_X, 8)]);
    assert_eq!(worker.process("0;1.0"), vec![rel(REL_Y, -8)]);
    assert_eq!(worker.process(""), vec![]);
}
