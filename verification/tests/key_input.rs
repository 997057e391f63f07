use sensor_handler::codes::{KEY_T, KEY_X, KEY_Z};
use sensor_handler::event::{Event, EventKind};
use sensor_handler::key_input::{KeyInputU128, KeyInputU8};

#[test]
fn inputs_should_fire_only_second_time() {
    let data1 = 0b0001;
    let data2 = 0b0011;
    let data3 = 0b0000;
    let data4 = 0b1111;
    let mut key = KeyInputU128::new(0, KEY_T);

    assert!(key.get_event(data1).is_some());
    assert!(key.get_event(data2).is_none());
    assert!(key.get_event(data3).is_some());
    assert!(key.get_event(data4).is_some());
}

#[test]
fn key_input_should_fire_only_second_time() {
    let data1 = 0b0001;
    let data2 = 0b0011;
    let data3 = 0b0000;
    let data4 = 0b1111;
    let mut key = KeyInputU128::new(0, KEY_T);

    assert!(key.get_event(data1).is_some());
    assert!(key.get_event(data2).is_none());
    assert!(key.get_event(data3).is_some());
    assert!(key.get_event(data4).is_some());
}

#[test]
fn press_and_release_events_carry_key_and_state() {
    let mut key = KeyInputU128::new(2, KEY_Z);

    let press = key.get_event(0b0100).expect("rising edge fires");
    assert_eq!(press, Event { kind: EventKind::Key, code: KEY_Z, value: 1 });

    let release = key.get_event(0b0000).expect("falling edge fires");
    assert_eq!(release, Event { kind: EventKind::Key, code: KEY_Z, value: 0 });
}

#[test]
fn u8_binding_fires_on_edges_only() {
    let mut key = KeyInputU8::new(1, KEY_X);

    assert!(key.get_event(0b10).is_some());
    assert!(key.get_event(0b11).is_none());
    assert!(key.get_event(0b01).is_some());
    assert!(key.get_event(0b00).is_none());
}

#[test]
fn first_frame_set_bit_is_a_real_transition() {
    // A fresh binding starts Released, so a set bit in the very first frame
    // presses the key.
    let mut key = KeyInputU8::new(0, KEY_Z);
    let ev = key.get_event(1).expect("first frame fires");
    assert_eq!(ev.value, 1);
}
