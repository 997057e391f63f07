//! The three channel workers.
//!
//! Each worker owns one fixed binding table and, frame by frame, turns a
//! payload string into the batch of events the frame's state changes call
//! for. A malformed key payload drops the whole frame and leaves every
//! binding untouched; a mouse frame decodes its four fields independently.

use vstd::prelude::*;

use crate::codes;
use crate::event::{Event, EventKind};
use crate::key_input::{
    applied_u128, applied_u8, apply_mask_u128, apply_mask_u8, emitted_u128, emitted_u8,
    KeyInputU128, KeyInputU8,
};
use crate::mouse_data::{mouse_data_of, MilliDelta, MouseData};
use crate::parse::{is_uint_string, parse_u128, uint_val};

verus! {

/// How many raw axis units one unit of mouse motion is worth.
pub const AXIS_SPEED_MULTIPLIER: u32 = 8;

/// How many raw wheel units one unit of wheel motion is worth.
pub const WHEEL_SPEED_MULTIPLIER: u32 = 10;

/// The number of keyboard bindings: bits 0 through 85 of the 128-bit mask.
pub const KEYBOARD_TABLE_LEN: usize = 86;

/// The key code bound to bit `i` of the keyboard mask.
pub open spec fn keyboard_key(i: int) -> u16 {
    if i == 0 {
        codes::KEY_0
    } else if i == 1 {
        codes::KEY_1
    } else if i == 2 {
        codes::KEY_2
    } else if i == 3 {
        codes::KEY_3
    } else if i == 4 {
        codes::KEY_4
    } else if i == 5 {
        codes::KEY_5
    } else if i == 6 {
        codes::KEY_6
    } else if i == 7 {
        codes::KEY_7
    } else if i == 8 {
        codes::KEY_8
    } else if i == 9 {
        codes::KEY_9
    } else if i == 10 {
        codes::KEY_A
    } else if i == 11 {
        codes::KEY_B
    } else if i == 12 {
        codes::KEY_C
    } else if i == 13 {
        codes::KEY_D
    } else if i == 14 {
        codes::KEY_E
    } else if i == 15 {
        codes::KEY_F
    } else if i == 16 {
        codes::KEY_G
    } else if i == 17 {
        codes::KEY_H
    } else if i == 18 {
        codes::KEY_I
    } else if i == 19 {
        codes::KEY_J
    } else if i == 20 {
        codes::KEY_K
    } else if i == 21 {
        codes::KEY_L
    } else if i == 22 {
        codes::KEY_M
    } else if i == 23 {
        codes::KEY_N
    } else if i == 24 {
        codes::KEY_O
    } else if i == 25 {
        codes::KEY_P
    } else if i == 26 {
        codes::KEY_Q
    } else if i == 27 {
        codes::KEY_R
    } else if i == 28 {
        codes::KEY_S
    } else if i == 29 {
        codes::KEY_T
    } else if i == 30 {
        codes::KEY_U
    } else if i == 31 {
        codes::KEY_V
    } else if i == 32 {
        codes::KEY_W
    } else if i == 33 {
        codes::KEY_X
    } else if i == 34 {
        codes::KEY_Y
    } else if i == 35 {
        codes::KEY_Z
    } else if i == 36 {
        codes::KEY_F1
    } else if i == 37 {
        codes::KEY_F2
    } else if i == 38 {
        codes::KEY_F3
    } else if i == 39 {
        codes::KEY_F4
    } else if i == 40 {
        codes::KEY_F5
    } else if i == 41 {
        codes::KEY_F6
    } else if i == 42 {
        codes::KEY_F7
    } else if i == 43 {
        codes::KEY_F8
    } else if i == 44 {
        codes::KEY_F9
    } else if i == 45 {
        codes::KEY_F10
    } else if i == 46 {
        codes::KEY_F11
    } else if i == 47 {
        codes::KEY_F12
    } else if i == 48 {
        codes::KEY_ESC
    } else if i == 49 {
        codes::KEY_GRAVE
    } else if i == 50 {
        codes::KEY_SPACE
    } else if i == 51 {
        codes::KEY_ENTER
    } else if i == 52 {
        codes::KEY_TITLE
    } else if i == 53 {
        codes::KEY_LEFTALT
    } else if i == 54 {
        codes::KEY_LEFTMETA
    } else if i == 55 {
        codes::KEY_LEFTCTRL
    } else if i == 56 {
        codes::KEY_LEFTSHIFT
    } else if i == 57 {
        codes::KEY_BACKSPACE
    } else if i == 58 {
        codes::KEY_TAB
    } else if i == 59 {
        codes::KEY_CAPSLOCK
    } else if i == 60 {
        codes::KEY_UP
    } else if i == 61 {
        codes::KEY_DOWN
    } else if i == 62 {
        codes::KEY_LEFT
    } else if i == 63 {
        codes::KEY_RIGHT
    } else if i == 64 {
        codes::KEY_RIGHTALT
    } else if i == 65 {
        codes::KEY_RIGHTCTRL
    } else if i == 66 {
        codes::KEY_RIGHTSHIFT
    } else if i == 67 {
        codes::KEY_MINUS
    } else if i == 68 {
        codes::KEY_EQUAL
    } else if i == 69 {
        codes::KEY_LEFTBRACE
    } else if i == 70 {
        codes::KEY_RIGHTBRACE
    } else if i == 71 {
        codes::KEY_SEMICOLON
    } else if i == 72 {
        codes::KEY_APOSTROPHE
    } else if i == 73 {
        codes::KEY_BACKSLASH
    } else if i == 74 {
        codes::KEY_COMMA
    } else if i == 75 {
        codes::KEY_DOT
    } else if i == 76 {
        codes::KEY_SLASH
    } else if i == 77 {
        codes::KEY_INSERT
    } else if i == 78 {
        codes::KEY_DELETE
    } else if i == 79 {
        codes::KEY_HOME
    } else if i == 80 {
        codes::KEY_END
    } else if i == 81 {
        codes::KEY_PAGEUP
    } else if i == 82 {
        codes::KEY_PAGEDOWN
    } else if i == 83 {
        codes::KEY_PRINT
    } else if i == 84 {
        codes::KEY_SCROLLLOCK
    } else if i == 85 {
        codes::KEY_PAUSE
    } else {
        0u16
    }
}

/// The keyboard binding for bit `i`: fresh, with that bit's mask and key.
pub open spec fn kb_binding(i: int) -> KeyInputU128 {
    KeyInputU128 { mask: (1u128 << (i as u8)), key: keyboard_key(i), current_state: 0u8 }
}

/// The key code bound to bit `i` of the keyboard mask.
fn keyboard_code(i: usize) -> (c: u16)
    requires
        i < KEYBOARD_TABLE_LEN,
    ensures
        c == keyboard_key(i as int),
{
    if i == 0 {
        codes::KEY_0
    } else if i == 1 {
        codes::KEY_1
    } else if i == 2 {
        codes::KEY_2
    } else if i == 3 {
        codes::KEY_3
    } else if i == 4 {
        codes::KEY_4
    } else if i == 5 {
        codes::KEY_5
    } else if i == 6 {
        codes::KEY_6
    } else if i == 7 {
        codes::KEY_7
    } else if i == 8 {
        codes::KEY_8
    } else if i == 9 {
        codes::KEY_9
    } else if i == 10 {
        codes::KEY_A
    } else if i == 11 {
        codes::KEY_B
    } else if i == 12 {
        codes::KEY_C
    } else if i == 13 {
        codes::KEY_D
    } else if i == 14 {
        codes::KEY_E
    } else if i == 15 {
        codes::KEY_F
    } else if i == 16 {
        codes::KEY_G
    } else if i == 17 {
        codes::KEY_H
    } else if i == 18 {
        codes::KEY_I
    } else if i == 19 {
        codes::KEY_J
    } else if i == 20 {
        codes::KEY_K
    } else if i == 21 {
        codes::KEY_L
    } else if i == 22 {
        codes::KEY_M
    } else if i == 23 {
        codes::KEY_N
    } else if i == 24 {
        codes::KEY_O
    } else if i == 25 {
        codes::KEY_P
    } else if i == 26 {
        codes::KEY_Q
    } else if i == 27 {
        codes::KEY_R
    } else if i == 28 {
        codes::KEY_S
    } else if i == 29 {
        codes::KEY_T
    } else if i == 30 {
        codes::KEY_U
    } else if i == 31 {
        codes::KEY_V
    } else if i == 32 {
        codes::KEY_W
    } else if i == 33 {
        codes::KEY_X
    } else if i == 34 {
        codes::KEY_Y
    } else if i == 35 {
        codes::KEY_Z
    } else if i == 36 {
        codes::KEY_F1
    } else if i == 37 {
        codes::KEY_F2
    } else if i == 38 {
        codes::KEY_F3
    } else if i == 39 {
        codes::KEY_F4
    } else if i == 40 {
        codes::KEY_F5
    } else if i == 41 {
        codes::KEY_F6
    } else if i == 42 {
        codes::KEY_F7
    } else if i == 43 {
        codes::KEY_F8
    } else if i == 44 {
        codes::KEY_F9
    } else if i == 45 {
        codes::KEY_F10
    } else if i == 46 {
        codes::KEY_F11
    } else if i == 47 {
        codes::KEY_F12
    } else if i == 48 {
        codes::KEY_ESC
    } else if i == 49 {
        codes::KEY_GRAVE
    } else if i == 50 {
        codes::KEY_SPACE
    } else if i == 51 {
        codes::KEY_ENTER
    } else if i == 52 {
        codes::KEY_TITLE
    } else if i == 53 {
        codes::KEY_LEFTALT
    } else if i == 54 {
        codes::KEY_LEFTMETA
    } else if i == 55 {
        codes::KEY_LEFTCTRL
    } else if i == 56 {
        codes::KEY_LEFTSHIFT
    } else if i == 57 {
        codes::KEY_BACKSPACE
    } else if i == 58 {
        codes::KEY_TAB
    } else if i == 59 {
        codes::KEY_CAPSLOCK
    } else if i == 60 {
        codes::KEY_UP
    } else if i == 61 {
        codes::KEY_DOWN
    } else if i == 62 {
        codes::KEY_LEFT
    } else if i == 63 {
        codes::KEY_RIGHT
    } else if i == 64 {
        codes::KEY_RIGHTALT
    } else if i == 65 {
        codes::KEY_RIGHTCTRL
    } else if i == 66 {
        codes::KEY_RIGHTSHIFT
    } else if i == 67 {
        codes::KEY_MINUS
    } else if i == 68 {
        codes::KEY_EQUAL
    } else if i == 69 {
        codes::KEY_LEFTBRACE
    } else if i == 70 {
        codes::KEY_RIGHTBRACE
    } else if i == 71 {
        codes::KEY_SEMICOLON
    } else if i == 72 {
        codes::KEY_APOSTROPHE
    } else if i == 73 {
        codes::KEY_BACKSLASH
    } else if i == 74 {
        codes::KEY_COMMA
    } else if i == 75 {
        codes::KEY_DOT
    } else if i == 76 {
        codes::KEY_SLASH
    } else if i == 77 {
        codes::KEY_INSERT
    } else if i == 78 {
        codes::KEY_DELETE
    } else if i == 79 {
        codes::KEY_HOME
    } else if i == 80 {
        codes::KEY_END
    } else if i == 81 {
        codes::KEY_PAGEUP
    } else if i == 82 {
        codes::KEY_PAGEDOWN
    } else if i == 83 {
        codes::KEY_PRINT
    } else if i == 84 {
        codes::KEY_SCROLLLOCK
    } else if i == 85 {
        codes::KEY_PAUSE
    } else {
        0u16
    }
}

/// The mask value a key worker's payload denotes, if it denotes one: an
/// unsigned decimal integer of at most eight bits.
pub open spec fn mask8_of(s: Seq<char>) -> Option<u8> {
    if is_uint_string(s) && uint_val(s) <= 255 {
        Some(uint_val(s) as u8)
    } else {
        None
    }
}

/// The mask value the keyboard payload denotes, if it denotes one: an
/// unsigned decimal integer of at most 128 bits.
pub open spec fn mask128_of(s: Seq<char>) -> Option<u128> {
    if is_uint_string(s) && uint_val(s) <= u128::MAX {
        Some(uint_val(s) as u128)
    } else {
        None
    }
}

/// The osu worker's fixed table: bit 0 is the first action key (Z), bit 1
/// the second (X).
pub open spec fn osu_layout() -> Seq<KeyInputU8> {
    seq![
        KeyInputU8 { mask: (1u8 << 0u8), key: codes::KEY_Z, current_state: 0u8 },
        KeyInputU8 { mask: (1u8 << 1u8), key: codes::KEY_X, current_state: 0u8 },
    ]
}

/// The mouse worker's fixed button table: bit 0 left, bit 1 right, bit 2
/// middle.
pub open spec fn mouse_button_layout() -> Seq<KeyInputU8> {
    seq![
        KeyInputU8 { mask: (1u8 << 0u8), key: codes::BTN_LEFT, current_state: 0u8 },
        KeyInputU8 { mask: (1u8 << 1u8), key: codes::BTN_RIGHT, current_state: 0u8 },
        KeyInputU8 { mask: (1u8 << 2u8), key: codes::BTN_MIDDLE, current_state: 0u8 },
    ]
}

/// The osu channel worker: a two-key table over an 8-bit mask.
pub struct OsuWorker {
    pub keys: Vec<KeyInputU8>,
}

impl OsuWorker {
    /// A fresh worker: both action keys released.
    pub fn new() -> (r: Self)
        ensures
            r.keys@ == osu_layout(),
    {
        let mut keys: Vec<KeyInputU8> = Vec::new();
        keys.push(KeyInputU8::new(0, codes::KEY_Z));
        keys.push(KeyInputU8::new(1, codes::KEY_X));
        proof {
            assert(keys@ =~= osu_layout());
        }
        OsuWorker { keys }
    }

    /// Decode one frame. A payload that is not an unsigned 8-bit decimal
    /// integer drops the frame: no event, no state change. Otherwise every
    /// binding absorbs the mask and the changed ones emit, in table order.
    pub fn process(&mut self, payload: &str) -> (events: Vec<Event>)
        ensures
            mask8_of(payload@) matches Some(m) ==> final(self).keys@ == applied_u8(
                old(self).keys@,
                m,
            ) && events@ == emitted_u8(old(self).keys@, m),
            mask8_of(payload@) is None ==> final(self).keys@ == old(self).keys@ && events@
                == Seq::<Event>::empty(),
    {
        match parse_u128(payload) {
            Some(v) => {
                if v <= 255 {
                    apply_mask_u8(&mut self.keys, v as u8)
                } else {
                    Vec::new()
                }
            },
            None => Vec::new(),
        }
    }
}

/// The keyboard channel worker: the full 86-key table over a 128-bit mask.
pub struct KeyboardWorker {
    pub keys: Vec<KeyInputU128>,
}

impl KeyboardWorker {
    /// A fresh worker: every key released, bit `i` bound to `keyboard_key(i)`.
    pub fn new() -> (r: Self)
        ensures
            r.keys@.len() == KEYBOARD_TABLE_LEN,
            forall|i: int| 0 <= i < KEYBOARD_TABLE_LEN ==> r.keys@[i] == kb_binding(i),
    {
        let mut keys: Vec<KeyInputU128> = Vec::new();
        let mut i: usize = 0;
        while i < KEYBOARD_TABLE_LEN
            invariant
                i <= KEYBOARD_TABLE_LEN,
                keys@.len() == i,
                forall|j: int| 0 <= j < i ==> keys@[j] == kb_binding(j),
            decreases KEYBOARD_TABLE_LEN - i,
        {
            let code = keyboard_code(i);
            keys.push(KeyInputU128::new(i as u8, code));
            i += 1;
        }
        KeyboardWorker { keys }
    }

    /// Decode one frame. A payload that is not an unsigned 128-bit decimal
    /// integer drops the frame: no event, no state change. Otherwise every
    /// binding absorbs the mask and the changed ones emit, in table order.
    pub fn process(&mut self, payload: &str) -> (events: Vec<Event>)
        ensures
            mask128_of(payload@) matches Some(m) ==> final(self).keys@ == applied_u128(
                old(self).keys@,
                m,
            ) && events@ == emitted_u128(old(self).keys@, m),
            mask128_of(payload@) is None ==> final(self).keys@ == old(self).keys@ && events@
                == Seq::<Event>::empty(),
    {
        match parse_u128(payload) {
            Some(mask) => apply_mask_u128(&mut self.keys, mask),
            None => Vec::new(),
        }
    }
}

/// The signed raw value one motion field contributes, scaled from
/// milli-units by `mult` and clamped to the axis range. For the inverted
/// axis the sign flips, so positive input motion maps to a negative raw
/// value.
pub open spec fn axis_value(d: MilliDelta, mult: u32, invert: bool) -> int {
    let scaled = (d.milli as int) * (mult as int) / 1000;
    if d.neg != invert {
        if scaled >= 2147483648 {
            -2147483648
        } else {
            -scaled
        }
    } else {
        if scaled > 2147483647 {
            2147483647
        } else {
            scaled
        }
    }
}

/// Scale one motion field to its raw axis value.
pub fn scale_value(d: MilliDelta, mult: u32, invert: bool) -> (v: i32)
    ensures
        v == axis_value(d, mult, invert),
{
    proof {
        vstd::arithmetic::mul::lemma_mul_upper_bound(
            d.milli as int,
            0xffff_ffff_ffff_ffff,
            mult as int,
            0xffff_ffff,
        );
    }
    let wide: u128 = d.milli as u128 * mult as u128 / 1000;
    if d.neg != invert {
        if wide >= 2147483648 {
            -2147483648
        } else {
            -(wide as i32)
        }
    } else {
        if wide > 2147483647 {
            2147483647
        } else {
            wide as i32
        }
    }
}

/// The motion events one frame contributes, before its button events: X,
/// then Y (inverted), then wheel, each only when its delta is nonzero.
pub open spec fn motion_events(frame: MouseData) -> Seq<Event> {
    (if frame.delta_x.milli > 0 {
        seq![
            Event {
                kind: EventKind::Relative,
                code: codes::REL_X,
                value: axis_value(frame.delta_x, AXIS_SPEED_MULTIPLIER, false) as i32,
            },
        ]
    } else {
        Seq::<Event>::empty()
    }) + (if frame.delta_y.milli > 0 {
        seq![
            Event {
                kind: EventKind::Relative,
                code: codes::REL_Y,
                value: axis_value(frame.delta_y, AXIS_SPEED_MULTIPLIER, true) as i32,
            },
        ]
    } else {
        Seq::<Event>::empty()
    }) + (if frame.delta_wheel.milli > 0 {
        seq![
            Event {
                kind: EventKind::Relative,
                code: codes::REL_WHEEL,
                value: axis_value(frame.delta_wheel, WHEEL_SPEED_MULTIPLIER, false) as i32,
            },
        ]
    } else {
        Seq::<Event>::empty()
    })
}

/// The mouse channel worker: three button bindings and the axis scaling.
pub struct MouseWorker {
    pub buttons: Vec<KeyInputU8>,
}

impl MouseWorker {
    /// A fresh worker: all three buttons released.
    pub fn new() -> (r: Self)
        ensures
            r.buttons@ == mouse_button_layout(),
    {
        let mut buttons: Vec<KeyInputU8> = Vec::new();
        buttons.push(KeyInputU8::new(0, codes::BTN_LEFT));
        buttons.push(KeyInputU8::new(1, codes::BTN_RIGHT));
        buttons.push(KeyInputU8::new(2, codes::BTN_MIDDLE));
        proof {
            assert(buttons@ =~= mouse_button_layout());
        }
        MouseWorker { buttons }
    }

    /// Decode one frame: the motion events of the nonzero deltas, then the
    /// edge-triggered button events. Malformed fields read as zero; the
    /// frame itself is never dropped.
    pub fn process(&mut self, payload: &str) -> (events: Vec<Event>)
        ensures
            final(self).buttons@ == applied_u8(
                old(self).buttons@,
                mouse_data_of(payload@).button_state,
            ),
            events@ == motion_events(mouse_data_of(payload@)) + emitted_u8(
                old(self).buttons@,
                mouse_data_of(payload@).button_state,
            ),
    {
        let frame = MouseData::new(payload.to_owned());
        let mut events: Vec<Event> = Vec::new();
        if frame.delta_x.milli > 0 {
            events.push(
                Event {
                    kind: EventKind::Relative,
                    code: codes::REL_X,
                    value: scale_value(frame.delta_x, AXIS_SPEED_MULTIPLIER, false),
                },
            );
        }
        if frame.delta_y.milli > 0 {
            events.push(
                Event {
                    kind: EventKind::Relative,
                    code: codes::REL_Y,
                    value: scale_value(frame.delta_y, AXIS_SPEED_MULTIPLIER, true),
                },
            );
        }
        if frame.delta_wheel.milli > 0 {
            events.push(
                Event {
                    kind: EventKind::Relative,
                    code: codes::REL_WHEEL,
                    value: scale_value(frame.delta_wheel, WHEEL_SPEED_MULTIPLIER, false),
                },
            );
        }
        proof {
            assert(events@ =~= motion_events(mouse_data_of(payload@)));
        }
        let mut button_events = apply_mask_u8(&mut self.buttons, frame.button_state);
        events.append(&mut button_events);
        proof {
            assert(events@ =~= motion_events(mouse_data_of(payload@)) + emitted_u8(
                old(self).buttons@,
                mouse_data_of(payload@).button_state,
            ));
        }
        events
    }
}

} // verus!
