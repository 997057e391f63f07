//! Relays compact integer state snapshots from a remote device as discrete
//! press/release and motion events for a virtual input device.
//!
//! The library holds the protocol dispatcher, the per-category edge-triggered
//! bitmask decoders, and the mouse frame parser. Network I/O, thread spawning
//! and the platform virtual-device primitive live outside, in the surrounding
//! application; the library hands it plain event values to emit.

pub mod codes;
pub mod event;
pub mod inputs;
pub mod key_input;
pub mod mouse_data;
pub mod parse;
pub mod protocol;
pub mod senders;
pub mod virtual_osu_keyboard;
