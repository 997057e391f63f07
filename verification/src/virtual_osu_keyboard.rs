//! The capability interface of an osu! virtual keyboard sink.
//!
//! The application implements this over its platform's virtual input
//! device; the library itself never looks behind it. States are 1 for
//! pressed and 0 for released; `exec_event` flushes the pending states to
//! the device.

use vstd::prelude::*;

verus! {

pub trait VirtualOsuKeyboard {
    /// Set the state of the first action key.
    fn set_k1_state(&mut self, state: i32);

    /// Set the state of the second action key.
    fn set_k2_state(&mut self, state: i32);

    /// Set the state of the back (escape) key.
    fn set_back_state(&mut self, state: i32);

    /// Set the state of the skip (space) key.
    fn set_skip_state(&mut self, state: i32);

    /// Set the state of the random-map (F2) key.
    fn set_random_map_state(&mut self, state: i32);

    /// Report the pending states to the device.
    fn exec_event(&mut self);
}

} // verus!
