//! The outbound event value a worker hands to the virtual device layer.

use vstd::prelude::*;

verus! {

/// Whether an event sets a key/button state or reports relative motion.
#[derive(Debug, Clone, Copy, PartialEq, Eq, Structural)]
pub enum EventKind {
    Key,
    Relative,
}

/// One `(capability, value)` pair destined for the virtual device.
///
/// For `Key` events `code` is a key or button code and `value` is 1 for a
/// press and 0 for a release. For `Relative` events `code` is an axis code
/// and `value` the signed motion amount.
#[derive(Debug, Clone, Copy, PartialEq, Eq, Structural)]
pub struct Event {
    pub kind: EventKind,
    pub code: u16,
    pub value: i32,
}

} // verus!
