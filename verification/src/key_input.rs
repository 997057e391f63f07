//! Edge-triggered key bindings.
//!
//! A binding ties one bit of a category's mask to a key code and remembers the
//! state it last reported. Feeding it a fresh mask yields an event exactly
//! when the bit's boolean value differs from the remembered state.

use vstd::prelude::*;

use crate::event::{Event, EventKind};

verus! {

/// A binding into an 8-bit mask (osu! keys, mouse buttons).
#[derive(Debug, Clone, Copy, PartialEq, Eq, Structural)]
pub struct KeyInputU8 {
    pub mask: u8,
    pub key: u16,
    pub current_state: u8,
}

/// A binding into a 128-bit mask (the keyboard table).
#[derive(Debug, Clone, Copy, PartialEq, Eq, Structural)]
pub struct KeyInputU128 {
    pub mask: u128,
    pub key: u16,
    pub current_state: u8,
}

impl KeyInputU8 {
    /// The boolean state (as 0 or 1) this binding's bit has in `mask`.
    pub open spec fn state_for(self, mask: u8) -> u8 {
        if self.mask & mask != 0 {
            1u8
        } else {
            0u8
        }
    }

    /// The binding after absorbing `mask`.
    pub open spec fn stepped(self, mask: u8) -> KeyInputU8 {
        KeyInputU8 { current_state: self.state_for(mask), ..self }
    }

    /// The event absorbing `mask` produces, if the state changes.
    pub open spec fn edge_event(self, mask: u8) -> Option<Event> {
        if self.current_state == self.state_for(mask) {
            None
        } else {
            Some(
                Event {
                    kind: EventKind::Key,
                    code: self.key,
                    value: self.state_for(mask) as i32,
                },
            )
        }
    }

    /// A fresh (released) binding for bit `bit` of the mask.
    pub fn new(bit: u8, key: u16) -> (r: Self)
        requires
            bit < 8,
        ensures
            r == (KeyInputU8 { mask: (1u8 << bit), key, current_state: 0u8 }),
    {
        Self { mask: 1u8 << bit, key, current_state: 0 }
    }

    /// Absorb `mask`: record the bit's new state, and report an event exactly
    /// when that state differs from the remembered one.
    pub fn get_event(&mut self, mask: u8) -> (r: Option<Event>)
        ensures
            *final(self) == old(self).stepped(mask),
            r == old(self).edge_event(mask),
    {
        let state: u8 = if self.mask & mask > 0 {
            1
        } else {
            0
        };
        if self.current_state == state {
            return None;
        }
        self.current_state = state;
        Some(Event { kind: EventKind::Key, code: self.key, value: self.current_state as i32 })
    }
}

impl KeyInputU128 {
    /// The boolean state (as 0 or 1) this binding's bit has in `mask`.
    pub open spec fn state_for(self, mask: u128) -> u8 {
        if self.mask & mask != 0 {
            1u8
        } else {
            0u8
        }
    }

    /// The binding after absorbing `mask`.
    pub open spec fn stepped(self, mask: u128) -> KeyInputU128 {
        KeyInputU128 { current_state: self.state_for(mask), ..self }
    }

    /// The event absorbing `mask` produces, if the state changes.
    pub open spec fn edge_event(self, mask: u128) -> Option<Event> {
        if self.current_state == self.state_for(mask) {
            None
        } else {
            Some(
                Event {
                    kind: EventKind::Key,
                    code: self.key,
                    value: self.state_for(mask) as i32,
                },
            )
        }
    }

    /// A fresh (released) binding for bit `bit` of the mask.
    pub fn new(bit: u8, key: u16) -> (r: Self)
        requires
            bit < 128,
        ensures
            r == (KeyInputU128 { mask: (1u128 << bit), key, current_state: 0u8 }),
    {
        Self { mask: 1u128 << bit, key, current_state: 0 }
    }

    /// Absorb `mask`: record the bit's new state, and report an event exactly
    /// when that state differs from the remembered one.
    pub fn get_event(&mut self, mask: u128) -> (r: Option<Event>)
        ensures
            *final(self) == old(self).stepped(mask),
            r == old(self).edge_event(mask),
    {
        let state: u8 = if self.mask & mask > 0 {
            1
        } else {
            0
        };
        if self.current_state == state {
            return None;
        }
        self.current_state = state;
        Some(Event { kind: EventKind::Key, code: self.key, value: self.current_state as i32 })
    }
}

/// The whole table after absorbing `mask`.
pub open spec fn applied_u8(t: Seq<KeyInputU8>, mask: u8) -> Seq<KeyInputU8> {
    Seq::new(t.len(), |i: int| t[i].stepped(mask))
}

/// The events the table emits while absorbing `mask`, in table order.
pub open spec fn emitted_u8(t: Seq<KeyInputU8>, mask: u8) -> Seq<Event>
    decreases t.len(),
{
    if t.len() == 0 {
        Seq::empty()
    } else {
        emitted_u8(t.drop_last(), mask) + match t.last().edge_event(mask) {
            Some(e) => seq![e],
            None => Seq::empty(),
        }
    }
}

/// The whole table after absorbing `mask`.
pub open spec fn applied_u128(t: Seq<KeyInputU128>, mask: u128) -> Seq<KeyInputU128> {
    Seq::new(t.len(), |i: int| t[i].stepped(mask))
}

/// The events the table emits while absorbing `mask`, in table order.
pub open spec fn emitted_u128(t: Seq<KeyInputU128>, mask: u128) -> Seq<Event>
    decreases t.len(),
{
    if t.len() == 0 {
        Seq::empty()
    } else {
        emitted_u128(t.drop_last(), mask) + match t.last().edge_event(mask) {
            Some(e) => seq![e],
            None => Seq::empty(),
        }
    }
}

/// Run one frame's mask through every binding of the table, in order,
/// collecting the events of the bindings whose state changed.
pub fn apply_mask_u8(table: &mut Vec<KeyInputU8>, mask: u8) -> (events: Vec<Event>)
    ensures
        final(table)@ == applied_u8(old(table)@, mask),
        events@ == emitted_u8(old(table)@, mask),
{
    let ghost t0 = old(table)@;
    let mut events: Vec<Event> = Vec::new();
    let mut i: usize = 0;
    while i < table.len()
        invariant
            i <= table@.len(),
            table@.len() == t0.len(),
            forall|j: int| i <= j < t0.len() ==> table@[j] == t0[j],
            forall|j: int| 0 <= j < i ==> table@[j] == t0[j].stepped(mask),
            events@ == emitted_u8(t0.take(i as int), mask),
        decreases t0.len() - i,
    {
        let mut k = table[i];
        let ev = k.get_event(mask);
        table[i] = k;
        proof {
            assert(t0.take(i + 1).drop_last() =~= t0.take(i as int));
            assert(t0.take(i + 1).last() == t0[i as int]);
        }
        match ev {
            Some(e) => {
                events.push(e);
                proof {
                    assert(events@ =~= emitted_u8(t0.take(i + 1), mask));
                }
            },
            None => {
                proof {
                    assert(events@ =~= emitted_u8(t0.take(i + 1), mask));
                }
            },
        }
        i += 1;
    }
    proof {
        assert(t0.take(t0.len() as int) =~= t0);
        assert(table@ =~= applied_u8(t0, mask));
    }
    events
}

/// Run one frame's mask through every binding of the table, in order,
/// collecting the events of the bindings whose state changed.
pub fn apply_mask_u128(table: &mut Vec<KeyInputU128>, mask: u128) -> (events: Vec<Event>)
    ensures
        final(table)@ == applied_u128(old(table)@, mask),
        events@ == emitted_u128(old(table)@, mask),
{
    let ghost t0 = old(table)@;
    let mut events: Vec<Event> = Vec::new();
    let mut i: usize = 0;
    while i < table.len()
        invariant
            i <= table@.len(),
            table@.len() == t0.len(),
            forall|j: int| i <= j < t0.len() ==> table@[j] == t0[j],
            forall|j: int| 0 <= j < i ==> table@[j] == t0[j].stepped(mask),
            events@ == emitted_u128(t0.take(i as int), mask),
        decreases t0.len() - i,
    {
        let mut k = table[i];
        let ev = k.get_event(mask);
        table[i] = k;
        proof {
            assert(t0.take(i + 1).drop_last() =~= t0.take(i as int));
            assert(t0.take(i + 1).last() == t0[i as int]);
        }
        match ev {
            Some(e) => {
                events.push(e);
                proof {
                    assert(events@ =~= emitted_u128(t0.take(i + 1), mask));
                }
            },
            None => {
                proof {
                    assert(events@ =~= emitted_u128(t0.take(i + 1), mask));
                }
            },
        }
        i += 1;
    }
    proof {
        assert(t0.take(t0.len() as int) =~= t0);
        assert(table@ =~= applied_u128(t0, mask));
    }
    events
}

/// The events a table whose bindings hold the states of `m1` emits when it
/// absorbs `m2`: one event per binding whose bit differs between the masks,
/// in table order, carrying the `m2` state.
pub open spec fn emitted_between_u8(t: Seq<KeyInputU8>, m1: u8, m2: u8) -> Seq<Event>
    decreases t.len(),
{
    if t.len() == 0 {
        Seq::empty()
    } else {
        emitted_between_u8(t.drop_last(), m1, m2) + if t.last().state_for(m1) != t.last().state_for(
            m2,
        ) {
            seq![
                Event {
                    kind: EventKind::Key,
                    code: t.last().key,
                    value: t.last().state_for(m2) as i32,
                },
            ]
        } else {
            Seq::empty()
        }
    }
}

/// The events a table whose bindings hold the states of `m1` emits when it
/// absorbs `m2`: one event per binding whose bit differs between the masks,
/// in table order, carrying the `m2` state.
pub open spec fn emitted_between_u128(t: Seq<KeyInputU128>, m1: u128, m2: u128) -> Seq<Event>
    decreases t.len(),
{
    if t.len() == 0 {
        Seq::empty()
    } else {
        emitted_between_u128(t.drop_last(), m1, m2) + if t.last().state_for(m1) != t.last()
            .state_for(m2) {
            seq![
                Event {
                    kind: EventKind::Key,
                    code: t.last().key,
                    value: t.last().state_for(m2) as i32,
                },
            ]
        } else {
            Seq::empty()
        }
    }
}

/// Law: once a table has absorbed `m1`, absorbing `m2` emits exactly the
/// bindings whose boolean value differs between `m1` and `m2`, in table
/// order; bindings with unchanged bits emit nothing. This holds from any
/// starting states, a fresh table included.
pub proof fn lemma_second_mask_emits_changes_u8(t: Seq<KeyInputU8>, m1: u8, m2: u8)
    ensures
        emitted_u8(applied_u8(t, m1), m2) == emitted_between_u8(t, m1, m2),
    decreases t.len(),
{
    let a = applied_u8(t, m1);
    if t.len() == 0 {
        assert(a =~= Seq::<KeyInputU8>::empty());
    } else {
        lemma_second_mask_emits_changes_u8(t.drop_last(), m1, m2);
        assert(a.drop_last() =~= applied_u8(t.drop_last(), m1));
        assert(a.last() == t.last().stepped(m1));
        assert(emitted_u8(a, m2) =~= emitted_between_u8(t, m1, m2));
    }
}

/// Law: once a table has absorbed `m1`, absorbing `m2` emits exactly the
/// bindings whose boolean value differs between `m1` and `m2`, in table
/// order; bindings with unchanged bits emit nothing. This holds from any
/// starting states, a fresh table included.
pub proof fn lemma_second_mask_emits_changes_u128(t: Seq<KeyInputU128>, m1: u128, m2: u128)
    ensures
        emitted_u128(applied_u128(t, m1), m2) == emitted_between_u128(t, m1, m2),
    decreases t.len(),
{
    let a = applied_u128(t, m1);
    if t.len() == 0 {
        assert(a =~= Seq::<KeyInputU128>::empty());
    } else {
        lemma_second_mask_emits_changes_u128(t.drop_last(), m1, m2);
        assert(a.drop_last() =~= applied_u128(t.drop_last(), m1));
        assert(a.last() == t.last().stepped(m1));
        assert(emitted_u128(a, m2) =~= emitted_between_u128(t, m1, m2));
    }
}

/// Law: re-applying the mask a table has already absorbed emits no events.
pub proof fn lemma_same_mask_is_silent_u8(t: Seq<KeyInputU8>, m: u8)
    ensures
        emitted_u8(applied_u8(t, m), m) == Seq::<Event>::empty(),
    decreases t.len(),
{
    lemma_second_mask_emits_changes_u8(t, m, m);
    lemma_between_same_mask_empty_u8(t, m);
}

/// Law: re-applying the mask a table has already absorbed emits no events.
pub proof fn lemma_same_mask_is_silent_u128(t: Seq<KeyInputU128>, m: u128)
    ensures
        emitted_u128(applied_u128(t, m), m) == Seq::<Event>::empty(),
    decreases t.len(),
{
    lemma_second_mask_emits_changes_u128(t, m, m);
    lemma_between_same_mask_empty_u128(t, m);
}

proof fn lemma_between_same_mask_empty_u8(t: Seq<KeyInputU8>, m: u8)
    ensures
        emitted_between_u8(t, m, m) == Seq::<Event>::empty(),
    decreases t.len(),
{
    if t.len() == 0 {
    } else {
        lemma_between_same_mask_empty_u8(t.drop_last(), m);
        assert(emitted_between_u8(t, m, m) =~= Seq::<Event>::empty());
    }
}

proof fn lemma_between_same_mask_empty_u128(t: Seq<KeyInputU128>, m: u128)
    ensures
        emitted_between_u128(t, m, m) == Seq::<Event>::empty(),
    decreases t.len(),
{
    if t.len() == 0 {
    } else {
        lemma_between_same_mask_empty_u128(t.drop_last(), m);
        assert(emitted_between_u128(t, m, m) =~= Seq::<Event>::empty());
    }
}

} // verus!
