//! The mouse frame: `dx;dy;wheel;buttons`.
//!
//! Motion fields are decimal numbers, held as fixed-point milli-units so the
//! scaled axis values are computed exactly. A missing or malformed field
//! denotes zero; the frame as a whole is never dropped.

use vstd::prelude::*;

use crate::parse::{
    all_digits, dec_val, digit_val, digits_value_sat, find_char, first_at, is_digit,
    is_uint_string, lemma_dec_val_nonneg, lemma_first_at_unique, lemma_sat_scale_add, sat_u64,
    uint_digits, uint_val,
};

verus! {

/// A signed motion amount in milli-units (thousandths).
#[derive(Debug, Clone, Copy, PartialEq, Eq, Structural)]
pub struct MilliDelta {
    pub neg: bool,
    pub milli: u64,
}

/// Sign prefix of a decimal field: whether it is negative, and the rest.
pub open spec fn signed_body(s: Seq<char>) -> (bool, Seq<char>) {
    if s.len() > 0 && (s[0] == '+' || s[0] == '-') {
        (s[0] == '-', s.drop_first())
    } else {
        (false, s)
    }
}

/// The integer and fraction digit runs of a decimal body, split at the
/// first dot; without a dot the fraction is empty.
pub open spec fn split_dot(s: Seq<char>) -> (Seq<char>, Seq<char>) {
    if exists|k: int| first_at(s, '.', k) {
        let k = choose|k: int| first_at(s, '.', k);
        (s.take(k), s.skip(k + 1))
    } else {
        (s, Seq::empty())
    }
}

/// A well-formed unsigned decimal body: digit runs around at most one dot,
/// with at least one digit somewhere.
pub open spec fn wf_decimal_body(s: Seq<char>) -> bool {
    &&& all_digits(split_dot(s).0)
    &&& all_digits(split_dot(s).1)
    &&& split_dot(s).0.len() + split_dot(s).1.len() > 0
}

/// The fraction digits as milli-units: the first three digits, padded with
/// zeros on the right; further digits are beyond milli precision.
pub open spec fn frac_milli(f: Seq<char>) -> int {
    if f.len() >= 3 {
        dec_val(f.take(3))
    } else if f.len() == 2 {
        dec_val(f) * 10
    } else if f.len() == 1 {
        dec_val(f) * 100
    } else {
        0
    }
}

/// The milli-unit magnitude of a decimal body, clamped to `u64`.
pub open spec fn body_milli(s: Seq<char>) -> int {
    sat_u64(dec_val(split_dot(s).0) * 1000 + frac_milli(split_dot(s).1))
}

/// What a motion field denotes: its decimal value in signed milli-units;
/// a malformed field denotes zero.
pub open spec fn milli_delta_of(s: Seq<char>) -> MilliDelta {
    if wf_decimal_body(signed_body(s).1) {
        MilliDelta { neg: signed_body(s).0, milli: body_milli(signed_body(s).1) as u64 }
    } else {
        MilliDelta { neg: false, milli: 0 }
    }
}

/// What a button field denotes: its value if a well-formed unsigned integer
/// that fits eight bits, else zero.
pub open spec fn button_mask_of(s: Seq<char>) -> u8 {
    if is_uint_string(s) && uint_val(s) <= 255 {
        uint_val(s) as u8
    } else {
        0u8
    }
}

/// The `n`-th `;`-separated field of a payload; empty where the payload has
/// no such field.
pub open spec fn seg(s: Seq<char>, n: int) -> Seq<char>
    decreases s.len(),
{
    if s.len() == 0 {
        Seq::empty()
    } else if s[0] == ';' {
        if n <= 0 {
            Seq::empty()
        } else {
            seg(s.drop_first(), n - 1)
        }
    } else {
        if n <= 0 {
            seq![s[0]] + seg(s.drop_first(), 0)
        } else {
            seg(s.drop_first(), n)
        }
    }
}

/// With no separator before position `k`, field 0 is the run up to `k`.
proof fn lemma_seg_prefix(s: Seq<char>, k: int)
    requires
        0 <= k <= s.len(),
        forall|j: int| 0 <= j < k ==> s[j] != ';',
        k == s.len() || s[k] == ';',
    ensures
        seg(s, 0) == s.take(k),
    decreases k,
{
    if k == 0 {
        assert(s.take(0) =~= Seq::<char>::empty());
    } else {
        lemma_seg_prefix(s.drop_first(), k - 1);
        assert(seq![s[0]] + s.drop_first().take(k - 1) =~= s.take(k));
    }
}

/// Fields beyond the first separator are fields of what follows it.
proof fn lemma_seg_next(s: Seq<char>, k: int, n: int)
    requires
        first_at(s, ';', k),
        n >= 1,
    ensures
        seg(s, n) == seg(s.skip(k + 1), n - 1),
    decreases k,
{
    if k == 0 {
        assert(s.drop_first() =~= s.skip(1));
    } else {
        lemma_seg_next(s.drop_first(), k - 1, n);
        assert(s.drop_first().skip(k) =~= s.skip(k + 1));
    }
}

/// Without a separator there is no field past the first.
proof fn lemma_seg_absent(s: Seq<char>, n: int)
    requires
        forall|j: int| 0 <= j < s.len() ==> s[j] != ';',
        n >= 1,
    ensures
        seg(s, n) == Seq::<char>::empty(),
    decreases s.len(),
{
    if s.len() > 0 {
        lemma_seg_absent(s.drop_first(), n);
    }
}

/// Read the fraction digits of `s[from..to]` as milli-units: `Some` exactly
/// when the range is all digits.
fn frac_value(s: &str, from: usize, to: usize) -> (r: Option<u64>)
    requires
        from <= to <= s@.len(),
    ensures
        r is Some <==> all_digits(s@.subrange(from as int, to as int)),
        r matches Some(v) ==> v == frac_milli(s@.subrange(from as int, to as int)) && v <= 999,
{
    let ghost f = s@.subrange(from as int, to as int);
    match digits_value_sat(s, from, to) {
        None => None,
        Some(_) => {
            let n = to - from;
            proof {
                assert(all_digits(f));
                assert(f.take(0) =~= Seq::<char>::empty());
                assert(dec_val(Seq::<char>::empty()) == 0);
                if n >= 1 {
                    assert(f.take(1).drop_last() =~= f.take(0));
                    assert(f.take(1).last() == f[0]);
                    assert(f[0] == s@[from as int]);
                    assert(is_digit(f[0]));
                    assert(dec_val(f.take(1)) == digit_val(f[0]));
                }
                if n >= 2 {
                    assert(f.take(2).drop_last() =~= f.take(1));
                    assert(f.take(2).last() == f[1]);
                    assert(f[1] == s@[from + 1]);
                    assert(is_digit(f[1]));
                    assert(dec_val(f.take(2)) == digit_val(f[0]) * 10 + digit_val(f[1]));
                }
                if n >= 3 {
                    assert(f.take(3).drop_last() =~= f.take(2));
                    assert(f.take(3).last() == f[2]);
                    assert(f[2] == s@[from + 2]);
                    assert(is_digit(f[2]));
                    assert(dec_val(f.take(3)) == digit_val(f[0]) * 100 + digit_val(f[1]) * 10
                        + digit_val(f[2]));
                }
                if n == 1 {
                    assert(f.take(1) =~= f);
                }
                if n == 2 {
                    assert(f.take(2) =~= f);
                }
            }
            if n == 0 {
                Some(0)
            } else {
                let d0: u64 = (s.get_char(from) as u32 - 48) as u64;
                if n == 1 {
                    Some(d0 * 100)
                } else {
                    let d1: u64 = (s.get_char(from + 1) as u32 - 48) as u64;
                    if n == 2 {
                        Some(d0 * 100 + d1 * 10)
                    } else {
                        let d2: u64 = (s.get_char(from + 2) as u32 - 48) as u64;
                        Some(d0 * 100 + d1 * 10 + d2)
                    }
                }
            }
        },
    }
}

/// Parse a motion field of the payload, exactly as `milli_delta_of` reads it.
pub fn parse_milli_range(s: &str, from: usize, to: usize) -> (r: MilliDelta)
    requires
        from <= to <= s@.len(),
    ensures
        r == milli_delta_of(s@.subrange(from as int, to as int)),
{
    let ghost field = s@.subrange(from as int, to as int);
    let zero = MilliDelta { neg: false, milli: 0 };
    let mut neg = false;
    let mut idx = from;
    if from < to {
        let c0 = s.get_char(from);
        if c0 == '-' {
            neg = true;
            idx = from + 1;
        } else if c0 == '+' {
            idx = from + 1;
        }
    }
    let ghost body = signed_body(field).1;
    proof {
        assert(neg == signed_body(field).0);
        assert(body =~= s@.subrange(idx as int, to as int));
    }
    let dot = find_char(s, idx, to, '.');
    match dot {
        None => {
            proof {
                if exists|k: int| first_at(body, '.', k) {
                    let k = choose|k: int| first_at(body, '.', k);
                    assert(s@[idx + k] == '.');
                }
                assert(split_dot(body) == (body, Seq::<char>::empty()));
            }
            if idx == to {
                proof {
                    assert(!wf_decimal_body(body));
                }
                return zero;
            }
            match digits_value_sat(s, idx, to) {
                None => {
                    proof {
                        assert(!wf_decimal_body(body));
                    }
                    zero
                },
                Some(acc) => {
                    proof {
                        assert(wf_decimal_body(body));
                        lemma_dec_val_nonneg(body);
                        lemma_sat_scale_add(dec_val(body), 0);
                    }
                    let wide: u128 = acc as u128 * 1000;
                    let m: u64 = if wide > u64::MAX as u128 {
                        u64::MAX
                    } else {
                        wide as u64
                    };
                    MilliDelta { neg, milli: m }
                },
            }
        },
        Some(dj) => {
            let ghost kd = dj - idx;
            proof {
                assert(first_at(body, '.', kd));
                if exists|k: int| first_at(body, '.', k) {
                    let k = choose|k: int| first_at(body, '.', k);
                    lemma_first_at_unique(body, '.', k, kd);
                }
                assert(split_dot(body).0 =~= s@.subrange(idx as int, dj as int));
                assert(split_dot(body).1 =~= s@.subrange(dj + 1, to as int));
            }
            if idx == dj && dj + 1 == to {
                proof {
                    assert(!wf_decimal_body(body));
                }
                return zero;
            }
            match digits_value_sat(s, idx, dj) {
                None => {
                    proof {
                        assert(!wf_decimal_body(body));
                    }
                    zero
                },
                Some(acc) => {
                    match frac_value(s, dj + 1, to) {
                        None => {
                            proof {
                                assert(!wf_decimal_body(body));
                            }
                            zero
                        },
                        Some(fm) => {
                            proof {
                                assert(wf_decimal_body(body));
                                lemma_dec_val_nonneg(split_dot(body).0);
                                lemma_sat_scale_add(dec_val(split_dot(body).0), fm as int);
                            }
                            let wide: u128 = acc as u128 * 1000 + fm as u128;
                            let m: u64 = if wide > u64::MAX as u128 {
                                u64::MAX
                            } else {
                                wide as u64
                            };
                            MilliDelta { neg, milli: m }
                        },
                    }
                },
            }
        },
    }
}

/// Parse a button field of the payload, exactly as `button_mask_of` reads it.
pub fn parse_button_range(s: &str, from: usize, to: usize) -> (r: u8)
    requires
        from <= to <= s@.len(),
    ensures
        r == button_mask_of(s@.subrange(from as int, to as int)),
{
    let ghost field = s@.subrange(from as int, to as int);
    let mut idx = from;
    if from < to && s.get_char(from) == '+' {
        idx = from + 1;
    }
    proof {
        assert(uint_digits(field) =~= s@.subrange(idx as int, to as int));
    }
    if idx == to {
        return 0;
    }
    match digits_value_sat(s, idx, to) {
        None => 0,
        Some(v) => {
            proof {
                lemma_dec_val_nonneg(uint_digits(field));
            }
            if v <= 255 {
                v as u8
            } else {
                0
            }
        },
    }
}

/// One mouse frame: signed motion deltas in milli-units, and the button
/// bitmask.
#[derive(Debug, Clone, Copy, PartialEq, Eq, Structural)]
pub struct MouseData {
    pub delta_x: MilliDelta,
    pub delta_y: MilliDelta,
    pub delta_wheel: MilliDelta,
    pub button_state: u8,
}

/// What a whole payload denotes: its four fields, each read as above.
pub open spec fn mouse_data_of(s: Seq<char>) -> MouseData {
    MouseData {
        delta_x: milli_delta_of(seg(s, 0)),
        delta_y: milli_delta_of(seg(s, 1)),
        delta_wheel: milli_delta_of(seg(s, 2)),
        button_state: button_mask_of(seg(s, 3)),
    }
}

impl MouseData {
    /// Decode a `dx;dy;wheel;buttons` payload. Any field may be missing or
    /// malformed; such a field reads as zero.
    #[verifier::rlimit(100)]
    pub fn new(data_string: String) -> (r: Self)
        ensures
            r == mouse_data_of(data_string@),
    {
        let s = data_string.as_str();
        let len = s.unicode_len();
        let ghost w = s@;

        // Field 0.
        let p1 = find_char(s, 0, len, ';');
        let e0 = match p1 {
            Some(k) => k,
            None => len,
        };
        proof {
            assert(w.skip(0) =~= w);
            lemma_seg_prefix(w, e0 as int);
            assert(seg(w, 0) =~= w.subrange(0, e0 as int));
        }
        let dx = parse_milli_range(s, 0, e0);

        match p1 {
            None => {
                proof {
                    lemma_seg_absent(w, 1);
                    lemma_seg_absent(w, 2);
                    lemma_seg_absent(w, 3);
                    assert(w.subrange(len as int, len as int) =~= Seq::<char>::empty());
                }
                let dy = parse_milli_range(s, len, len);
                let dw = parse_milli_range(s, len, len);
                let bm = parse_button_range(s, len, len);
                MouseData { delta_x: dx, delta_y: dy, delta_wheel: dw, button_state: bm }
            },
            Some(k1) => {
                // Field 1 lives in the tail after the first separator.
                let s1 = k1 + 1;
                let ghost t1 = w.skip(s1 as int);
                proof {
                    lemma_seg_next(w, k1 as int, 1);
                    lemma_seg_next(w, k1 as int, 2);
                    lemma_seg_next(w, k1 as int, 3);
                }
                let p2 = find_char(s, s1, len, ';');
                let e1 = match p2 {
                    Some(k) => k,
                    None => len,
                };
                proof {
                    lemma_seg_prefix(t1, e1 - s1);
                    assert(seg(t1, 0) =~= w.subrange(s1 as int, e1 as int));
                }
                let dy = parse_milli_range(s, s1, e1);

                match p2 {
                    None => {
                        proof {
                            lemma_seg_absent(t1, 1);
                            lemma_seg_absent(t1, 2);
                            assert(w.subrange(len as int, len as int) =~= Seq::<char>::empty());
                        }
                        let dw = parse_milli_range(s, len, len);
                        let bm = parse_button_range(s, len, len);
                        MouseData { delta_x: dx, delta_y: dy, delta_wheel: dw, button_state: bm }
                    },
                    Some(k2) => {
                        let s2 = k2 + 1;
                        let ghost t2 = w.skip(s2 as int);
                        proof {
                            assert(first_at(t1, ';', k2 - s1));
                            lemma_seg_next(t1, k2 - s1, 1);
                            lemma_seg_next(t1, k2 - s1, 2);
                            assert(t1.skip(k2 - s1 + 1) =~= t2);
                        }
                        let p3 = find_char(s, s2, len, ';');
                        let e2 = match p3 {
                            Some(k) => k,
                            None => len,
                        };
                        proof {
                            lemma_seg_prefix(t2, e2 - s2);
                            assert(seg(t2, 0) =~= w.subrange(s2 as int, e2 as int));
                        }
                        let dw = parse_milli_range(s, s2, e2);

                        match p3 {
                            None => {
                                proof {
                                    lemma_seg_absent(t2, 1);
                                    assert(w.subrange(len as int, len as int)
                                        =~= Seq::<char>::empty());
                                }
                                let bm = parse_button_range(s, len, len);
                                MouseData {
                                    delta_x: dx,
                                    delta_y: dy,
                                    delta_wheel: dw,
                                    button_state: bm,
                                }
                            },
                            Some(k3) => {
                                let s3 = k3 + 1;
                                let ghost t3 = w.skip(s3 as int);
                                proof {
                                    assert(first_at(t2, ';', k3 - s2));
                                    lemma_seg_next(t2, k3 - s2, 1);
                                    assert(t2.skip(k3 - s2 + 1) =~= t3);
                                }
                                let p4 = find_char(s, s3, len, ';');
                                let e3 = match p4 {
                                    Some(k) => k,
                                    None => len,
                                };
                                proof {
                                    lemma_seg_prefix(t3, e3 - s3);
                                    assert(seg(t3, 0) =~= w.subrange(s3 as int, e3 as int));
                                }
                                let bm = parse_button_range(s, s3, e3);
                                MouseData {
                                    delta_x: dx,
                                    delta_y: dy,
                                    delta_wheel: dw,
                                    button_state: bm,
                                }
                            },
                        }
                    },
                }
            },
        }
    }
}

} // verus!
