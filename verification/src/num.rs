//! Reading integers written in decimal or hexadecimal digits.

use vstd::prelude::*;

verus! {

pub open spec fn is_dec_digit(b: u8) -> bool {
    0x30 <= b <= 0x39
}

/// Every byte is a decimal digit.
pub open spec fn all_dec_digits(s: Seq<u8>) -> bool {
    forall|i: int| 0 <= i < s.len() ==> #[trigger] is_dec_digit(s[i])
}

/// The number that a sequence of decimal digits denotes.
pub open spec fn dec_value(s: Seq<u8>) -> nat
    decreases s.len(),
{
    if s.len() == 0 {
        0
    } else {
        dec_value(s.drop_last()) * 10 + (s.last() - 0x30) as nat
    }
}

/// The value of a hex digit byte (either case), if it is one.
pub open spec fn hex_digit_value(b: u8) -> Option<nat> {
    if 0x30 <= b <= 0x39 {
        Some((b - 0x30) as nat)
    } else if 0x41 <= b <= 0x46 {
        Some((b - 0x41 + 10) as nat)
    } else if 0x61 <= b <= 0x66 {
        Some((b - 0x61 + 10) as nat)
    } else {
        None
    }
}

/// Every byte is a hex digit.
pub open spec fn all_hex_digits(s: Seq<u8>) -> bool {
    forall|i: int| 0 <= i < s.len() ==> (#[trigger] hex_digit_value(s[i])) is Some
}

/// The number that a sequence of hex digits denotes.
pub open spec fn hex_value(s: Seq<u8>) -> nat
    decreases s.len(),
{
    if s.len() == 0 {
        0
    } else {
        hex_value(s.drop_last()) * 16 + match hex_digit_value(s.last()) {
            Some(v) => v,
            None => 0,
        }
    }
}

proof fn lemma_dec_step(s: Seq<u8>, i: int)
    requires
        0 <= i < s.len(),
    ensures
        dec_value(s.subrange(0, i + 1)) == dec_value(s.subrange(0, i)) * 10 + (s[i] - 0x30) as nat,
{
    assert(s.subrange(0, i + 1).drop_last() =~= s.subrange(0, i));
}

proof fn lemma_hex_step(s: Seq<u8>, i: int)
    requires
        0 <= i < s.len(),
    ensures
        hex_value(s.subrange(0, i + 1)) == hex_value(s.subrange(0, i)) * 16 + match hex_digit_value(
            s[i],
        ) {
            Some(v) => v,
            None => 0,
        },
{
    assert(s.subrange(0, i + 1).drop_last() =~= s.subrange(0, i));
}

/// Read a nonempty run of decimal digits as a `u64`.
///
/// `None` when the text is empty, holds a non-digit, or exceeds `u64::MAX`.
pub fn parse_dec_u64(s: &[u8]) -> (r: Option<u64>)
    ensures
        r == (if s@.len() > 0 && all_dec_digits(s@) && dec_value(s@) <= u64::MAX {
            Some(dec_value(s@) as u64)
        } else {
            None
        }),
{
    if s.len() == 0 {
        return None;
    }
    let mut acc: u64 = 0;
    let mut i: usize = 0;
    while i < s.len()
        invariant
            0 <= i <= s@.len(),
            all_dec_digits(s@.subrange(0, i as int)),
            acc == dec_value(s@.subrange(0, i as int)),
        decreases s@.len() - i,
    {
        let b = s[i];
        if b < 0x30 || b > 0x39 {
            assert(!is_dec_digit(s@[i as int]));
            return None;
        }
        proof {
            lemma_dec_step(s@, i as int);
        }
        let d = (b - 0x30) as u64;
        if acc > (u64::MAX - d) / 10 {
            proof {
                lemma_dec_prefix_grows(s@, i as int + 1);
                assert(dec_value(s@.subrange(0, i as int + 1)) > u64::MAX) by (nonlinear_arith)
                    requires
                        acc > (u64::MAX - d) / 10,
                        d <= 9,
                        dec_value(s@.subrange(0, i as int + 1)) == acc * 10 + d,
                ;
                assert(s@.subrange(0, s@.len() as int) =~= s@);
                assert(dec_value(s@.subrange(0, s@.len() as int)) >= dec_value(s@.subrange(0, i as int + 1)));
            }
            return None;
        }
        acc = acc * 10 + d;
        i = i + 1;
        assert(all_dec_digits(s@.subrange(0, i as int))) by {
            assert forall|k: int| 0 <= k < i implies #[trigger] is_dec_digit(
                s@.subrange(0, i as int)[k],
            ) by {
                if k < i - 1 {
                    assert(s@.subrange(0, i as int)[k] == s@.subrange(0, i - 1)[k]);
                }
            }
        }
    }
    assert(s@.subrange(0, s@.len() as int) =~= s@);
    Some(acc)
}

/// A longer digit prefix denotes at least as large a number, once the
/// shorter prefix is a run of digits.
proof fn lemma_dec_prefix_grows(s: Seq<u8>, i: int)
    requires
        0 <= i <= s.len(),
    ensures
        forall|j: int| i <= j <= s.len() ==> dec_value(s.subrange(0, i)) <= #[trigger] dec_value(s.subrange(0, j)),
    decreases s.len() - i,
{
    if i < s.len() {
        lemma_dec_prefix_grows(s, i + 1);
        lemma_dec_step(s, i);
    }
}

/// The `i64` that an optionally `-`-signed run of decimal digits denotes,
/// if it is in range.
pub open spec fn parse_i64_spec(s: Seq<u8>) -> Option<i64> {
    if s.len() > 0 && s[0] == 0x2d {
        let d = s.drop_first();
        if d.len() > 0 && all_dec_digits(d) && dec_value(d) <= 9223372036854775808 {
            Some((0 - dec_value(d)) as i64)
        } else {
            None
        }
    } else if s.len() > 0 && all_dec_digits(s) && dec_value(s) <= i64::MAX {
        Some(dec_value(s) as i64)
    } else {
        None
    }
}

/// Read an optionally `-`-signed decimal number as an `i64`.
///
/// `None` when the digits are missing, malformed, or the value falls outside
/// the `i64` range.
pub fn parse_dec_i64(s: &[u8]) -> (r: Option<i64>)
    ensures
        r == parse_i64_spec(s@),
{
    if s.len() > 0 && s[0] == 0x2d {
        let rest = &s[1..s.len()];
        assert(rest@ == s@.drop_first());
        match parse_dec_u64(rest) {
            Some(v) => {
                if v <= 9223372036854775807 {
                    Some(0 - (v as i64))
                } else if v == 9223372036854775808 {
                    Some(i64::MIN)
                } else {
                    None
                }
            },
            None => {
                proof {
                    if rest@.len() > 0 && all_dec_digits(rest@) {
                        assert(dec_value(rest@) > u64::MAX);
                    }
                }
                None
            },
        }
    } else {
        match parse_dec_u64(s) {
            Some(v) => {
                if v <= 9223372036854775807 {
                    Some(v as i64)
                } else {
                    None
                }
            },
            None => None,
        }
    }
}

/// Read a run of hex digits, optionally preceded by `+`, as a `u64`, as
/// `u64::from_str_radix(s, 16)` does.
///
/// `None` when the digits are missing, malformed, or exceed `u64::MAX`.
pub fn parse_hex_u64(s: &[u8]) -> (r: Option<u64>)
    ensures
        ({
            let digits = if s@.len() > 0 && s@[0] == 0x2b {
                s@.drop_first()
            } else {
                s@
            };
            r == (if digits.len() > 0 && all_hex_digits(digits) && hex_value(digits) <= u64::MAX {
                Some(hex_value(digits) as u64)
            } else {
                None
            })
        }),
{
    let digits: &[u8] = if s.len() > 0 && s[0] == 0x2b {
        &s[1..s.len()]
    } else {
        s
    };
    assert(digits@ == (if s@.len() > 0 && s@[0] == 0x2b {
        s@.drop_first()
    } else {
        s@
    }));
    if digits.len() == 0 {
        return None;
    }
    let mut acc: u64 = 0;
    let mut i: usize = 0;
    while i < digits.len()
        invariant
            0 <= i <= digits@.len(),
            digits@.len() > 0,
            digits@ == (if s@.len() > 0 && s@[0] == 0x2b {
                s@.drop_first()
            } else {
                s@
            }),
            all_hex_digits(digits@.subrange(0, i as int)),
            acc == hex_value(digits@.subrange(0, i as int)),
        decreases digits@.len() - i,
    {
        let b = digits[i];
        let d: u64 = if 0x30 <= b && b <= 0x39 {
            (b - 0x30) as u64
        } else if 0x41 <= b && b <= 0x46 {
            (b - 0x41 + 10) as u64
        } else if 0x61 <= b && b <= 0x66 {
            (b - 0x61 + 10) as u64
        } else {
            assert(hex_digit_value(digits@[i as int]) is None);
            return None;
        };
        proof {
            lemma_hex_step(digits@, i as int);
        }
        if acc > (u64::MAX - d) / 16 {
            proof {
                lemma_hex_prefix_grows(digits@, i as int + 1);
                assert(hex_value(digits@.subrange(0, i as int + 1)) > u64::MAX) by (nonlinear_arith)
                    requires
                        acc > (u64::MAX - d) / 16,
                        d <= 15,
                        hex_value(digits@.subrange(0, i as int + 1)) == acc * 16 + d,
                ;
                assert(digits@.subrange(0, digits@.len() as int) =~= digits@);
                assert(hex_value(digits@.subrange(0, digits@.len() as int)) >= hex_value(
                    digits@.subrange(0, i as int + 1),
                ));
            }
            return None;
        }
        acc = acc * 16 + d;
        i = i + 1;
        assert(all_hex_digits(digits@.subrange(0, i as int))) by {
            assert forall|k: int| 0 <= k < i implies (#[trigger] hex_digit_value(
                digits@.subrange(0, i as int)[k],
            )) is Some by {
                if k < i - 1 {
                    assert(digits@.subrange(0, i as int)[k] == digits@.subrange(0, i - 1)[k]);
                }
            }
        }
    }
    assert(digits@.subrange(0, digits@.len() as int) =~= digits@);
    Some(acc)
}

proof fn lemma_hex_prefix_grows(s: Seq<u8>, i: int)
    requires
        0 <= i <= s.len(),
    ensures
        forall|j: int| i <= j <= s.len() ==> hex_value(s.subrange(0, i)) <= #[trigger] hex_value(s.subrange(0, j)),
    decreases s.len() - i,
{
    if i < s.len() {
        lemma_hex_prefix_grows(s, i + 1);
        lemma_hex_step(s, i);
    }
}

} // verus!
