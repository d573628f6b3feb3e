//! Shared utility functions for the resolver.
//!
//! Provides [`language_rank`] for SMI version preference ordering and
//! [`normalize_timestamp`] for LAST-UPDATED timestamp comparison. Both
//! are used to select the preferred module when multiple modules define
//! the same symbol or OID.

use vstd::prelude::*;
use vstd::string::StringSliceAdditionalSpecFns;

use crate::text::{ascii_chars, string_from_ascii};
use crate::types::Language;

verus! {

/// Return a numeric rank for SMI language version.
///
/// Higher values are preferred when multiple modules define the same OID.
/// SMIv2 (rank 2) takes precedence over SMIv1 and SPPI (rank 1).
pub fn language_rank(lang: Language) -> (r: u8)
    ensures
        r == match lang {
            Language::SMIv2 => 2u8,
            Language::SMIv1 => 1u8,
            Language::SPPI => 1u8,
            Language::Unknown => 0u8,
        },
{
    match lang {
        Language::SMIv2 => 2,
        Language::SMIv1 => 1,
        Language::SPPI => 1,
        Language::Unknown => 0,
    }
}

pub open spec fn is_ascii_digit(b: u8) -> bool {
    0x30 <= b <= 0x39
}

/// The value of the digit byte at `i`.
pub open spec fn digit_at(b: Seq<u8>, i: int) -> int {
    b[i] - 0x30
}

/// The number of days in a month of the Gregorian calendar (0 for a month
/// number outside 1..=12).
pub open spec fn spec_days_in_month(year: int, month: int) -> int {
    if month == 1 || month == 3 || month == 5 || month == 7 || month == 8 || month == 10 || month
        == 12 {
        31
    } else if month == 4 || month == 6 || month == 9 || month == 11 {
        30
    } else if month == 2 {
        if (year % 4 == 0 && year % 100 != 0) || year % 400 == 0 {
            29
        } else {
            28
        }
    } else {
        0
    }
}

/// The bytes are `YYMMDDHHmmZ` or `YYYYMMDDHHmmZ`: digits and a final `Z`.
pub open spec fn timestamp_shape(b: Seq<u8>) -> bool {
    &&& (b.len() == 11 || b.len() == 13)
    &&& b.last() == 0x5a
    &&& forall|i: int| 0 <= i < b.len() - 1 ==> #[trigger] is_ascii_digit(b[i])
}

/// The four-digit year of a well-shaped timestamp: two-digit years from 70
/// on are in the 1900s, earlier ones in the 2000s.
pub open spec fn timestamp_year(b: Seq<u8>) -> int {
    if b.len() == 11 {
        let y = digit_at(b, 0) * 10 + digit_at(b, 1);
        if y >= 70 {
            1900 + y
        } else {
            2000 + y
        }
    } else {
        digit_at(b, 0) * 1000 + digit_at(b, 1) * 100 + digit_at(b, 2) * 10 + digit_at(b, 3)
    }
}

/// The two-digit field starting `k` digits after the year.
pub open spec fn timestamp_field(b: Seq<u8>, k: int) -> int {
    let off = if b.len() == 11 {
        2int
    } else {
        4int
    };
    digit_at(b, off + k) * 10 + digit_at(b, off + k + 1)
}

/// A well-shaped timestamp names a real month, day, hour and minute.
pub open spec fn timestamp_valid(b: Seq<u8>) -> bool {
    let year = timestamp_year(b);
    let month = timestamp_field(b, 0);
    let day = timestamp_field(b, 2);
    let hour = timestamp_field(b, 4);
    let minute = timestamp_field(b, 6);
    &&& timestamp_shape(b)
    &&& 1 <= month <= 12
    &&& 1 <= day <= spec_days_in_month(year, month)
    &&& hour <= 23
    &&& minute <= 59
}

/// The 13-byte form of a valid timestamp, and nothing for an invalid one.
pub open spec fn spec_normalize_timestamp(b: Seq<u8>) -> Seq<u8> {
    if !timestamp_valid(b) {
        Seq::empty()
    } else if b.len() == 11 {
        (if timestamp_year(b) < 2000 {
            seq![0x31u8, 0x39u8]
        } else {
            seq![0x32u8, 0x30u8]
        }) + b
    } else {
        b
    }
}

/// Return the number of days in a month.
fn days_in_month(year: u32, month: u32) -> (r: u32)
    ensures
        r == spec_days_in_month(year as int, month as int),
{
    match month {
        1 | 3 | 5 | 7 | 8 | 10 | 12 => 31,
        4 | 6 | 9 | 11 => 30,
        2 => {
            if (year % 4 == 0 && year % 100 != 0) || year % 400 == 0 {
                29
            } else {
                28
            }
        },
        _ => 0,
    }
}

/// Return whether every byte but the last is an ASCII digit.
fn digits_before_last(bytes: &[u8]) -> (r: bool)
    requires
        bytes@.len() >= 1,
    ensures
        r == forall|i: int| 0 <= i < bytes@.len() - 1 ==> #[trigger] is_ascii_digit(bytes@[i]),
{
    let mut i: usize = 0;
    while i < bytes.len() - 1
        invariant
            bytes@.len() >= 1,
            0 <= i <= bytes@.len() - 1,
            forall|j: int| 0 <= j < i ==> #[trigger] is_ascii_digit(bytes@[j]),
        decreases bytes@.len() - 1 - i,
    {
        if !(0x30 <= bytes[i] && bytes[i] <= 0x39) {
            assert(!is_ascii_digit(bytes@[i as int]));
            return false;
        }
        i = i + 1;
    }
    true
}

fn digit(bytes: &[u8], i: usize) -> (r: u32)
    requires
        i < bytes@.len(),
        is_ascii_digit(bytes@[i as int]),
    ensures
        r == digit_at(bytes@, i as int),
        r <= 9,
{
    (bytes[i] - 0x30) as u32
}

/// Normalize a valid ASCII ExtUTCTime timestamp for comparison.
///
/// Expands 11-byte timestamps (YYMMDDHHmmZ) to 13-byte form
/// (YYYYMMDDHHmmZ) by prepending "19" for years >= 70 and "20" otherwise.
/// Already-expanded timestamps are returned as-is. Invalid timestamps return
/// an empty string so they do not influence module preference.
pub fn normalize_timestamp(ts: &str) -> (r: String)
    ensures
        r@ == ascii_chars(spec_normalize_timestamp(ts.spec_bytes())),
{
    let bytes = ts.as_bytes();
    let n = bytes.len();
    let shaped = (n == 11 || n == 13) && bytes[n - 1] == 0x5a && digits_before_last(bytes);
    assert(shaped == timestamp_shape(bytes@));
    if !shaped {
        proof {
            assert(spec_normalize_timestamp(bytes@) =~= Seq::<u8>::empty());
        }
        let empty: Vec<u8> = Vec::new();
        return string_from_ascii(empty.as_slice());
    }
    let (year, offset) = if n == 11 {
        let y = digit(bytes, 0) * 10 + digit(bytes, 1);
        (
            if y >= 70 {
                1900 + y
            } else {
                2000 + y
            },
            2usize,
        )
    } else {
        (digit(bytes, 0) * 1000 + digit(bytes, 1) * 100 + digit(bytes, 2) * 10 + digit(bytes, 3), 4usize)
    };
    let month = digit(bytes, offset) * 10 + digit(bytes, offset + 1);
    let day = digit(bytes, offset + 2) * 10 + digit(bytes, offset + 3);
    let hour = digit(bytes, offset + 4) * 10 + digit(bytes, offset + 5);
    let minute = digit(bytes, offset + 6) * 10 + digit(bytes, offset + 7);
    assert(year == timestamp_year(bytes@));
    assert(month == timestamp_field(bytes@, 0));
    assert(day == timestamp_field(bytes@, 2));
    assert(hour == timestamp_field(bytes@, 4));
    assert(minute == timestamp_field(bytes@, 6));
    if !(1 <= month && month <= 12) || day == 0 || day > days_in_month(year, month) || hour > 23
        || minute > 59 {
        proof {
            assert(spec_normalize_timestamp(bytes@) =~= Seq::<u8>::empty());
        }
        let empty: Vec<u8> = Vec::new();
        return string_from_ascii(empty.as_slice());
    }
    let mut out: Vec<u8> = Vec::new();
    if n == 11 {
        if year < 2000 {
            out.push(0x31);
            out.push(0x39);
        } else {
            out.push(0x32);
            out.push(0x30);
        }
    }
    let ghost prefix = out@;
    let mut i: usize = 0;
    while i < n
        invariant
            n == bytes@.len(),
            0 <= i <= n,
            out@ == prefix + bytes@.subrange(0, i as int),
        decreases n - i,
    {
        out.push(bytes[i]);
        i = i + 1;
        assert(out@ =~= prefix + bytes@.subrange(0, i as int));
    }
    assert(bytes@.subrange(0, n as int) =~= bytes@);
    assert(out@ =~= spec_normalize_timestamp(bytes@));
    assert forall|k: int| 0 <= k < out@.len() implies out@[k] < 0x80 by {
        if k >= prefix.len() {
            assert(out@[k] == bytes@[k - prefix.len()]);
            if k - prefix.len() < n - 1 {
                assert(is_ascii_digit(bytes@[k - prefix.len()]));
            }
        }
    }
    string_from_ascii(out.as_slice())
}

/// Normalizing is idempotent: a normalized timestamp is already in
/// 13-byte form (or empty) and normalizes to itself.
pub proof fn lemma_normalize_timestamp_idempotent(b: Seq<u8>)
    ensures
        spec_normalize_timestamp(spec_normalize_timestamp(b)) == spec_normalize_timestamp(b),
{
    let n = spec_normalize_timestamp(b);
    if !timestamp_valid(b) {
        assert(n.len() == 0);
        assert(!timestamp_valid(n));
        assert(spec_normalize_timestamp(n) =~= n);
    } else if b.len() == 11 {
        let prefix = if timestamp_year(b) < 2000 {
            seq![0x31u8, 0x39u8]
        } else {
            seq![0x32u8, 0x30u8]
        };
        assert(n == prefix + b);
        assert(n.len() == 13);
        assert forall|i: int| 0 <= i < n.len() - 1 implies #[trigger] is_ascii_digit(n[i]) by {
            if i >= 2 {
                assert(n[i] == b[i - 2]);
            }
        }
        assert(n.last() == b.last());
        assert(timestamp_shape(n));
        assert(n[2] == b[0] && n[3] == b[1]);
        assert(is_ascii_digit(b[0]) && is_ascii_digit(b[1]));
        let y = digit_at(b, 0) * 10 + digit_at(b, 1);
        assert(0 <= y <= 99);
        assert(digit_at(n, 2) * 10 + digit_at(n, 3) == y);
        assert(n[0] == prefix[0] && n[1] == prefix[1]);
        if y >= 70 {
            assert(timestamp_year(b) == 1900 + y);
            assert(n[0] == 0x31u8 && n[1] == 0x39u8);
            assert(digit_at(n, 0) == 1 && digit_at(n, 1) == 9);
        } else {
            assert(timestamp_year(b) == 2000 + y);
            assert(n[0] == 0x32u8 && n[1] == 0x30u8);
            assert(digit_at(n, 0) == 2 && digit_at(n, 1) == 0);
        }
        assert(timestamp_year(n) == timestamp_year(b));
        assert forall|k: int| 2 <= k < 10 implies #[trigger] n[k + 2] == b[k] by {}
        assert(timestamp_field(n, 0) == timestamp_field(b, 0));
        assert(timestamp_field(n, 2) == timestamp_field(b, 2));
        assert(timestamp_field(n, 4) == timestamp_field(b, 4));
        assert(timestamp_field(n, 6) == timestamp_field(b, 6));
        assert(timestamp_valid(n));
    }
}

/// A normalized timestamp is ASCII text.
pub proof fn lemma_normalized_timestamp_is_ascii(b: Seq<u8>)
    ensures
        crate::text::all_ascii(spec_normalize_timestamp(b)),
{
    let n = spec_normalize_timestamp(b);
    if timestamp_valid(b) {
        assert forall|i: int| 0 <= i < n.len() implies n[i] < 0x80 by {
            let off = n.len() - b.len();
            if i >= off {
                assert(n[i] == b[i - off]);
                if i - off < b.len() - 1 {
                    assert(is_ascii_digit(b[i - off]));
                }
            }
        }
    }
}

} // verus!
