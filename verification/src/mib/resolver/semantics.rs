//! Value decoding used when default values are converted: hex and binary
//! string literals to bytes, and status ordering.

use vstd::prelude::*;
use vstd::string::StringSliceAdditionalSpecFns;

use crate::mib::resolver::rules::{is_bare_index_type, spec_is_bare_index_type};
use crate::num::hex_digit_value;
use crate::types::Status;

verus! {

/// The hex digit bytes of `b`, in order.
pub open spec fn hex_digits(b: Seq<u8>) -> Seq<u8> {
    b.filter(|x: u8| hex_digit_value(x) is Some)
}

/// The value of a hex digit byte (0 for any other byte).
pub open spec fn nibble(x: u8) -> int {
    match hex_digit_value(x) {
        Some(v) => v as int,
        None => 0,
    }
}

/// Pair up an even-length digit sequence into bytes, high digit first.
pub open spec fn hex_pairs(d: Seq<u8>) -> Seq<u8> {
    Seq::new(d.len() / 2, |i: int| (nibble(d[2 * i]) * 16 + nibble(d[2 * i + 1])) as u8)
}

/// The bytes a hex string denotes: its hex digits, with a `0` prepended
/// when their count is odd, read two at a time.
pub open spec fn spec_hex_decode(b: Seq<u8>) -> Seq<u8> {
    let d = hex_digits(b);
    hex_pairs(
        if d.len() % 2 == 1 {
            seq![0x30u8] + d
        } else {
            d
        },
    )
}

/// Return the value of a hex digit byte, either case.
pub fn hex_nibble(digit: u8) -> (r: Option<u8>)
    ensures
        match hex_digit_value(digit) {
            Some(v) => r == Some(v as u8),
            None => r is None,
        },
{
    if 0x30 <= digit && digit <= 0x39 {
        Some(digit - 0x30)
    } else if 0x61 <= digit && digit <= 0x66 {
        Some(digit - 0x61 + 10)
    } else if 0x41 <= digit && digit <= 0x46 {
        Some(digit - 0x41 + 10)
    } else {
        None
    }
}

/// Keep the bytes that are hex digits.
fn keep_hex_digits(s: &[u8]) -> (r: Vec<u8>)
    ensures
        r@ == hex_digits(s@),
{
    let mut out: Vec<u8> = Vec::new();
    let mut i: usize = 0;
    while i < s.len()
        invariant
            0 <= i <= s@.len(),
            out@ == hex_digits(s@.subrange(0, i as int)),
        decreases s@.len() - i,
    {
        proof {
            reveal(Seq::filter);
            assert(s@.subrange(0, i as int + 1).drop_last() =~= s@.subrange(0, i as int));
        }
        if hex_nibble(s[i]).is_some() {
            out.push(s[i]);
        }
        i = i + 1;
    }
    assert(s@.subrange(0, s@.len() as int) =~= s@);
    out
}

/// Decode a hex string literal to bytes.
///
/// Every character other than a hex digit (quotes, the `H` suffix,
/// whitespace) is ignored; an odd number of digits is padded with a
/// leading zero.
pub fn hex_decode(s: &str) -> (r: Vec<u8>)
    ensures
        r@ == spec_hex_decode(s.spec_bytes()),
{
    let digits = keep_hex_digits(s.as_bytes());
    let mut clean: Vec<u8> = Vec::new();
    if digits.len() % 2 == 1 {
        clean.push(0x30);
    }
    let ghost prefix = clean@;
    let mut i: usize = 0;
    while i < digits.len()
        invariant
            0 <= i <= digits@.len(),
            clean@ == prefix + digits@.subrange(0, i as int),
            prefix.len() <= 1,
        decreases digits@.len() - i,
    {
        clean.push(digits[i]);
        i = i + 1;
        assert(clean@ =~= prefix + digits@.subrange(0, i as int));
    }
    assert(digits@.subrange(0, digits@.len() as int) =~= digits@);
    let ghost d = clean@;
    assert(d =~= if hex_digits(s.spec_bytes()).len() % 2 == 1 {
        seq![0x30u8] + hex_digits(s.spec_bytes())
    } else {
        hex_digits(s.spec_bytes())
    });
    assert(d.len() % 2 == 0);
    let mut bytes: Vec<u8> = Vec::new();
    let mut k: usize = 0;
    while k < clean.len() / 2
        invariant
            clean@ == d,
            d.len() % 2 == 0,
            0 <= k <= d.len() / 2,
            bytes@ =~= hex_pairs(d).subrange(0, k as int),
        decreases d.len() / 2 - k,
    {
        let hi = match hex_nibble(clean[2 * k]) {
            Some(v) => v,
            None => 0,
        };
        let lo = match hex_nibble(clean[2 * k + 1]) {
            Some(v) => v,
            None => 0,
        };
        assert(hi < 16 && lo < 16);
        let byte = hi * 16 + lo;
        bytes.push(byte);
        proof {
            assert(hex_pairs(d)[k as int] == byte);
            assert(bytes@ =~= hex_pairs(d).subrange(0, k + 1));
        }
        k = k + 1;
    }
    assert(hex_pairs(d).subrange(0, (d.len() / 2) as int) =~= hex_pairs(d));
    bytes
}

/// The binary digits (`0` and `1`) of `b`, in order.
pub open spec fn bin_digits(b: Seq<u8>) -> Seq<u8> {
    b.filter(|x: u8| x == 0x30 || x == 0x31)
}

/// The binary digits padded with zeros to a whole number of bytes: on the
/// right when `right_pad`, else on the left.
pub open spec fn bin_padded(d: Seq<u8>, right_pad: bool) -> Seq<u8> {
    let pad = if d.len() % 8 == 0 {
        0int
    } else {
        8 - d.len() % 8
    };
    let zeros = Seq::new(pad as nat, |i: int| 0x30u8);
    if right_pad {
        d + zeros
    } else {
        zeros + d
    }
}

/// The number that a sequence of binary digit bytes denotes.
pub open spec fn bits_value(s: Seq<u8>) -> nat
    decreases s.len(),
{
    if s.len() == 0 {
        0
    } else {
        bits_value(s.drop_last()) * 2 + if s.last() == 0x31 {
            1nat
        } else {
            0nat
        }
    }
}

/// The bytes a binary string denotes: its binary digits padded to whole
/// bytes, read eight at a time, most significant bit first.
pub open spec fn spec_binary_decode(b: Seq<u8>, right_pad: bool) -> Seq<u8> {
    let p = bin_padded(bin_digits(b), right_pad);
    Seq::new(p.len() / 8, |i: int| bits_value(p.subrange(8 * i, 8 * i + 8)) as u8)
}

/// Keep the bytes that are binary digits.
fn keep_bin_digits(s: &[u8]) -> (r: Vec<u8>)
    ensures
        r@ == bin_digits(s@),
{
    let mut out: Vec<u8> = Vec::new();
    let mut i: usize = 0;
    while i < s.len()
        invariant
            0 <= i <= s@.len(),
            out@ == bin_digits(s@.subrange(0, i as int)),
        decreases s@.len() - i,
    {
        proof {
            reveal(Seq::filter);
            assert(s@.subrange(0, i as int + 1).drop_last() =~= s@.subrange(0, i as int));
        }
        if s[i] == 0x30 || s[i] == 0x31 {
            out.push(s[i]);
        }
        i = i + 1;
    }
    assert(s@.subrange(0, s@.len() as int) =~= s@);
    out
}

proof fn lemma_bits_step(s: Seq<u8>, j: int)
    requires
        0 <= j < s.len(),
    ensures
        bits_value(s.subrange(0, j + 1)) == bits_value(s.subrange(0, j)) * 2 + if s[j] == 0x31 {
            1nat
        } else {
            0nat
        },
{
    assert(s.subrange(0, j + 1).drop_last() =~= s.subrange(0, j));
}

/// Two to the power `n`.
pub open spec fn two_pow(n: nat) -> nat
    decreases n,
{
    if n == 0 {
        1
    } else {
        2 * two_pow((n - 1) as nat)
    }
}

proof fn lemma_bits_bound(s: Seq<u8>)
    ensures
        bits_value(s) < two_pow(s.len()),
    decreases s.len(),
{
    if s.len() > 0 {
        lemma_bits_bound(s.drop_last());
    }
}

proof fn lemma_two_pow_le_256(n: nat)
    requires
        n <= 8,
    ensures
        0 < two_pow(n) <= 256,
    decreases 8 - n,
{
    if n < 8 {
        lemma_two_pow_le_256(n + 1);
    } else {
        reveal_with_fuel(two_pow, 9);
    }
}

/// Read eight binary digit bytes as a byte.
fn bits_byte(p: &Vec<u8>, start: usize) -> (r: u8)
    requires
        start + 8 <= p@.len(),
    ensures
        r == bits_value(p@.subrange(start as int, start + 8)),
{
    let ghost chunk = p@.subrange(start as int, start + 8);
    let plen = p.len();
    let mut v: u32 = 0;
    let mut j: usize = 0;
    while j < 8
        invariant
            start + 8 <= p@.len(),
            plen == p@.len(),
            chunk == p@.subrange(start as int, start + 8),
            0 <= j <= 8,
            v == bits_value(chunk.subrange(0, j as int)),
            v < 256,
        decreases 8 - j,
    {
        proof {
            lemma_bits_step(chunk, j as int);
            lemma_bits_bound(chunk.subrange(0, j + 1));
            lemma_two_pow_le_256((j + 1) as nat);
        }
        assert(start + j < plen);
        let idx = start + j;
        let bit: u32 = if p[idx] == 0x31 {
            1
        } else {
            0
        };
        v = v * 2 + bit;
        j = j + 1;
    }
    assert(chunk.subrange(0, 8) =~= chunk);
    v as u8
}

/// Decode a binary string literal to bytes.
///
/// Only `0` and `1` characters count; the digits are padded with zeros to
/// a whole number of bytes, on the right when `right_pad` is set and on
/// the left otherwise. A literal with no binary digits decodes to nothing.
pub fn binary_decode(s: &str, right_pad: bool) -> (r: Vec<u8>)
    ensures
        r@ == spec_binary_decode(s.spec_bytes(), right_pad),
{
    let clean = keep_bin_digits(s.as_bytes());
    if clean.len() == 0 {
        proof {
            let p = bin_padded(bin_digits(s.spec_bytes()), right_pad);
            assert(p.len() == 0);
            assert(spec_binary_decode(s.spec_bytes(), right_pad) =~= Seq::<u8>::empty());
        }
        return Vec::new();
    }
    let n = clean.len();
    let pad: usize = if n % 8 == 0 {
        0
    } else {
        8 - n % 8
    };
    let mut padded: Vec<u8> = Vec::new();
    if !right_pad {
        let mut z: usize = 0;
        while z < pad
            invariant
                0 <= z <= pad,
                pad < 8,
                padded@ == Seq::new(z as nat, |i: int| 0x30u8),
            decreases pad - z,
        {
            padded.push(0x30);
            z = z + 1;
            assert(padded@ =~= Seq::new(z as nat, |i: int| 0x30u8));
        }
    }
    let ghost head = padded@;
    let mut i: usize = 0;
    while i < n
        invariant
            n == clean@.len(),
            0 <= i <= n,
            padded@ == head + clean@.subrange(0, i as int),
            head.len() < 8,
        decreases n - i,
    {
        padded.push(clean[i]);
        i = i + 1;
        assert(padded@ =~= head + clean@.subrange(0, i as int));
    }
    assert(clean@.subrange(0, n as int) =~= clean@);
    if right_pad {
        let ghost body = padded@;
        let mut z: usize = 0;
        while z < pad
            invariant
                0 <= z <= pad,
                pad < 8,
                padded@ == body + Seq::new(z as nat, |i: int| 0x30u8),
                body.len() == n,
            decreases pad - z,
        {
            padded.push(0x30);
            z = z + 1;
            assert(padded@ =~= body + Seq::new(z as nat, |i: int| 0x30u8));
        }
    }
    let ghost p = padded@;
    assert(p =~= bin_padded(bin_digits(s.spec_bytes()), right_pad));
    assert(p.len() % 8 == 0);
    let mut bytes: Vec<u8> = Vec::new();
    let mut k: usize = 0;
    while k < padded.len() / 8
        invariant
            padded@ == p,
            p.len() % 8 == 0,
            0 <= k <= p.len() / 8,
            bytes@ =~= Seq::new(k as nat, |i: int| bits_value(p.subrange(8 * i, 8 * i + 8)) as u8),
        decreases p.len() / 8 - k,
    {
        let byte = bits_byte(&padded, 8 * k);
        bytes.push(byte);
        k = k + 1;
    }
    bytes
}

/// The rank of a status for ordering: current, deprecated, obsolete (the
/// SMIv1 statuses rank with current).
pub open spec fn spec_status_ord(status: Status) -> u8 {
    match status {
        Status::Current => 0,
        Status::Deprecated => 1,
        Status::Obsolete => 2,
        _ => 0,
    }
}

/// Return the rank of a status for ordering.
pub fn status_ord(status: Status) -> (r: u8)
    ensures
        r == spec_status_ord(status),
{
    match status {
        Status::Current => 0,
        Status::Deprecated => 1,
        Status::Obsolete => 2,
        _ => 0,
    }
}

/// Return whether an INDEX item names a bare base type rather than an object.
pub fn is_bare_type_index(name: &str) -> (r: bool)
    ensures
        r == spec_is_bare_index_type(name@),
{
    is_bare_index_type(name)
}

} // verus!
