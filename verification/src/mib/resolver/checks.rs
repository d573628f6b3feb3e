//! Rules used by the semantic checks: DISPLAY-HINT syntax, legal INDEX
//! base types, base-type value bounds, SEQUENCE field type compatibility,
//! and notifications exempt from reversibility checks.

use vstd::prelude::*;
use vstd::string::StringSliceAdditionalSpecFns;

use crate::mib::resolver::types::{base_type_from_name, spec_base_type_from_name};
use crate::mib::types::{DefVal, DefValValue};
use crate::num::{dec_value, is_dec_digit};
use crate::text::str_equal;
use crate::types::BaseType;

verus! {

/// The base type a type name stands for in diagnostics, unless unknown.
pub open spec fn spec_diagnostic_base_from_name(name: Seq<char>) -> Option<BaseType> {
    if spec_base_type_from_name(name) == BaseType::Unknown {
        None
    } else {
        Some(spec_base_type_from_name(name))
    }
}

/// Return the base type named by a type name, or `None` when the name is
/// not a well-known type.
pub fn diagnostic_base_from_name(name: &str) -> (r: Option<BaseType>)
    ensures
        r == spec_diagnostic_base_from_name(name@),
{
    match base_type_from_name(name) {
        BaseType::Unknown => None,
        b => Some(b),
    }
}

/// The value paired with the first label equal to `label` at or after
/// position `i` of a (value, label) table.
pub open spec fn value_labelled_from(table: Seq<(i64, &str)>, label: Seq<char>, i: int) -> Option<i64>
    decreases table.len() - i,
{
    if i < 0 || i >= table.len() {
        None
    } else if table[i].1@ == label {
        Some(table[i].0)
    } else {
        value_labelled_from(table, label, i + 1)
    }
}

/// The integer a default value stands for: a signed value, an unsigned one
/// that fits in `i64`, or the value a (value, label) table gives its label.
pub open spec fn spec_defval_as_i64(v: DefValValue, table: Seq<(i64, &str)>) -> Option<i64> {
    match v {
        DefValValue::Int(x) => Some(x),
        DefValValue::Uint(x) => if x <= i64::MAX {
            Some(x as i64)
        } else {
            None
        },
        DefValValue::Enum(label) => value_labelled_from(table, label@, 0),
        _ => None,
    }
}

/// Return the integer a default value stands for, reading enumeration
/// labels through a (value, label) table.
pub fn defval_as_i64(dv: &DefVal, label_values: &[(i64, &str)]) -> (r: Option<i64>)
    ensures
        r == spec_defval_as_i64(dv.spec_value(), label_values@),
{
    match dv.value() {
        DefValValue::Int(v) => Some(*v),
        DefValValue::Uint(v) => if *v <= i64::MAX as u64 {
            Some(*v as i64)
        } else {
            None
        },
        DefValValue::Enum(label) => {
            let mut i: usize = 0;
            while i < label_values.len()
                invariant
                    i <= label_values@.len(),
                    dv.spec_value() matches DefValValue::Enum(l) && l@ == label@,
                    value_labelled_from(label_values@, label@, 0) == value_labelled_from(
                        label_values@,
                        label@,
                        i as int,
                    ),
                decreases label_values@.len() - i,
            {
                let (value, name) = label_values[i];
                if str_equal(name, label.as_str()) {
                    assert(label_values@[i as int].1@ == label@);
                    assert(value_labelled_from(label_values@, label@, i as int) == Some(value));
                    return Some(value);
                }
                i = i + 1;
            }
            None
        },
        _ => None,
    }
}

/// Notifications defined with OIDs that predate the reversibility rule.
pub open spec fn spec_is_exempt_notification(module_name: Seq<char>, notif_name: Seq<char>) -> bool {
    if module_name == "SNMPv2-MIB"@ {
        notif_name == "coldStart"@ || notif_name == "warmStart"@ || notif_name
            == "authenticationFailure"@
    } else if module_name == "IF-MIB"@ {
        notif_name == "linkDown"@ || notif_name == "linkUp"@
    } else {
        false
    }
}

/// Return whether the notification is exempt from the reversibility check.
pub fn is_exempt_notification(module_name: &str, notif_name: &str) -> (r: bool)
    ensures
        r == spec_is_exempt_notification(module_name@, notif_name@),
{
    if str_equal(module_name, "SNMPv2-MIB") {
        str_equal(notif_name, "coldStart") || str_equal(notif_name, "warmStart") || str_equal(
            notif_name,
            "authenticationFailure",
        )
    } else if str_equal(module_name, "IF-MIB") {
        str_equal(notif_name, "linkDown") || str_equal(notif_name, "linkUp")
    } else {
        false
    }
}

/// The SMIv2 spelling of an SMIv1 type name.
pub open spec fn spec_normalize_type_name(name: Seq<char>) -> Seq<char> {
    if name == "Counter"@ {
        "Counter32"@
    } else if name == "Gauge"@ {
        "Gauge32"@
    } else if name == "INTEGER"@ {
        "Integer32"@
    } else if name == "NetworkAddress"@ {
        "IpAddress"@
    } else {
        name
    }
}

/// Return the SMIv2 spelling of an SMIv1 type name.
pub fn normalize_type_name(name: &str) -> (r: &str)
    ensures
        r@ == spec_normalize_type_name(name@),
{
    if str_equal(name, "Counter") {
        "Counter32"
    } else if str_equal(name, "Gauge") {
        "Gauge32"
    } else if str_equal(name, "INTEGER") {
        "Integer32"
    } else if str_equal(name, "NetworkAddress") {
        "IpAddress"
    } else {
        name
    }
}

/// A SEQUENCE field's type agrees with its column's type: the same name,
/// the same name once normalized, an integer field for an Integer32-based
/// column, or an OCTET STRING or BITS field for a BITS-based column.
pub open spec fn spec_sequence_types_compatible(
    field_type: Seq<char>,
    col_type: Seq<char>,
    col_base: BaseType,
) -> bool {
    ||| field_type == col_type
    ||| spec_normalize_type_name(field_type) == spec_normalize_type_name(col_type)
    ||| (spec_normalize_type_name(field_type) == "Integer32"@ && col_base == BaseType::Integer32)
    ||| ((field_type == "OCTET STRING"@ || field_type == "BITS"@) && col_base == BaseType::Bits)
}

/// Return whether a SEQUENCE field's type agrees with its column's type.
pub fn sequence_types_compatible(field_type: &str, col_type: &str, col_base: BaseType) -> (r: bool)
    ensures
        r == spec_sequence_types_compatible(field_type@, col_type@, col_base),
{
    if str_equal(field_type, col_type) {
        return true;
    }
    let field_norm = normalize_type_name(field_type);
    let col_norm = normalize_type_name(col_type);
    if str_equal(field_norm, col_norm) {
        return true;
    }
    if str_equal(field_norm, "Integer32") && col_base == BaseType::Integer32 {
        return true;
    }
    if (str_equal(field_type, "OCTET STRING") || str_equal(field_type, "BITS")) && col_base
        == BaseType::Bits {
        return true;
    }
    false
}

/// The base types an INDEX object may have.
pub open spec fn spec_is_legal_index_basetype(base: BaseType) -> bool {
    base == BaseType::Integer32 || base == BaseType::Unsigned32 || base == BaseType::Gauge32 || base
        == BaseType::TimeTicks || base == BaseType::Counter32 || base == BaseType::Counter64 || base
        == BaseType::Bits || base == BaseType::OctetString || base == BaseType::Opaque || base
        == BaseType::IpAddress || base == BaseType::ObjectIdentifier
}

/// Return whether an INDEX object may have this base type.
pub fn is_legal_index_basetype(base: BaseType) -> (r: bool)
    ensures
        r == spec_is_legal_index_basetype(base),
{
    matches!(
        base,
        BaseType::Integer32 | BaseType::Unsigned32 | BaseType::Gauge32 | BaseType::TimeTicks
            | BaseType::Counter32 | BaseType::Counter64 | BaseType::Bits | BaseType::OctetString
            | BaseType::Opaque | BaseType::IpAddress | BaseType::ObjectIdentifier
    )
}

/// The value bounds of the numeric base types.
pub open spec fn spec_basetype_bounds(base: BaseType) -> Option<(i64, i64)> {
    match base {
        BaseType::Integer32 => Some((-2147483648i64, 2147483647i64)),
        BaseType::Unsigned32 | BaseType::Gauge32 | BaseType::TimeTicks | BaseType::Counter32 => Some(
            (0i64, 4294967295i64),
        ),
        BaseType::Counter64 => Some((0i64, i64::MAX)),
        _ => None,
    }
}

/// Return the value bounds of a numeric base type.
pub fn basetype_bounds(base: BaseType) -> (r: Option<(i64, i64)>)
    ensures
        r == spec_basetype_bounds(base),
{
    match base {
        BaseType::Integer32 => Some((-2147483648, 2147483647)),
        BaseType::Unsigned32 | BaseType::Gauge32 | BaseType::TimeTicks | BaseType::Counter32 => Some(
            (0, 4294967295),
        ),
        BaseType::Counter64 => Some((0, i64::MAX)),
        _ => None,
    }
}

/// Return whether the base type is numeric (has value bounds).
pub fn is_numeric_base(base: BaseType) -> (r: bool)
    ensures
        r == spec_basetype_bounds(base) is Some,
{
    basetype_bounds(base).is_some()
}

/// An INTEGER DISPLAY-HINT: `x`, `o`, `b`, `d`, or `d-` followed by at
/// least one digit.
pub open spec fn spec_integer_hint(b: Seq<u8>) -> bool {
    if b.len() == 0 {
        false
    } else if b[0] == 0x78 || b[0] == 0x6f || b[0] == 0x62 {
        b.len() == 1
    } else if b[0] == 0x64 {
        b.len() == 1 || (b.len() >= 3 && b[1] == 0x2d && forall|i: int|
            2 <= i < b.len() ==> #[trigger] is_dec_digit(b[i]))
    } else {
        false
    }
}

/// Return whether a DISPLAY-HINT is valid for an INTEGER-based type.
pub fn validate_display_hint_integer(hint: &str) -> (r: bool)
    ensures
        r == spec_integer_hint(hint.spec_bytes()),
{
    let bytes = hint.as_bytes();
    if bytes.len() == 0 {
        return false;
    }
    let first = bytes[0];
    if first == 0x78 || first == 0x6f || first == 0x62 {
        return bytes.len() == 1;
    }
    if first != 0x64 {
        return false;
    }
    if bytes.len() == 1 {
        return true;
    }
    if bytes.len() < 3 || bytes[1] != 0x2d {
        return false;
    }
    let mut i: usize = 2;
    while i < bytes.len()
        invariant
            2 <= i <= bytes@.len(),
            bytes@ == hint.spec_bytes(),
            bytes@.len() >= 3,
            bytes@[0] == 0x64,
            bytes@[1] == 0x2d,
            forall|k: int| 2 <= k < i ==> #[trigger] is_dec_digit(bytes@[k]),
        decreases bytes@.len() - i,
    {
        if !(0x30 <= bytes[i] && bytes[i] <= 0x39) {
            assert(!is_dec_digit(bytes@[i as int]));
            return false;
        }
        i = i + 1;
    }
    true
}

/// The end of the run of digits that starts at `p`.
pub open spec fn digits_end(b: Seq<u8>, p: int) -> int
    decreases b.len() - p,
{
    if 0 <= p < b.len() && is_dec_digit(b[p]) {
        digits_end(b, p + 1)
    } else {
        p
    }
}

/// A byte that may separate or terminate an octet-string hint spec.
pub open spec fn is_separator(x: u8) -> bool {
    x != 0x2a && !is_dec_digit(x)
}

/// One octet-string hint spec starting at `p`: an optional `*`, an octet
/// count, a format character among `x d o a t`, an optional separator and
/// (after `*`) an optional terminator. Gives where the next spec starts
/// and whether this one consumes octets; `None` when malformed.
pub open spec fn hint_spec_at(b: Seq<u8>, p: int) -> Option<(int, bool)> {
    let repeat = 0 <= p < b.len() && b[p] == 0x2a;
    let q = if repeat {
        p + 1
    } else {
        p
    };
    let d = digits_end(b, q);
    if d == q || d >= b.len() {
        None
    } else if !(b[d] == 0x78 || b[d] == 0x64 || b[d] == 0x6f || b[d] == 0x61 || b[d] == 0x74) {
        None
    } else {
        let r = d + 1;
        let r2 = if r < b.len() && is_separator(b[r]) {
            if repeat && r + 1 < b.len() && is_separator(b[r + 1]) {
                r + 2
            } else {
                r + 1
            }
        } else {
            r
        };
        Some((r2, dec_value(b.subrange(q, d)) > 0 || repeat))
    }
}

proof fn lemma_digits_end_bounds(b: Seq<u8>, p: int)
    requires
        0 <= p <= b.len(),
    ensures
        p <= digits_end(b, p) <= b.len(),
        forall|k: int| p <= k < digits_end(b, p) ==> #[trigger] is_dec_digit(b[k]),
    decreases b.len() - p,
{
    if p < b.len() && is_dec_digit(b[p]) {
        lemma_digits_end_bounds(b, p + 1);
    }
}

proof fn lemma_hint_spec_advances(b: Seq<u8>, p: int)
    requires
        0 <= p < b.len(),
    ensures
        hint_spec_at(b, p) matches Some((q, c)) ==> p < q <= b.len(),
{
    let repeat = b[p] == 0x2a;
    let q = if repeat {
        p + 1
    } else {
        p
    };
    lemma_digits_end_bounds(b, q);
}

/// The remaining specs from `p` are well-formed, and the last one
/// consumes octets (`last` tells whether the previous one did, at the end).
pub open spec fn hint_specs_from(b: Seq<u8>, p: int, last: bool) -> bool
    decreases b.len() - p,
{
    if p < 0 || p >= b.len() {
        last
    } else {
        match hint_spec_at(b, p) {
            None => false,
            Some((q, c)) => if q > p {
                hint_specs_from(b, q, c)
            } else {
                false
            },
        }
    }
}

/// An OCTET STRING DISPLAY-HINT: one or more well-formed specs, the last
/// of which consumes octets.
pub open spec fn spec_octet_string_hint(b: Seq<u8>) -> bool {
    b.len() > 0 && hint_specs_from(b, 0, false)
}

/// Read one octet-string hint spec at `p`.
fn read_hint_spec(bytes: &[u8], p: usize) -> (r: Option<(usize, bool)>)
    requires
        p < bytes@.len(),
    ensures
        match r {
            Some((q, c)) => hint_spec_at(bytes@, p as int) == Some((q as int, c)),
            None => hint_spec_at(bytes@, p as int) is None,
        },
{
    let n = bytes.len();
    let repeat = bytes[p] == 0x2a;
    let q = if repeat {
        p + 1
    } else {
        p
    };
    proof {
        lemma_digits_end_bounds(bytes@, q as int);
    }
    let mut d = q;
    let mut nonzero = false;
    while d < n && 0x30 <= bytes[d] && bytes[d] <= 0x39
        invariant
            n == bytes@.len(),
            q <= d <= n,
            digits_end(bytes@, d as int) == digits_end(bytes@, q as int),
            forall|k: int| q <= k < d ==> #[trigger] is_dec_digit(bytes@[k]),
            nonzero == (dec_value(bytes@.subrange(q as int, d as int)) > 0),
        decreases n - d,
    {
        proof {
            assert(bytes@.subrange(q as int, d + 1).drop_last() =~= bytes@.subrange(q as int, d as int));
        }
        if bytes[d] != 0x30 {
            nonzero = true;
        }
        d = d + 1;
    }
    if d == q || d >= n {
        return None;
    }
    let f = bytes[d];
    if !(f == 0x78 || f == 0x64 || f == 0x6f || f == 0x61 || f == 0x74) {
        return None;
    }
    let mut r = d + 1;
    if r < n && bytes[r] != 0x2a && !(0x30 <= bytes[r] && bytes[r] <= 0x39) {
        r = r + 1;
        if repeat && r < n && bytes[r] != 0x2a && !(0x30 <= bytes[r] && bytes[r] <= 0x39) {
            r = r + 1;
        }
    }
    Some((r, nonzero || repeat))
}

/// Return whether a DISPLAY-HINT is valid for an OCTET STRING-based type.
pub fn validate_display_hint_octet_string(hint: &str) -> (r: bool)
    ensures
        r == spec_octet_string_hint(hint.spec_bytes()),
{
    let bytes = hint.as_bytes();
    if bytes.len() == 0 {
        return false;
    }
    let mut p: usize = 0;
    let mut last_spec_consumes = false;
    while p < bytes.len()
        invariant
            0 <= p <= bytes@.len(),
            bytes@ == hint.spec_bytes(),
            bytes@.len() > 0,
            hint_specs_from(bytes@, p as int, last_spec_consumes) == hint_specs_from(
                bytes@,
                0,
                false,
            ),
        decreases bytes@.len() - p,
    {
        proof {
            lemma_hint_spec_advances(bytes@, p as int);
        }
        match read_hint_spec(bytes, p) {
            None => {
                assert(!hint_specs_from(bytes@, p as int, last_spec_consumes));
                return false;
            },
            Some((q, consumes)) => {
                p = q;
                last_spec_consumes = consumes;
            },
        }
    }
    last_spec_consumes
}

} // verus!
