//! Type resolution helpers: well-known base types, base-type chains, and
//! the effective SIZE and value-range constraints a type inherits.

use vstd::prelude::*;

use crate::mib::typedef::TypeData;
use crate::mib::types::{bound_order, Range, RangeBound, TypeId};
use crate::text::str_equal;
use crate::types::{BaseType, Span};

verus! {

/// The description of a foundation type, by name.
pub open spec fn spec_foundation_type_description(name: Seq<char>) -> Option<&'static str> {
    if name == "INTEGER"@ {
        Some("An arbitrary precision integer value.")
    } else if name == "OCTET STRING"@ {
        Some("An ordered sequence of zero or more octets.")
    } else if name == "OBJECT IDENTIFIER"@ {
        Some("An administratively assigned name identifying an object type or registration point.")
    } else if name == "BITS"@ {
        Some("A named collection of individual bit positions.")
    } else if name == "Integer32"@ {
        Some("An integer-valued type restricted to the range -2147483648 to 2147483647.")
    } else if name == "IpAddress"@ {
        Some("A 32-bit internet address represented as an OCTET STRING of length 4 in network byte-order.")
    } else if name == "Counter"@ || name == "Counter32"@ {
        Some("A non-negative integer that monotonically increases to a maximum of 4294967295, then wraps to zero.")
    } else if name == "Gauge32"@ {
        Some("A non-negative integer that may increase or decrease, but never exceeds 4294967295 or falls below zero.")
    } else if name == "Gauge"@ {
        Some("A non-negative integer that may increase or decrease, but latches at a maximum of 4294967295.")
    } else if name == "Unsigned32"@ {
        Some("An unsigned integer-valued type restricted to the range 0 to 4294967295.")
    } else if name == "TimeTicks"@ {
        Some("A non-negative integer counting hundredths of a second between two epochs.")
    } else if name == "Opaque"@ {
        Some("An arbitrary ASN.1 value double-wrapped as an OCTET STRING. Provided for backward-compatibility only.")
    } else if name == "Counter64"@ {
        Some("A non-negative integer that monotonically increases to a maximum of 18446744073709551615, then wraps to zero.")
    } else if name == "NetworkAddress"@ {
        Some("An address from one of possibly several protocol families.")
    } else {
        None
    }
}

/// The standard description of a foundation type, if `name` is one.
pub fn foundation_type_description(name: &str) -> (r: Option<&'static str>)
    ensures
        r == spec_foundation_type_description(name@),
{
    if str_equal(name, "INTEGER") {
        Some("An arbitrary precision integer value.")
    } else if str_equal(name, "OCTET STRING") {
        Some("An ordered sequence of zero or more octets.")
    } else if str_equal(name, "OBJECT IDENTIFIER") {
        Some("An administratively assigned name identifying an object type or registration point.")
    } else if str_equal(name, "BITS") {
        Some("A named collection of individual bit positions.")
    } else if str_equal(name, "Integer32") {
        Some("An integer-valued type restricted to the range -2147483648 to 2147483647.")
    } else if str_equal(name, "IpAddress") {
        Some("A 32-bit internet address represented as an OCTET STRING of length 4 in network byte-order.")
    } else if str_equal(name, "Counter") || str_equal(name, "Counter32") {
        Some("A non-negative integer that monotonically increases to a maximum of 4294967295, then wraps to zero.")
    } else if str_equal(name, "Gauge32") {
        Some("A non-negative integer that may increase or decrease, but never exceeds 4294967295 or falls below zero.")
    } else if str_equal(name, "Gauge") {
        Some("A non-negative integer that may increase or decrease, but latches at a maximum of 4294967295.")
    } else if str_equal(name, "Unsigned32") {
        Some("An unsigned integer-valued type restricted to the range 0 to 4294967295.")
    } else if str_equal(name, "TimeTicks") {
        Some("A non-negative integer counting hundredths of a second between two epochs.")
    } else if str_equal(name, "Opaque") {
        Some("An arbitrary ASN.1 value double-wrapped as an OCTET STRING. Provided for backward-compatibility only.")
    } else if str_equal(name, "Counter64") {
        Some("A non-negative integer that monotonically increases to a maximum of 18446744073709551615, then wraps to zero.")
    } else if str_equal(name, "NetworkAddress") {
        Some("An address from one of possibly several protocol families.")
    } else {
        None
    }
}

/// The base type of an application-tagged foundation type, by name.
pub open spec fn spec_foundation_base_type(name: Seq<char>) -> Option<BaseType> {
    if name == "Integer32"@ {
        Some(BaseType::Integer32)
    } else if name == "Counter"@ || name == "Counter32"@ {
        Some(BaseType::Counter32)
    } else if name == "Counter64"@ {
        Some(BaseType::Counter64)
    } else if name == "Gauge"@ || name == "Gauge32"@ {
        Some(BaseType::Gauge32)
    } else if name == "Unsigned32"@ {
        Some(BaseType::Unsigned32)
    } else if name == "TimeTicks"@ {
        Some(BaseType::TimeTicks)
    } else if name == "IpAddress"@ || name == "NetworkAddress"@ {
        Some(BaseType::IpAddress)
    } else if name == "Opaque"@ {
        Some(BaseType::Opaque)
    } else {
        None
    }
}

/// Recover semantic kinds for application-tagged types in foundation modules.
pub fn foundation_base_type(name: &str) -> (r: Option<BaseType>)
    ensures
        r == spec_foundation_base_type(name@),
{
    if str_equal(name, "Integer32") {
        Some(BaseType::Integer32)
    } else if str_equal(name, "Counter") || str_equal(name, "Counter32") {
        Some(BaseType::Counter32)
    } else if str_equal(name, "Counter64") {
        Some(BaseType::Counter64)
    } else if str_equal(name, "Gauge") || str_equal(name, "Gauge32") {
        Some(BaseType::Gauge32)
    } else if str_equal(name, "Unsigned32") {
        Some(BaseType::Unsigned32)
    } else if str_equal(name, "TimeTicks") {
        Some(BaseType::TimeTicks)
    } else if str_equal(name, "IpAddress") || str_equal(name, "NetworkAddress") {
        Some(BaseType::IpAddress)
    } else if str_equal(name, "Opaque") {
        Some(BaseType::Opaque)
    } else {
        None
    }
}

/// The base type a well-known type name stands for.
pub open spec fn spec_base_type_from_name(name: Seq<char>) -> BaseType {
    if name == "INTEGER"@ || name == "Integer32"@ {
        BaseType::Integer32
    } else if name == "OCTET STRING"@ {
        BaseType::OctetString
    } else if name == "OBJECT IDENTIFIER"@ || name == "ObjectName"@ || name
        == "NotificationName"@ {
        BaseType::ObjectIdentifier
    } else if name == "BITS"@ {
        BaseType::Bits
    } else if name == "Counter"@ || name == "Counter32"@ {
        BaseType::Counter32
    } else if name == "Counter64"@ {
        BaseType::Counter64
    } else if name == "Gauge"@ || name == "Gauge32"@ {
        BaseType::Gauge32
    } else if name == "Unsigned32"@ {
        BaseType::Unsigned32
    } else if name == "TimeTicks"@ {
        BaseType::TimeTicks
    } else if name == "IpAddress"@ || name == "NetworkAddress"@ {
        BaseType::IpAddress
    } else if name == "Opaque"@ {
        BaseType::Opaque
    } else {
        BaseType::Unknown
    }
}

/// Map a well-known type name to its [`BaseType`], or `Unknown` if not recognized.
///
/// Handles ASN.1 primitives (INTEGER, OCTET STRING, etc.), SMIv2 application
/// types (Counter32, Gauge32, etc.), and their SMIv1 aliases (Counter, Gauge).
pub fn base_type_from_name(name: &str) -> (r: BaseType)
    ensures
        r == spec_base_type_from_name(name@),
{
    if str_equal(name, "INTEGER") || str_equal(name, "Integer32") {
        BaseType::Integer32
    } else if str_equal(name, "OCTET STRING") {
        BaseType::OctetString
    } else if str_equal(name, "OBJECT IDENTIFIER") || str_equal(name, "ObjectName") || str_equal(
        name,
        "NotificationName",
    ) {
        BaseType::ObjectIdentifier
    } else if str_equal(name, "BITS") {
        BaseType::Bits
    } else if str_equal(name, "Counter") || str_equal(name, "Counter32") {
        BaseType::Counter32
    } else if str_equal(name, "Counter64") {
        BaseType::Counter64
    } else if str_equal(name, "Gauge") || str_equal(name, "Gauge32") {
        BaseType::Gauge32
    } else if str_equal(name, "Unsigned32") {
        BaseType::Unsigned32
    } else if str_equal(name, "TimeTicks") {
        BaseType::TimeTicks
    } else if str_equal(name, "IpAddress") || str_equal(name, "NetworkAddress") {
        BaseType::IpAddress
    } else if str_equal(name, "Opaque") {
        BaseType::Opaque
    } else {
        BaseType::Unknown
    }
}

/// The SMIv2 application types.
pub open spec fn spec_is_application_base_type(b: BaseType) -> bool {
    b == BaseType::Counter32 || b == BaseType::Counter64 || b == BaseType::Gauge32 || b
        == BaseType::Unsigned32 || b == BaseType::TimeTicks || b == BaseType::IpAddress || b
        == BaseType::Opaque
}

/// Return whether the base type is an SMIv2 application type.
pub fn is_application_base_type(b: BaseType) -> (r: bool)
    ensures
        r == spec_is_application_base_type(b),
{
    matches!(
        b,
        BaseType::Counter32 | BaseType::Counter64 | BaseType::Gauge32 | BaseType::Unsigned32
            | BaseType::TimeTicks | BaseType::IpAddress | BaseType::Opaque
    )
}

/// Every type id that following the chain from `id` reads, looking at no
/// more than `fuel` types and stopping at the first known base type, names
/// a type of the arena.
pub open spec fn chain_in_range(types: Seq<TypeData>, id: Option<TypeId>, fuel: nat) -> bool
    decreases fuel,
{
    if fuel == 0 {
        true
    } else {
        match id {
            None => true,
            Some(i) => i.0 < types.len() && (types[i.0 as int].base != BaseType::Unknown
                || chain_in_range(types, types[i.0 as int].parent, (fuel - 1) as nat)),
        }
    }
}

/// The first known base type along the chain from `id`, looking at no
/// more than `fuel` types.
pub open spec fn chain_base(types: Seq<TypeData>, id: Option<TypeId>, fuel: nat) -> Option<BaseType>
    decreases fuel,
{
    if fuel == 0 {
        None
    } else {
        match id {
            None => None,
            Some(i) => if i.0 < types.len() {
                let t = types[i.0 as int];
                if t.base != BaseType::Unknown {
                    Some(t.base)
                } else {
                    chain_base(types, t.parent, (fuel - 1) as nat)
                }
            } else {
                None
            },
        }
    }
}

/// Follow the parent chain from a type to the first known base type,
/// looking at no more than 1000 types.
pub fn resolve_base_from_chain(types: &[TypeData], type_id: TypeId) -> (r: Option<BaseType>)
    requires
        chain_in_range(types@, Some(type_id), 1000),
    ensures
        r == chain_base(types@, Some(type_id), 1000),
{
    let mut current = Some(type_id);
    let mut depth: usize = 0;
    while depth < 1000
        invariant
            depth <= 1000,
            chain_in_range(types@, current, (1000 - depth) as nat),
            chain_base(types@, current, (1000 - depth) as nat) == chain_base(
                types@,
                Some(type_id),
                1000,
            ),
        decreases 1000 - depth,
    {
        let id = match current {
            None => return None,
            Some(id) => id,
        };
        let t = &types[id.index() as usize];
        if t.base != BaseType::Unknown {
            return Some(t.base);
        }
        if is_application_base_type(t.base) {
            return Some(t.base);
        }
        current = t.parent;
        depth = depth + 1;
    }
    None
}

/// Clone an endpoint exactly.
pub fn copy_bound(b: &RangeBound) -> (r: RangeBound)
    ensures
        r == *b,
{
    match b {
        RangeBound::Signed(v) => RangeBound::Signed(*v),
        RangeBound::Unsigned(v) => RangeBound::Unsigned(*v),
        RangeBound::Min => RangeBound::Min,
        RangeBound::Max => RangeBound::Max,
        RangeBound::Raw(s) => RangeBound::Raw(s.clone()),
    }
}

/// Clone a range exactly.
pub fn copy_range(r: &Range) -> (c: Range)
    ensures
        c == *r,
{
    Range { min: copy_bound(&r.min), max: copy_bound(&r.max), span: r.span }
}

/// Clone a list of ranges exactly.
pub fn copy_ranges(rs: &[Range]) -> (c: Vec<Range>)
    ensures
        c@ == rs@,
{
    let mut out: Vec<Range> = Vec::new();
    let mut i: usize = 0;
    while i < rs.len()
        invariant
            0 <= i <= rs@.len(),
            out@ == rs@.subrange(0, i as int),
        decreases rs@.len() - i,
    {
        out.push(copy_range(&rs[i]));
        i = i + 1;
        assert(out@ =~= rs@.subrange(0, i as int));
    }
    assert(rs@.subrange(0, rs@.len() as int) =~= rs@);
    out
}

/// The implicit constraint of a base type: `0..65535` for SIZE, and the
/// value range of the numeric base types.
pub open spec fn spec_base_constraint(base: BaseType, is_size: bool) -> Option<(RangeBound, RangeBound)> {
    if is_size {
        Some((RangeBound::Unsigned(0u64), RangeBound::Unsigned(65535u64)))
    } else {
        match base {
            BaseType::Integer32 => Some(
                (RangeBound::Signed(-2147483648i64), RangeBound::Signed(2147483647i64)),
            ),
            BaseType::Unsigned32 | BaseType::Gauge32 | BaseType::TimeTicks | BaseType::Counter32 => Some(
                (RangeBound::Unsigned(0u64), RangeBound::Unsigned(4294967295u64)),
            ),
            BaseType::Counter64 => Some((RangeBound::Unsigned(0u64), RangeBound::Unsigned(u64::MAX))),
            _ => None,
        }
    }
}

/// Return the implicit constraint of a base type.
pub fn base_constraint(base: BaseType, is_size: bool) -> (r: Option<Range>)
    ensures
        match spec_base_constraint(base, is_size) {
            Some((lo, hi)) => r matches Some(rg) && rg.min == lo && rg.max == hi && rg.span.start == 0
                && rg.span.end == 0,
            None => r is None,
        },
{
    let (min, max) = if is_size {
        (RangeBound::Unsigned(0), RangeBound::Unsigned(65535))
    } else {
        match base {
            BaseType::Integer32 => (RangeBound::Signed(-2147483648), RangeBound::Signed(2147483647)),
            BaseType::Unsigned32 | BaseType::Gauge32 | BaseType::TimeTicks | BaseType::Counter32 => (
                RangeBound::Unsigned(0),
                RangeBound::Unsigned(4294967295),
            ),
            BaseType::Counter64 => (RangeBound::Unsigned(0), RangeBound::Unsigned(u64::MAX)),
            _ => return None,
        }
    };
    Some(Range { min, max, span: Span::synthetic() })
}

/// `a` is known to compare greater than `b`.
pub open spec fn known_gt(a: RangeBound, b: RangeBound) -> bool {
    bound_order(a, b) == Some(1int)
}

/// `a` is known to compare less than `b`.
pub open spec fn known_lt(a: RangeBound, b: RangeBound) -> bool {
    bound_order(a, b) == Some(-1int)
}

/// No other alternative is known to reach above alternative `index`'s
/// maximum.
pub open spec fn spec_could_contain_global_max(ranges: Seq<Range>, index: int) -> bool {
    forall|j: int|
        0 <= j < ranges.len() && j != index ==> !known_gt(#[trigger] ranges[j].max, ranges[index].max)
            && !known_gt(ranges[j].min, ranges[index].max)
}

/// No other alternative is known to reach below alternative `index`'s
/// minimum.
pub open spec fn spec_could_contain_global_min(ranges: Seq<Range>, index: int) -> bool {
    forall|j: int|
        0 <= j < ranges.len() && j != index ==> !known_lt(#[trigger] ranges[j].min, ranges[index].min)
            && !known_lt(ranges[j].max, ranges[index].min)
}

fn is_known_gt(a: &RangeBound, b: &RangeBound) -> (r: bool)
    ensures
        r == known_gt(*a, *b),
{
    match a.order(b) {
        Some(x) => x > 0,
        None => false,
    }
}

fn is_known_lt(a: &RangeBound, b: &RangeBound) -> (r: bool)
    ensures
        r == known_lt(*a, *b),
{
    match a.order(b) {
        Some(x) => x < 0,
        None => false,
    }
}

/// Return whether alternative `index` could hold the largest value of all
/// the alternatives.
fn could_contain_global_max(ranges: &[Range], index: usize) -> (r: bool)
    requires
        index < ranges@.len(),
    ensures
        r == spec_could_contain_global_max(ranges@, index as int),
{
    let candidate = &ranges[index].max;
    let mut j: usize = 0;
    while j < ranges.len()
        invariant
            index < ranges@.len(),
            *candidate == ranges@[index as int].max,
            0 <= j <= ranges@.len(),
            forall|k: int|
                0 <= k < j && k != index ==> !known_gt(#[trigger] ranges@[k].max, *candidate)
                    && !known_gt(ranges@[k].min, *candidate),
        decreases ranges@.len() - j,
    {
        if j != index && (is_known_gt(&ranges[j].max, candidate) || is_known_gt(
            &ranges[j].min,
            candidate,
        )) {
            return false;
        }
        j = j + 1;
    }
    true
}

/// Return whether alternative `index` could hold the smallest value of all
/// the alternatives.
fn could_contain_global_min(ranges: &[Range], index: usize) -> (r: bool)
    requires
        index < ranges@.len(),
    ensures
        r == spec_could_contain_global_min(ranges@, index as int),
{
    let candidate = &ranges[index].min;
    let mut j: usize = 0;
    while j < ranges.len()
        invariant
            index < ranges@.len(),
            *candidate == ranges@[index as int].min,
            0 <= j <= ranges@.len(),
            forall|k: int|
                0 <= k < j && k != index ==> !known_lt(#[trigger] ranges@[k].min, *candidate)
                    && !known_lt(ranges@[k].max, *candidate),
        decreases ranges@.len() - j,
    {
        if j != index && (is_known_lt(&ranges[j].min, candidate) || is_known_lt(
            &ranges[j].max,
            candidate,
        )) {
            return false;
        }
        j = j + 1;
    }
    true
}

/// A child endpoint resolved against one parent alternative: a lower `MIN`
/// or upper `MAX` takes the alternative's own endpoint; a lower `MAX` (upper
/// `MIN`) takes the alternative's maximum (minimum) only when that could be
/// the parent's global extreme, and excludes the alternative otherwise.
pub open spec fn spec_child_bound(
    bound: RangeBound,
    parent: Seq<Range>,
    index: int,
    lower: bool,
) -> Option<RangeBound> {
    let alt = parent[index];
    if lower {
        match bound {
            RangeBound::Min => Some(alt.min),
            RangeBound::Max => if spec_could_contain_global_max(parent, index) {
                Some(alt.max)
            } else {
                None
            },
            _ => Some(bound),
        }
    } else {
        match bound {
            RangeBound::Max => Some(alt.max),
            RangeBound::Min => if spec_could_contain_global_min(parent, index) {
                Some(alt.min)
            } else {
                None
            },
            _ => Some(bound),
        }
    }
}

fn resolve_child_range_bound(bound: &RangeBound, parent: &[Range], index: usize, lower: bool) -> (r:
    Option<RangeBound>)
    requires
        index < parent@.len(),
    ensures
        r == spec_child_bound(*bound, parent@, index as int, lower),
{
    let alternative = &parent[index];
    if lower {
        match bound {
            RangeBound::Min => return Some(copy_bound(&alternative.min)),
            RangeBound::Max => {
                return if could_contain_global_max(parent, index) {
                    Some(copy_bound(&alternative.max))
                } else {
                    None
                };
            },
            _ => {},
        }
    } else {
        match bound {
            RangeBound::Max => return Some(copy_bound(&alternative.max)),
            RangeBound::Min => {
                return if could_contain_global_min(parent, index) {
                    Some(copy_bound(&alternative.min))
                } else {
                    None
                };
            },
            _ => {},
        }
    }
    Some(copy_bound(bound))
}

/// The larger endpoint; when the two cannot be compared, the raw one
/// (the left one when both are raw).
pub open spec fn spec_max_bound(a: RangeBound, b: RangeBound) -> RangeBound {
    match bound_order(a, b) {
        Some(x) => if x < 0 {
            b
        } else {
            a
        },
        None => if a is Raw {
            a
        } else {
            b
        },
    }
}

/// The smaller endpoint; when the two cannot be compared, the raw one
/// (the left one when both are raw).
pub open spec fn spec_min_bound(a: RangeBound, b: RangeBound) -> RangeBound {
    match bound_order(a, b) {
        Some(x) => if x > 0 {
            b
        } else {
            a
        },
        None => if a is Raw {
            a
        } else {
            b
        },
    }
}

fn unresolved_range_bound(left: &RangeBound, right: &RangeBound) -> (r: RangeBound)
    ensures
        r == (if *left is Raw {
            *left
        } else {
            *right
        }),
{
    if matches!(left, RangeBound::Raw(_)) {
        copy_bound(left)
    } else {
        copy_bound(right)
    }
}

fn max_range_bound(left: &RangeBound, right: &RangeBound) -> (r: RangeBound)
    ensures
        r == spec_max_bound(*left, *right),
{
    match left.order(right) {
        Some(x) => if x < 0 {
            copy_bound(right)
        } else {
            copy_bound(left)
        },
        None => unresolved_range_bound(left, right),
    }
}

fn min_range_bound(left: &RangeBound, right: &RangeBound) -> (r: RangeBound)
    ensures
        r == spec_min_bound(*left, *right),
{
    match left.order(right) {
        Some(x) => if x > 0 {
            copy_bound(right)
        } else {
            copy_bound(left)
        },
        None => unresolved_range_bound(left, right),
    }
}

/// Some lower candidate is known to exceed some upper candidate.
pub open spec fn spec_any_greater(l0: RangeBound, l1: RangeBound, u0: RangeBound, u1: RangeBound) -> bool {
    known_gt(l0, u0) || known_gt(l0, u1) || known_gt(l1, u0) || known_gt(l1, u1)
}

fn any_range_bound_greater(l0: &RangeBound, l1: &RangeBound, u0: &RangeBound, u1: &RangeBound) -> (r:
    bool)
    ensures
        r == spec_any_greater(*l0, *l1, *u0, *u1),
{
    is_known_gt(l0, u0) || is_known_gt(l0, u1) || is_known_gt(l1, u0) || is_known_gt(l1, u1)
}

/// The intersection of one child range with parent alternative `index`,
/// or nothing when the child excludes it or the two are known disjoint.
pub open spec fn spec_pair(child: Range, parent: Seq<Range>, index: int) -> Seq<Range> {
    let alt = parent[index];
    match (
        spec_child_bound(child.min, parent, index, true),
        spec_child_bound(child.max, parent, index, false),
    ) {
        (Some(lo), Some(hi)) => if spec_any_greater(alt.min, lo, alt.max, hi) {
            Seq::empty()
        } else {
            seq![Range { min: spec_max_bound(lo, alt.min), max: spec_min_bound(hi, alt.max), span: child.span }]
        },
        _ => Seq::empty(),
    }
}

/// The intersections of one child range with the first `k` parent
/// alternatives, in order.
pub open spec fn spec_row(child: Range, parent: Seq<Range>, k: int) -> Seq<Range>
    decreases k,
{
    if k <= 0 {
        Seq::empty()
    } else {
        spec_row(child, parent, k - 1) + spec_pair(child, parent, k - 1)
    }
}

/// The intersections of the first `n` child ranges with every parent
/// alternative, child-major.
pub open spec fn spec_rows(own: Seq<Range>, parent: Seq<Range>, n: int) -> Seq<Range>
    decreases n,
{
    if n <= 0 {
        Seq::empty()
    } else {
        spec_rows(own, parent, n - 1) + spec_row(own[n - 1], parent, parent.len() as int)
    }
}

/// A child constraint intersected with its parent's: nothing for no child
/// ranges, the child ranges for no parent ranges, and otherwise every
/// non-empty intersection of a child range with a parent alternative.
pub open spec fn spec_intersect(own: Seq<Range>, parent: Seq<Range>) -> Seq<Range> {
    if own.len() == 0 {
        Seq::empty()
    } else if parent.len() == 0 {
        own
    } else {
        spec_rows(own, parent, own.len() as int)
    }
}

/// Intersect a child constraint with its parent's alternatives.
pub fn intersect_constraints(own: &[Range], parent: &[Range]) -> (r: Vec<Range>)
    ensures
        r@ == spec_intersect(own@, parent@),
{
    if own.len() == 0 {
        return Vec::new();
    }
    if parent.len() == 0 {
        return copy_ranges(own);
    }
    let mut result: Vec<Range> = Vec::new();
    let mut c: usize = 0;
    while c < own.len()
        invariant
            0 <= c <= own@.len(),
            parent@.len() > 0,
            result@ == spec_rows(own@, parent@, c as int),
        decreases own@.len() - c,
    {
        let child = &own[c];
        let ghost before_row = result@;
        let mut index: usize = 0;
        while index < parent.len()
            invariant
                0 <= index <= parent@.len(),
                c < own@.len(),
                *child == own@[c as int],
                result@ == before_row + spec_row(*child, parent@, index as int),
            decreases parent@.len() - index,
        {
            let alt = &parent[index];
            let ghost before = result@;
            let lo = resolve_child_range_bound(&child.min, parent, index, true);
            let hi = resolve_child_range_bound(&child.max, parent, index, false);
            match (lo, hi) {
                (Some(child_min), Some(child_max)) => {
                    if !any_range_bound_greater(&alt.min, &child_min, &alt.max, &child_max) {
                        let rg = Range {
                            min: max_range_bound(&child_min, &alt.min),
                            max: min_range_bound(&child_max, &alt.max),
                            span: child.span,
                        };
                        result.push(rg);
                    }
                },
                _ => {},
            }
            proof {
                assert(result@ =~= before + spec_pair(*child, parent@, index as int));
                assert(before_row + spec_row(*child, parent@, index + 1) =~= before_row + spec_row(
                    *child,
                    parent@,
                    index as int,
                ) + spec_pair(*child, parent@, index as int));
            }
            index = index + 1;
        }
        c = c + 1;
    }
    result
}

/// An effective constraint: its ranges, and whether any constraint applies
/// at all (an empty list with `present` means nothing is admitted).
#[derive(Debug)]
pub struct EffectiveConstraint {
    pub values: Vec<Range>,
    pub present: bool,
}

/// The effective constraint of a type from its own ranges and its parent's
/// effective constraint: the parent's when it declares none, its own when
/// the parent has none, else their intersection (empty when the parent
/// admits nothing).
pub open spec fn spec_effective(own: Seq<Range>, parent_values: Seq<Range>, parent_present: bool) -> (
    Seq<Range>,
    bool,
) {
    if own.len() == 0 {
        (parent_values, parent_present)
    } else if !parent_present {
        (own, true)
    } else if parent_values.len() == 0 {
        (Seq::empty(), true)
    } else {
        (spec_intersect(own, parent_values), true)
    }
}

/// Compute the effective constraint of a type.
pub fn effective_constraints(own: &[Range], parent: &EffectiveConstraint) -> (r: EffectiveConstraint)
    ensures
        (r.values@, r.present) == spec_effective(own@, parent.values@, parent.present),
{
    if own.len() == 0 {
        return EffectiveConstraint { values: copy_ranges(parent.values.as_slice()), present: parent.present };
    }
    if !parent.present {
        return EffectiveConstraint { values: copy_ranges(own), present: true };
    }
    EffectiveConstraint {
        values: if parent.values.len() == 0 {
            Vec::new()
        } else {
            intersect_constraints(own, parent.values.as_slice())
        },
        present: true,
    }
}

/// What the effective-constraint computation reads of one type: its own
/// SIZE ranges, its own value ranges, its parent and its base type.
pub type ConstraintInput = (Vec<Range>, Vec<Range>, Option<TypeId>, BaseType);

/// A computed (SIZE, value range) constraint pair, by its contents.
pub type ConstraintPairView = ((Seq<Range>, bool), (Seq<Range>, bool));

/// Every parent named in the arena lies in the arena.
pub open spec fn parents_in_range(inputs: Seq<ConstraintInput>) -> bool {
    forall|j: int|
        0 <= j < inputs.len() ==> match (#[trigger] inputs[j]).2 {
            Some(p) => (p.0 as int) < inputs.len(),
            None => true,
        }
}

/// Following parents from type `j` reaches a type without a parent in at
/// most `k` steps.
pub open spec fn chain_ends_within(inputs: Seq<ConstraintInput>, j: int, k: nat) -> bool
    decreases k,
{
    match inputs[j].2 {
        None => true,
        Some(p) => k > 0 && chain_ends_within(inputs, p.0 as int, (k - 1) as nat),
    }
}

/// Every parent chain that ends at all ends within the depth limit of 1000
/// steps. Chains that loop are allowed.
pub open spec fn chains_within_limit(inputs: Seq<ConstraintInput>) -> bool {
    forall|j: int, k: nat|
        0 <= j < inputs.len() && #[trigger] chain_ends_within(inputs, j, k) ==> chain_ends_within(
            inputs,
            j,
            1000,
        )
}

/// The contents of a computed constraint pair.
pub open spec fn pair_view(c: (EffectiveConstraint, EffectiveConstraint)) -> ConstraintPairView {
    ((c.0.values@, c.0.present), (c.1.values@, c.1.present))
}

/// The constraint a type builds on: what it inherits, or, when nothing is
/// inherited and the type declares ranges of its own, its base type's
/// implicit range.
pub open spec fn spec_inherited_or_base(
    inherited: (Seq<Range>, bool),
    own: Seq<Range>,
    base: BaseType,
    is_size: bool,
) -> (Seq<Range>, bool) {
    if !inherited.1 && own.len() > 0 && spec_base_constraint(base, is_size) is Some {
        let (lo, hi) = spec_base_constraint(base, is_size)->0;
        (seq![Range { min: lo, max: hi, span: Span { start: 0, end: 0 } }], true)
    } else {
        inherited
    }
}

/// The effective (SIZE, value range) constraints of type `j`, following at
/// most `fuel` parents.
pub open spec fn spec_effective_in(inputs: Seq<ConstraintInput>, j: int, fuel: nat) -> ConstraintPairView
    decreases fuel,
{
    let t = inputs[j];
    let nothing: ConstraintPairView = ((Seq::empty(), false), (Seq::empty(), false));
    let inherited = match t.2 {
        Some(p) => if fuel > 0 {
            spec_effective_in(inputs, p.0 as int, (fuel - 1) as nat)
        } else {
            nothing
        },
        None => nothing,
    };
    let sizes = spec_inherited_or_base(inherited.0, t.0@, t.3, true);
    let ranges = spec_inherited_or_base(inherited.1, t.1@, t.3, false);
    (spec_effective(t.0@, sizes.0, sizes.1), spec_effective(t.1@, ranges.0, ranges.1))
}

/// No constraint at all, for sizes or for value ranges.
pub open spec fn no_pair() -> ConstraintPairView {
    ((Seq::empty(), false), (Seq::empty(), false))
}

/// A memo table by its contents.
pub open spec fn memo_view(memo: Seq<Option<(EffectiveConstraint, EffectiveConstraint)>>) -> Seq<
    Option<ConstraintPairView>,
> {
    memo.map_values(
        |o: Option<(EffectiveConstraint, EffectiveConstraint)>|
            match o {
                Some(c) => Some(pair_view(c)),
                None => None,
            },
    )
}

/// Computing type `j`, reached at chain depth `depth`, against the memo
/// table `memo`: a type already in the table gives what the table holds;
/// otherwise its parent is computed first (below the depth limit of 1000),
/// the type's pair is built on what the parent gives, and it is recorded.
/// The pair, and the table afterwards.
pub open spec fn memo_step(
    inputs: Seq<ConstraintInput>,
    memo: Seq<Option<ConstraintPairView>>,
    j: int,
    depth: int,
) -> (ConstraintPairView, Seq<Option<ConstraintPairView>>)
    decreases 1000 - depth,
{
    if memo[j] is Some {
        (memo[j]->0, memo)
    } else {
        let t = inputs[j];
        let parent_step: (ConstraintPairView, Seq<Option<ConstraintPairView>>) = if depth < 1000 {
            match t.2 {
                Some(p) => memo_step(inputs, memo, p.0 as int, depth + 1),
                None => (no_pair(), memo),
            }
        } else {
            (no_pair(), memo)
        };
        let inherited = parent_step.0;
        let sizes = spec_inherited_or_base(inherited.0, t.0@, t.3, true);
        let ranges = spec_inherited_or_base(inherited.1, t.1@, t.3, false);
        let pair = (spec_effective(t.0@, sizes.0, sizes.1), spec_effective(t.1@, ranges.0, ranges.1));
        (pair, parent_step.1.update(j, Some(pair)))
    }
}

/// The memo table after computing types `0` to `k - 1`, in order, from an
/// empty table.
pub open spec fn memo_after(inputs: Seq<ConstraintInput>, k: nat) -> Seq<Option<ConstraintPairView>>
    decreases k,
{
    if k == 0 {
        Seq::new(inputs.len(), |i: int| None::<ConstraintPairView>)
    } else {
        memo_step(inputs, memo_after(inputs, (k - 1) as nat), k - 1, 0).1
    }
}

/// The constraints computed for type `i`: what the table holds for it once
/// every type of the arena has been computed in order.
pub open spec fn spec_computed(inputs: Seq<ConstraintInput>, i: int) -> ConstraintPairView {
    match memo_after(inputs, inputs.len())[i] {
        Some(v) => v,
        None => no_pair(),
    }
}

/// A chain that ends within `k` steps ends within any larger bound.
proof fn lemma_chain_ends_mono(inputs: Seq<ConstraintInput>, j: int, k: nat, m: nat)
    requires
        chain_ends_within(inputs, j, k),
        k <= m,
    ensures
        chain_ends_within(inputs, j, m),
    decreases k,
{
    if let Some(p) = inputs[j].2 {
        lemma_chain_ends_mono(inputs, p.0 as int, (k - 1) as nat, (m - 1) as nat);
    }
}

/// Once the parent chain ends, more fuel changes nothing.
proof fn lemma_effective_stable(inputs: Seq<ConstraintInput>, j: int, k: nat, f: nat)
    requires
        chain_ends_within(inputs, j, k),
        k <= f,
    ensures
        spec_effective_in(inputs, j, f) == spec_effective_in(inputs, j, k),
    decreases k,
{
    if let Some(p) = inputs[j].2 {
        lemma_effective_stable(inputs, p.0 as int, (k - 1) as nat, (f - 1) as nat);
    }
}

/// Memoized pairs agree with the specification at every type whose chain
/// ends within the limit, whenever no ending chain exceeds the limit.
pub open spec fn memo_agrees(
    inputs: Seq<ConstraintInput>,
    memo: Seq<Option<(EffectiveConstraint, EffectiveConstraint)>>,
) -> bool {
    &&& memo.len() == inputs.len()
    &&& chains_within_limit(inputs) ==> forall|j: int|
        0 <= j < memo.len() && (#[trigger] memo[j]) is Some && chain_ends_within(inputs, j, 1000)
            ==> pair_view(memo[j]->0) == spec_effective_in(inputs, j, 1000)
}

fn copy_effective(c: &EffectiveConstraint) -> (r: EffectiveConstraint)
    ensures
        r.values@ == c.values@,
        r.present == c.present,
{
    EffectiveConstraint { values: copy_ranges(c.values.as_slice()), present: c.present }
}

fn no_constraint() -> (r: EffectiveConstraint)
    ensures
        r.values@ == Seq::<Range>::empty(),
        !r.present,
{
    EffectiveConstraint { values: Vec::new(), present: false }
}

/// Apply the base type's implicit range when nothing is inherited and the
/// type declares ranges of its own.
fn inherited_or_base(
    inherited: EffectiveConstraint,
    own: &[Range],
    base: BaseType,
    is_size: bool,
) -> (r: EffectiveConstraint)
    ensures
        (r.values@, r.present) == spec_inherited_or_base(
            (inherited.values@, inherited.present),
            own@,
            base,
            is_size,
        ),
{
    if !inherited.present && own.len() > 0 {
        if let Some(range) = base_constraint(base, is_size) {
            let mut values: Vec<Range> = Vec::new();
            values.push(range);
            return EffectiveConstraint { values, present: true };
        }
    }
    inherited
}

/// Compute the effective constraints of type `index` from its own ranges and
/// its parent's, memoizing every type computed on the way. The parent chain
/// is followed to a depth of 1000.
fn resolve_effective_constraints(
    index: usize,
    inputs: &[ConstraintInput],
    resolved: &mut Vec<Option<(EffectiveConstraint, EffectiveConstraint)>>,
    depth: usize,
) -> (r: (EffectiveConstraint, EffectiveConstraint))
    requires
        index < inputs@.len(),
        depth <= 1000,
        parents_in_range(inputs@),
        memo_agrees(inputs@, old(resolved)@),
        chains_within_limit(inputs@) ==> forall|k: nat|
            #[trigger] chain_ends_within(inputs@, index as int, k) ==> chain_ends_within(
                inputs@,
                index as int,
                (1000 - depth) as nat,
            ),
    ensures
        memo_agrees(inputs@, final(resolved)@),
        final(resolved)@[index as int] is Some,
        forall|j: int|
            0 <= j < old(resolved)@.len() && (#[trigger] old(resolved)@[j]) is Some
                ==> final(resolved)@[j] is Some,
        chains_within_limit(inputs@) && chain_ends_within(inputs@, index as int, 1000) ==> pair_view(r)
            == spec_effective_in(inputs@, index as int, 1000),
        (pair_view(r), memo_view(final(resolved)@)) == memo_step(
            inputs@,
            memo_view(old(resolved)@),
            index as int,
            depth as int,
        ),
    decreases 1000 - depth,
{
    proof {
        assert(memo_view(resolved@)[index as int] == match resolved@[index as int] {
            Some(c) => Some(pair_view(c)),
            None => None::<ConstraintPairView>,
        });
    }
    match &resolved[index] {
        Some(c) => {
            return (copy_effective(&c.0), copy_effective(&c.1));
        },
        None => {},
    }
    let ghost memo0 = memo_view(resolved@);
    let ghost fuel: nat = (1000 - depth) as nat;
    let ghost i = index as int;
    let (parent_sizes, parent_ranges) = if depth < 1000 {
        match inputs[index].2 {
            Some(parent_id) => {
                let p = parent_id.0 as usize;
                proof {
                    assert(p < inputs@.len());
                    if chains_within_limit(inputs@) {
                        assert forall|k: nat| #[trigger] chain_ends_within(inputs@, p as int, k)
                            implies chain_ends_within(inputs@, p as int, (1000 - (depth + 1)) as nat) by {
                            assert(chain_ends_within(inputs@, i, k + 1));
                        }
                    }
                }
                let pair = resolve_effective_constraints(p, inputs, resolved, depth + 1);
                proof {
                    if chains_within_limit(inputs@) && chain_ends_within(inputs@, i, 1000) {
                        assert(chain_ends_within(inputs@, p as int, (fuel - 1) as nat));
                        lemma_chain_ends_mono(inputs@, p as int, (fuel - 1) as nat, 1000);
                        lemma_effective_stable(inputs@, p as int, (fuel - 1) as nat, 1000);
                    }
                }
                pair
            },
            None => (no_constraint(), no_constraint()),
        }
    } else {
        (no_constraint(), no_constraint())
    };
    let ghost memo1 = memo_view(resolved@);
    proof {
        assert(memo_step(inputs@, memo0, index as int, depth as int).1 == memo1.update(
            index as int,
            Some(memo_step(inputs@, memo0, index as int, depth as int).0),
        ));
    }
    let own_sizes = inputs[index].0.as_slice();
    let own_ranges = inputs[index].1.as_slice();
    let base = inputs[index].3;
    let parent_sizes = inherited_or_base(parent_sizes, own_sizes, base, true);
    let parent_ranges = inherited_or_base(parent_ranges, own_ranges, base, false);
    let constraints = (
        effective_constraints(own_sizes, &parent_sizes),
        effective_constraints(own_ranges, &parent_ranges),
    );
    proof {
        if chains_within_limit(inputs@) && chain_ends_within(inputs@, i, 1000) {
            assert(chain_ends_within(inputs@, i, fuel));
            lemma_effective_stable(inputs@, i, fuel, 1000);
            assert(pair_view(constraints) == spec_effective_in(inputs@, i, fuel));
        }
    }
    let ghost before = resolved@;
    resolved.set(index, Some((copy_effective(&constraints.0), copy_effective(&constraints.1))));
    proof {
        assert(memo_view(resolved@) =~= memo1.update(index as int, Some(pair_view(constraints))));
        if chains_within_limit(inputs@) {
            assert forall|j: int|
                0 <= j < resolved@.len() && (#[trigger] resolved@[j]) is Some && chain_ends_within(
                    inputs@,
                    j,
                    1000,
                ) implies pair_view(resolved@[j]->0) == spec_effective_in(inputs@, j, 1000) by {
                if j != i {
                    assert(resolved@[j] == before[j]);
                }
            }
        }
    }
    constraints
}

/// Compute the effective (SIZE, value range) constraints of every type of an
/// arena, in arena order.
///
/// Each type gets what the memoized walk over the arena in order computes
/// for it (`spec_computed`), loops and chains deeper than the limit
/// included. Wherever a type's parent chain ends within the depth limit,
/// and no ending chain in the arena exceeds it, that is the constraint its
/// whole chain gives.
pub fn compute_effective_constraints(inputs: &[ConstraintInput]) -> (r: Vec<
    (EffectiveConstraint, EffectiveConstraint),
>)
    requires
        parents_in_range(inputs@),
    ensures
        r@.len() == inputs@.len(),
        forall|i: int| 0 <= i < r@.len() ==> pair_view(#[trigger] r@[i]) == spec_computed(inputs@, i),
        chains_within_limit(inputs@) ==> forall|i: int|
            0 <= i < r@.len() && chain_ends_within(inputs@, i, 1000) ==> pair_view(#[trigger] r@[i])
                == spec_effective_in(inputs@, i, 1000),
{
    let n = inputs.len();
    let mut resolved: Vec<Option<(EffectiveConstraint, EffectiveConstraint)>> = Vec::new();
    let mut k: usize = 0;
    while k < n
        invariant
            k <= n,
            n == inputs@.len(),
            resolved@.len() == k,
            forall|j: int| 0 <= j < k ==> (#[trigger] resolved@[j]) is None,
        decreases n - k,
    {
        resolved.push(None);
        k = k + 1;
    }
    let mut index: usize = 0;
    proof {
        assert(memo_view(resolved@) =~= memo_after(inputs@, 0));
    }
    while index < n
        invariant
            index <= n,
            n == inputs@.len(),
            parents_in_range(inputs@),
            memo_agrees(inputs@, resolved@),
            forall|j: int| 0 <= j < index ==> (#[trigger] resolved@[j]) is Some,
            memo_view(resolved@) == memo_after(inputs@, index as nat),
        decreases n - index,
    {
        let ghost before = resolved@;
        resolve_effective_constraints(index, inputs, &mut resolved, 0);
        proof {
            assert forall|j: int| 0 <= j <= index implies (#[trigger] resolved@[j]) is Some by {
                if j < index {
                    assert(before[j] is Some);
                }
            }
        }
        index = index + 1;
    }
    let mut out: Vec<(EffectiveConstraint, EffectiveConstraint)> = Vec::new();
    let mut i: usize = 0;
    while i < n
        invariant
            i <= n,
            n == inputs@.len(),
            memo_agrees(inputs@, resolved@),
            forall|j: int| 0 <= j < n ==> (#[trigger] resolved@[j]) is Some,
            out@.len() == i,
            forall|j: int| 0 <= j < i ==> pair_view(#[trigger] out@[j]) == pair_view(resolved@[j]->0),
            memo_view(resolved@) == memo_after(inputs@, n as nat),
        decreases n - i,
    {
        match &resolved[i] {
            Some(c) => out.push((copy_effective(&c.0), copy_effective(&c.1))),
            None => out.push((no_constraint(), no_constraint())),
        }
        i = i + 1;
    }
    proof {
        assert forall|j: int| 0 <= j < out@.len() implies pair_view(#[trigger] out@[j]) == spec_computed(
            inputs@,
            j,
        ) by {
            assert(memo_view(resolved@)[j] == Some(pair_view(resolved@[j]->0)));
        }
    }
    out
}

/// Intersecting with a parent never makes a constraint looser: when every
/// endpoint is a number, each resulting range lies inside one of the
/// child's ranges and one of the parent's alternatives, and is non-empty.
pub proof fn lemma_intersection_within_both(own: Seq<Range>, parent: Seq<Range>, k: int)
    requires
        parent.len() > 0,
        forall|i: int| 0 <= i < own.len() ==> numeric_range(#[trigger] own[i]),
        forall|i: int| 0 <= i < parent.len() ==> numeric_range(#[trigger] parent[i]),
        0 <= k < spec_intersect(own, parent).len(),
    ensures
        numeric_range(spec_intersect(own, parent)[k]),
        range_value(spec_intersect(own, parent)[k].min) <= range_value(
            spec_intersect(own, parent)[k].max,
        ),
        exists|i: int|
            0 <= i < own.len() && within(spec_intersect(own, parent)[k], #[trigger] own[i]),
        exists|j: int|
            0 <= j < parent.len() && within(spec_intersect(own, parent)[k], #[trigger] parent[j]),
{
    if own.len() > 0 {
        lemma_rows_within(own, parent, own.len() as int, k);
    }
}

/// Both endpoints are numbers.
pub open spec fn numeric_range(r: Range) -> bool {
    &&& (r.min is Signed || r.min is Unsigned)
    &&& (r.max is Signed || r.max is Unsigned)
}

/// The number a numeric endpoint stands for.
pub open spec fn range_value(b: RangeBound) -> int {
    match b {
        RangeBound::Signed(v) => v as int,
        RangeBound::Unsigned(v) => v as int,
        _ => 0,
    }
}

/// `inner`'s interval lies inside `outer`'s.
pub open spec fn within(inner: Range, outer: Range) -> bool {
    range_value(outer.min) <= range_value(inner.min) && range_value(inner.max) <= range_value(
        outer.max,
    )
}

proof fn lemma_rows_within(own: Seq<Range>, parent: Seq<Range>, n: int, k: int)
    requires
        parent.len() > 0,
        0 <= n <= own.len(),
        forall|i: int| 0 <= i < own.len() ==> numeric_range(#[trigger] own[i]),
        forall|i: int| 0 <= i < parent.len() ==> numeric_range(#[trigger] parent[i]),
        0 <= k < spec_rows(own, parent, n).len(),
    ensures
        numeric_range(spec_rows(own, parent, n)[k]),
        range_value(spec_rows(own, parent, n)[k].min) <= range_value(spec_rows(own, parent, n)[k].max),
        exists|i: int| 0 <= i < own.len() && within(spec_rows(own, parent, n)[k], #[trigger] own[i]),
        exists|j: int|
            0 <= j < parent.len() && within(spec_rows(own, parent, n)[k], #[trigger] parent[j]),
    decreases n,
{
    let prev = spec_rows(own, parent, n - 1);
    if k < prev.len() {
        lemma_rows_within(own, parent, n - 1, k);
        assert(spec_rows(own, parent, n)[k] == prev[k]);
    } else {
        let row = spec_row(own[n - 1], parent, parent.len() as int);
        assert(spec_rows(own, parent, n)[k] == row[k - prev.len()]);
        lemma_row_within(own[n - 1], parent, parent.len() as int, k - prev.len());
    }
}

proof fn lemma_row_within(child: Range, parent: Seq<Range>, m: int, k: int)
    requires
        0 <= m <= parent.len(),
        numeric_range(child),
        forall|i: int| 0 <= i < parent.len() ==> numeric_range(#[trigger] parent[i]),
        0 <= k < spec_row(child, parent, m).len(),
    ensures
        numeric_range(spec_row(child, parent, m)[k]),
        range_value(spec_row(child, parent, m)[k].min) <= range_value(spec_row(child, parent, m)[k].max),
        within(spec_row(child, parent, m)[k], child),
        exists|j: int| 0 <= j < parent.len() && within(spec_row(child, parent, m)[k], #[trigger] parent[j]),
    decreases m,
{
    let prev = spec_row(child, parent, m - 1);
    if k < prev.len() {
        lemma_row_within(child, parent, m - 1, k);
        assert(spec_row(child, parent, m)[k] == prev[k]);
    } else {
        let idx = m - 1;
        let alt = parent[idx];
        assert(numeric_range(alt));
        assert(spec_row(child, parent, m)[k] == spec_pair(child, parent, idx)[k - prev.len()]);
        assert(within(spec_row(child, parent, m)[k], parent[idx]));
    }
}

/// Where the foundation modules give a well-known type name an application
/// tag, the base type found for that name is the tag's base type.
#[verifier::rlimit(60)]
pub proof fn lemma_base_type_agrees_with_foundation(name: Seq<char>)
    ensures
        spec_foundation_base_type(name) matches Some(b) ==> spec_base_type_from_name(name) == b,
{
    reveal_strlit("BITS");
    reveal_strlit("Counter");
    reveal_strlit("Counter32");
    reveal_strlit("Counter64");
    reveal_strlit("Gauge");
    reveal_strlit("Gauge32");
    reveal_strlit("INTEGER");
    reveal_strlit("Integer32");
    reveal_strlit("IpAddress");
    reveal_strlit("NetworkAddress");
    reveal_strlit("NotificationName");
    reveal_strlit("OBJECT IDENTIFIER");
    reveal_strlit("OCTET STRING");
    reveal_strlit("ObjectName");
    reveal_strlit("Opaque");
    reveal_strlit("TimeTicks");
    reveal_strlit("Unsigned32");
    if name == "Integer32"@ {
        assert("Integer32"@.len() == 9);
        assert("Integer32"@[0] == 'I');
        assert("Integer32"@[1] == 'n');
        assert("Integer32"@[2] == 't');
        assert("Integer32"@[3] == 'e');
        assert("Integer32"@[4] == 'g');
        assert("Integer32"@[5] == 'e');
        assert("Integer32"@[6] == 'r');
        assert("Integer32"@[7] == '3');
        assert("Integer32"@[8] == '2');
    }
    if name == "Counter"@ {
        assert("Counter"@.len() == 7);
        assert("Counter"@[0] == 'C');
        assert("Counter"@[1] == 'o');
        assert("Counter"@[2] == 'u');
        assert("Counter"@[3] == 'n');
        assert("Counter"@[4] == 't');
        assert("Counter"@[5] == 'e');
        assert("Counter"@[6] == 'r');
    }
    if name == "Counter32"@ {
        assert("Counter32"@.len() == 9);
        assert("Counter32"@[0] == 'C');
        assert("Counter32"@[1] == 'o');
        assert("Counter32"@[2] == 'u');
        assert("Counter32"@[3] == 'n');
        assert("Counter32"@[4] == 't');
        assert("Counter32"@[5] == 'e');
        assert("Counter32"@[6] == 'r');
        assert("Counter32"@[7] == '3');
        assert("Counter32"@[8] == '2');
    }
    if name == "Counter64"@ {
        assert("Counter64"@.len() == 9);
        assert("Counter64"@[0] == 'C');
        assert("Counter64"@[1] == 'o');
        assert("Counter64"@[2] == 'u');
        assert("Counter64"@[3] == 'n');
        assert("Counter64"@[4] == 't');
        assert("Counter64"@[5] == 'e');
        assert("Counter64"@[6] == 'r');
        assert("Counter64"@[7] == '6');
        assert("Counter64"@[8] == '4');
    }
    if name == "Gauge"@ {
        assert("Gauge"@.len() == 5);
        assert("Gauge"@[0] == 'G');
        assert("Gauge"@[1] == 'a');
        assert("Gauge"@[2] == 'u');
        assert("Gauge"@[3] == 'g');
        assert("Gauge"@[4] == 'e');
    }
    if name == "Gauge32"@ {
        assert("Gauge32"@.len() == 7);
        assert("Gauge32"@[0] == 'G');
        assert("Gauge32"@[1] == 'a');
        assert("Gauge32"@[2] == 'u');
        assert("Gauge32"@[3] == 'g');
        assert("Gauge32"@[4] == 'e');
        assert("Gauge32"@[5] == '3');
        assert("Gauge32"@[6] == '2');
    }
    if name == "Unsigned32"@ {
        assert("Unsigned32"@.len() == 10);
        assert("Unsigned32"@[0] == 'U');
        assert("Unsigned32"@[1] == 'n');
        assert("Unsigned32"@[2] == 's');
        assert("Unsigned32"@[3] == 'i');
        assert("Unsigned32"@[4] == 'g');
        assert("Unsigned32"@[5] == 'n');
        assert("Unsigned32"@[6] == 'e');
        assert("Unsigned32"@[7] == 'd');
        assert("Unsigned32"@[8] == '3');
        assert("Unsigned32"@[9] == '2');
    }
    if name == "TimeTicks"@ {
        assert("TimeTicks"@.len() == 9);
        assert("TimeTicks"@[0] == 'T');
        assert("TimeTicks"@[1] == 'i');
        assert("TimeTicks"@[2] == 'm');
        assert("TimeTicks"@[3] == 'e');
        assert("TimeTicks"@[4] == 'T');
        assert("TimeTicks"@[5] == 'i');
        assert("TimeTicks"@[6] == 'c');
        assert("TimeTicks"@[7] == 'k');
        assert("TimeTicks"@[8] == 's');
    }
    if name == "IpAddress"@ {
        assert("IpAddress"@.len() == 9);
        assert("IpAddress"@[0] == 'I');
        assert("IpAddress"@[1] == 'p');
        assert("IpAddress"@[2] == 'A');
        assert("IpAddress"@[3] == 'd');
        assert("IpAddress"@[4] == 'd');
        assert("IpAddress"@[5] == 'r');
        assert("IpAddress"@[6] == 'e');
        assert("IpAddress"@[7] == 's');
        assert("IpAddress"@[8] == 's');
    }
    if name == "NetworkAddress"@ {
        assert("NetworkAddress"@.len() == 14);
        assert("NetworkAddress"@[0] == 'N');
        assert("NetworkAddress"@[1] == 'e');
        assert("NetworkAddress"@[2] == 't');
        assert("NetworkAddress"@[3] == 'w');
        assert("NetworkAddress"@[4] == 'o');
        assert("NetworkAddress"@[5] == 'r');
        assert("NetworkAddress"@[6] == 'k');
        assert("NetworkAddress"@[7] == 'A');
        assert("NetworkAddress"@[8] == 'd');
        assert("NetworkAddress"@[9] == 'd');
        assert("NetworkAddress"@[10] == 'r');
        assert("NetworkAddress"@[11] == 'e');
        assert("NetworkAddress"@[12] == 's');
        assert("NetworkAddress"@[13] == 's');
    }
    if name == "Opaque"@ {
        assert("Opaque"@.len() == 6);
        assert("Opaque"@[0] == 'O');
        assert("Opaque"@[1] == 'p');
        assert("Opaque"@[2] == 'a');
        assert("Opaque"@[3] == 'q');
        assert("Opaque"@[4] == 'u');
        assert("Opaque"@[5] == 'e');
    }
}

/// The SMIv2 application type names, with Integer32.
pub open spec fn spec_is_smiv2_type_name(name: Seq<char>) -> bool {
    name == "Integer32"@ || name == "Counter32"@ || name == "Counter64"@ || name == "Gauge32"@ || name == "Unsigned32"@ || name == "TimeTicks"@ || name == "IpAddress"@ || name == "Opaque"@
}

/// Distinct SMIv2 type names map to distinct base types, none of them
/// unknown.
pub proof fn lemma_smiv2_type_names_distinct(n1: Seq<char>, n2: Seq<char>)
    requires
        spec_is_smiv2_type_name(n1),
        spec_is_smiv2_type_name(n2),
    ensures
        spec_base_type_from_name(n1) != BaseType::Unknown,
        n1 != n2 ==> spec_base_type_from_name(n1) != spec_base_type_from_name(n2),
{
    lemma_base_type_agrees_with_foundation(n1);
    lemma_base_type_agrees_with_foundation(n2);
    lemma_foundation_names_distinct(n1, n2);
}

proof fn lemma_foundation_names_distinct(n1: Seq<char>, n2: Seq<char>)
    requires
        spec_is_smiv2_type_name(n1),
        spec_is_smiv2_type_name(n2),
    ensures
        spec_foundation_base_type(n1) is Some,
        spec_foundation_base_type(n2) is Some,
        n1 != n2 ==> spec_foundation_base_type(n1) != spec_foundation_base_type(n2),
{
    reveal_strlit("BITS");
    reveal_strlit("Counter");
    reveal_strlit("Counter32");
    reveal_strlit("Counter64");
    reveal_strlit("Gauge");
    reveal_strlit("Gauge32");
    reveal_strlit("INTEGER");
    reveal_strlit("Integer32");
    reveal_strlit("IpAddress");
    reveal_strlit("NetworkAddress");
    reveal_strlit("NotificationName");
    reveal_strlit("OBJECT IDENTIFIER");
    reveal_strlit("OCTET STRING");
    reveal_strlit("ObjectName");
    reveal_strlit("Opaque");
    reveal_strlit("TimeTicks");
    reveal_strlit("Unsigned32");
    if n1 == "Integer32"@ {
        assert("Integer32"@.len() == 9);
        assert("Integer32"@[0] == 'I');
        assert("Integer32"@[1] == 'n');
        assert("Integer32"@[2] == 't');
        assert("Integer32"@[3] == 'e');
        assert("Integer32"@[4] == 'g');
        assert("Integer32"@[5] == 'e');
        assert("Integer32"@[6] == 'r');
        assert("Integer32"@[7] == '3');
        assert("Integer32"@[8] == '2');
    }
    if n1 == "Counter"@ {
        assert("Counter"@.len() == 7);
        assert("Counter"@[0] == 'C');
        assert("Counter"@[1] == 'o');
        assert("Counter"@[2] == 'u');
        assert("Counter"@[3] == 'n');
        assert("Counter"@[4] == 't');
        assert("Counter"@[5] == 'e');
        assert("Counter"@[6] == 'r');
    }
    if n1 == "Counter32"@ {
        assert("Counter32"@.len() == 9);
        assert("Counter32"@[0] == 'C');
        assert("Counter32"@[1] == 'o');
        assert("Counter32"@[2] == 'u');
        assert("Counter32"@[3] == 'n');
        assert("Counter32"@[4] == 't');
        assert("Counter32"@[5] == 'e');
        assert("Counter32"@[6] == 'r');
        assert("Counter32"@[7] == '3');
        assert("Counter32"@[8] == '2');
    }
    if n1 == "Counter64"@ {
        assert("Counter64"@.len() == 9);
        assert("Counter64"@[0] == 'C');
        assert("Counter64"@[1] == 'o');
        assert("Counter64"@[2] == 'u');
        assert("Counter64"@[3] == 'n');
        assert("Counter64"@[4] == 't');
        assert("Counter64"@[5] == 'e');
        assert("Counter64"@[6] == 'r');
        assert("Counter64"@[7] == '6');
        assert("Counter64"@[8] == '4');
    }
    if n1 == "Gauge"@ {
        assert("Gauge"@.len() == 5);
        assert("Gauge"@[0] == 'G');
        assert("Gauge"@[1] == 'a');
        assert("Gauge"@[2] == 'u');
        assert("Gauge"@[3] == 'g');
        assert("Gauge"@[4] == 'e');
    }
    if n1 == "Gauge32"@ {
        assert("Gauge32"@.len() == 7);
        assert("Gauge32"@[0] == 'G');
        assert("Gauge32"@[1] == 'a');
        assert("Gauge32"@[2] == 'u');
        assert("Gauge32"@[3] == 'g');
        assert("Gauge32"@[4] == 'e');
        assert("Gauge32"@[5] == '3');
        assert("Gauge32"@[6] == '2');
    }
    if n1 == "Unsigned32"@ {
        assert("Unsigned32"@.len() == 10);
        assert("Unsigned32"@[0] == 'U');
        assert("Unsigned32"@[1] == 'n');
        assert("Unsigned32"@[2] == 's');
        assert("Unsigned32"@[3] == 'i');
        assert("Unsigned32"@[4] == 'g');
        assert("Unsigned32"@[5] == 'n');
        assert("Unsigned32"@[6] == 'e');
        assert("Unsigned32"@[7] == 'd');
        assert("Unsigned32"@[8] == '3');
        assert("Unsigned32"@[9] == '2');
    }
    if n1 == "TimeTicks"@ {
        assert("TimeTicks"@.len() == 9);
        assert("TimeTicks"@[0] == 'T');
        assert("TimeTicks"@[1] == 'i');
        assert("TimeTicks"@[2] == 'm');
        assert("TimeTicks"@[3] == 'e');
        assert("TimeTicks"@[4] == 'T');
        assert("TimeTicks"@[5] == 'i');
        assert("TimeTicks"@[6] == 'c');
        assert("TimeTicks"@[7] == 'k');
        assert("TimeTicks"@[8] == 's');
    }
    if n1 == "IpAddress"@ {
        assert("IpAddress"@.len() == 9);
        assert("IpAddress"@[0] == 'I');
        assert("IpAddress"@[1] == 'p');
        assert("IpAddress"@[2] == 'A');
        assert("IpAddress"@[3] == 'd');
        assert("IpAddress"@[4] == 'd');
        assert("IpAddress"@[5] == 'r');
        assert("IpAddress"@[6] == 'e');
        assert("IpAddress"@[7] == 's');
        assert("IpAddress"@[8] == 's');
    }
    if n1 == "NetworkAddress"@ {
        assert("NetworkAddress"@.len() == 14);
        assert("NetworkAddress"@[0] == 'N');
        assert("NetworkAddress"@[1] == 'e');
        assert("NetworkAddress"@[2] == 't');
        assert("NetworkAddress"@[3] == 'w');
        assert("NetworkAddress"@[4] == 'o');
        assert("NetworkAddress"@[5] == 'r');
        assert("NetworkAddress"@[6] == 'k');
        assert("NetworkAddress"@[7] == 'A');
        assert("NetworkAddress"@[8] == 'd');
        assert("NetworkAddress"@[9] == 'd');
        assert("NetworkAddress"@[10] == 'r');
        assert("NetworkAddress"@[11] == 'e');
        assert("NetworkAddress"@[12] == 's');
        assert("NetworkAddress"@[13] == 's');
    }
    if n1 == "Opaque"@ {
        assert("Opaque"@.len() == 6);
        assert("Opaque"@[0] == 'O');
        assert("Opaque"@[1] == 'p');
        assert("Opaque"@[2] == 'a');
        assert("Opaque"@[3] == 'q');
        assert("Opaque"@[4] == 'u');
        assert("Opaque"@[5] == 'e');
    }
    if n2 == "Integer32"@ {
        assert("Integer32"@.len() == 9);
        assert("Integer32"@[0] == 'I');
        assert("Integer32"@[1] == 'n');
        assert("Integer32"@[2] == 't');
        assert("Integer32"@[3] == 'e');
        assert("Integer32"@[4] == 'g');
        assert("Integer32"@[5] == 'e');
        assert("Integer32"@[6] == 'r');
        assert("Integer32"@[7] == '3');
        assert("Integer32"@[8] == '2');
    }
    if n2 == "Counter"@ {
        assert("Counter"@.len() == 7);
        assert("Counter"@[0] == 'C');
        assert("Counter"@[1] == 'o');
        assert("Counter"@[2] == 'u');
        assert("Counter"@[3] == 'n');
        assert("Counter"@[4] == 't');
        assert("Counter"@[5] == 'e');
        assert("Counter"@[6] == 'r');
    }
    if n2 == "Counter32"@ {
        assert("Counter32"@.len() == 9);
        assert("Counter32"@[0] == 'C');
        assert("Counter32"@[1] == 'o');
        assert("Counter32"@[2] == 'u');
        assert("Counter32"@[3] == 'n');
        assert("Counter32"@[4] == 't');
        assert("Counter32"@[5] == 'e');
        assert("Counter32"@[6] == 'r');
        assert("Counter32"@[7] == '3');
        assert("Counter32"@[8] == '2');
    }
    if n2 == "Counter64"@ {
        assert("Counter64"@.len() == 9);
        assert("Counter64"@[0] == 'C');
        assert("Counter64"@[1] == 'o');
        assert("Counter64"@[2] == 'u');
        assert("Counter64"@[3] == 'n');
        assert("Counter64"@[4] == 't');
        assert("Counter64"@[5] == 'e');
        assert("Counter64"@[6] == 'r');
        assert("Counter64"@[7] == '6');
        assert("Counter64"@[8] == '4');
    }
    if n2 == "Gauge"@ {
        assert("Gauge"@.len() == 5);
        assert("Gauge"@[0] == 'G');
        assert("Gauge"@[1] == 'a');
        assert("Gauge"@[2] == 'u');
        assert("Gauge"@[3] == 'g');
        assert("Gauge"@[4] == 'e');
    }
    if n2 == "Gauge32"@ {
        assert("Gauge32"@.len() == 7);
        assert("Gauge32"@[0] == 'G');
        assert("Gauge32"@[1] == 'a');
        assert("Gauge32"@[2] == 'u');
        assert("Gauge32"@[3] == 'g');
        assert("Gauge32"@[4] == 'e');
        assert("Gauge32"@[5] == '3');
        assert("Gauge32"@[6] == '2');
    }
    if n2 == "Unsigned32"@ {
        assert("Unsigned32"@.len() == 10);
        assert("Unsigned32"@[0] == 'U');
        assert("Unsigned32"@[1] == 'n');
        assert("Unsigned32"@[2] == 's');
        assert("Unsigned32"@[3] == 'i');
        assert("Unsigned32"@[4] == 'g');
        assert("Unsigned32"@[5] == 'n');
        assert("Unsigned32"@[6] == 'e');
        assert("Unsigned32"@[7] == 'd');
        assert("Unsigned32"@[8] == '3');
        assert("Unsigned32"@[9] == '2');
    }
    if n2 == "TimeTicks"@ {
        assert("TimeTicks"@.len() == 9);
        assert("TimeTicks"@[0] == 'T');
        assert("TimeTicks"@[1] == 'i');
        assert("TimeTicks"@[2] == 'm');
        assert("TimeTicks"@[3] == 'e');
        assert("TimeTicks"@[4] == 'T');
        assert("TimeTicks"@[5] == 'i');
        assert("TimeTicks"@[6] == 'c');
        assert("TimeTicks"@[7] == 'k');
        assert("TimeTicks"@[8] == 's');
    }
    if n2 == "IpAddress"@ {
        assert("IpAddress"@.len() == 9);
        assert("IpAddress"@[0] == 'I');
        assert("IpAddress"@[1] == 'p');
        assert("IpAddress"@[2] == 'A');
        assert("IpAddress"@[3] == 'd');
        assert("IpAddress"@[4] == 'd');
        assert("IpAddress"@[5] == 'r');
        assert("IpAddress"@[6] == 'e');
        assert("IpAddress"@[7] == 's');
        assert("IpAddress"@[8] == 's');
    }
    if n2 == "NetworkAddress"@ {
        assert("NetworkAddress"@.len() == 14);
        assert("NetworkAddress"@[0] == 'N');
        assert("NetworkAddress"@[1] == 'e');
        assert("NetworkAddress"@[2] == 't');
        assert("NetworkAddress"@[3] == 'w');
        assert("NetworkAddress"@[4] == 'o');
        assert("NetworkAddress"@[5] == 'r');
        assert("NetworkAddress"@[6] == 'k');
        assert("NetworkAddress"@[7] == 'A');
        assert("NetworkAddress"@[8] == 'd');
        assert("NetworkAddress"@[9] == 'd');
        assert("NetworkAddress"@[10] == 'r');
        assert("NetworkAddress"@[11] == 'e');
        assert("NetworkAddress"@[12] == 's');
        assert("NetworkAddress"@[13] == 's');
    }
    if n2 == "Opaque"@ {
        assert("Opaque"@.len() == 6);
        assert("Opaque"@[0] == 'O');
        assert("Opaque"@[1] == 'p');
        assert("Opaque"@[2] == 'a');
        assert("Opaque"@[3] == 'q');
        assert("Opaque"@[4] == 'u');
        assert("Opaque"@[5] == 'e');
    }
}

/// Every type name that can stand bare in an INDEX clause has a known base
/// type.
pub proof fn lemma_bare_index_types_have_base(name: Seq<char>)
    ensures
        crate::mib::resolver::rules::spec_is_bare_index_type(name) ==> spec_base_type_from_name(name)
            != BaseType::Unknown,
{
}

/// Every foundation type that has a standard description has a known base
/// type.
pub proof fn lemma_described_types_have_base(name: Seq<char>)
    ensures
        spec_foundation_type_description(name) is Some ==> spec_base_type_from_name(name)
            != BaseType::Unknown,
{
}

} // verus!
