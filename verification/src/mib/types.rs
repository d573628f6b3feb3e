//! Shared types used across the resolved MIB model.
//!
//! Contains arena id newtypes ([`NodeId`], [`ObjectId`], [`TypeId`], etc.),
//! supporting data structures ([`Range`], [`NamedValue`], [`DefVal`],
//! [`IndexEntry`]), and SMI clause representations used by compliance and
//! capability definitions.

use vstd::prelude::*;

use crate::mib::oid::Oid;
use crate::text::{
    ascii_chars, concat3, dec_bytes, decimal_string, replace_all, replace_str, signed_dec_chars,
    signed_decimal_string, str_equal, string_from_ascii,
};
use crate::types::{Access, BaseType, IndexEncoding, Span};

verus! {

/// A single imported symbol with its source location.
#[derive(Debug, Clone)]
pub struct ImportSymbol {
    /// The symbol name as it appears in the IMPORTS clause.
    pub name: String,
    /// Source location of this symbol reference.
    pub span: Span,
}

/// A group of symbols imported from a single source module.
#[derive(Debug, Clone)]
pub struct Import {
    /// Name of the module being imported from.
    pub module: String,
    /// Symbols imported from this module.
    pub symbols: Vec<ImportSymbol>,
}

/// An endpoint in a resolved SIZE or value range constraint.
///
/// Signed and unsigned literals remain distinct so values above `i64::MAX`
/// are represented exactly. `MIN` and `MAX` are retained when no parent or
/// base-type bound is available to give them a concrete value. Malformed or
/// unsupported literals retain their source text in `Raw`.
#[derive(Debug, Clone, Hash)]
pub enum RangeBound {
    /// A signed integer literal.
    Signed(i64),
    /// An unsigned integer literal.
    Unsigned(u64),
    /// The `MIN` keyword.
    Min,
    /// The `MAX` keyword.
    Max,
    /// An unresolved endpoint preserving its source text.
    Raw(String),
}

/// The number a concrete endpoint stands for.
pub open spec fn bound_value(b: RangeBound) -> Option<int> {
    match b {
        RangeBound::Signed(v) => Some(v as int),
        RangeBound::Unsigned(v) => Some(v as int),
        _ => None,
    }
}

/// How two endpoints compare: `-1`, `0` or `1`, with `MIN` below and `MAX`
/// above every other endpoint; `None` when either is raw text.
pub open spec fn bound_order(a: RangeBound, b: RangeBound) -> Option<int> {
    match (a, b) {
        (RangeBound::Raw(_), _) => None,
        (_, RangeBound::Raw(_)) => None,
        (RangeBound::Min, RangeBound::Min) => Some(0),
        (RangeBound::Max, RangeBound::Max) => Some(0),
        (RangeBound::Min, _) => Some(-1),
        (_, RangeBound::Max) => Some(-1),
        (RangeBound::Max, _) => Some(1),
        (_, RangeBound::Min) => Some(1),
        _ => {
            let x = bound_value(a)->0;
            let y = bound_value(b)->0;
            Some(
                if x < y {
                    -1
                } else if x == y {
                    0
                } else {
                    1
                },
            )
        },
    }
}

/// Two endpoints are the same: same variant and same value or text.
pub open spec fn same_bound(a: RangeBound, b: RangeBound) -> bool {
    match (a, b) {
        (RangeBound::Signed(x), RangeBound::Signed(y)) => x == y,
        (RangeBound::Unsigned(x), RangeBound::Unsigned(y)) => x == y,
        (RangeBound::Min, RangeBound::Min) => true,
        (RangeBound::Max, RangeBound::Max) => true,
        (RangeBound::Raw(x), RangeBound::Raw(y)) => x@ == y@,
        _ => false,
    }
}

impl PartialEq for RangeBound {
    fn eq(&self, other: &Self) -> (r: bool) {
        match (self, other) {
            (RangeBound::Signed(x), RangeBound::Signed(y)) => *x == *y,
            (RangeBound::Unsigned(x), RangeBound::Unsigned(y)) => *x == *y,
            (RangeBound::Min, RangeBound::Min) => true,
            (RangeBound::Max, RangeBound::Max) => true,
            (RangeBound::Raw(x), RangeBound::Raw(y)) => str_equal(x.as_str(), y.as_str()),
            _ => false,
        }
    }
}

impl vstd::std_specs::cmp::PartialEqSpecImpl for RangeBound {
    open spec fn obeys_eq_spec() -> bool {
        true
    }

    open spec fn eq_spec(&self, other: &Self) -> bool {
        same_bound(*self, *other)
    }
}

impl Eq for RangeBound {

}

impl RangeBound {
    /// Return the endpoint as `i64` when it is concrete and representable.
    pub fn as_i64(&self) -> (r: Option<i64>)
        ensures
            r == (match bound_value(*self) {
                Some(v) => if i64::MIN <= v <= i64::MAX {
                    Some(v as i64)
                } else {
                    None
                },
                None => None,
            }),
    {
        match self {
            RangeBound::Signed(value) => Some(*value),
            RangeBound::Unsigned(value) => if *value <= 9223372036854775807 {
                Some(*value as i64)
            } else {
                None
            },
            RangeBound::Min | RangeBound::Max | RangeBound::Raw(_) => None,
        }
    }

    /// Return the endpoint as `u64` when it is concrete and non-negative.
    pub fn as_u64(&self) -> (r: Option<u64>)
        ensures
            r == (match bound_value(*self) {
                Some(v) => if 0 <= v <= u64::MAX {
                    Some(v as u64)
                } else {
                    None
                },
                None => None,
            }),
    {
        match self {
            RangeBound::Signed(value) => if *value >= 0 {
                Some(*value as u64)
            } else {
                None
            },
            RangeBound::Unsigned(value) => Some(*value),
            RangeBound::Min | RangeBound::Max | RangeBound::Raw(_) => None,
        }
    }

    /// Return whether the endpoint is a signed or unsigned number.
    pub fn is_concrete(&self) -> (r: bool)
        ensures
            r == bound_value(*self) is Some,
    {
        matches!(self, RangeBound::Signed(_) | RangeBound::Unsigned(_))
    }

    /// Compare two endpoints as `-1`, `0` or `1`; `None` when either is raw
    /// text.
    pub fn order(&self, other: &Self) -> (r: Option<i8>)
        ensures
            r matches Some(x) ==> bound_order(*self, *other) == Some(x as int),
            r is None ==> bound_order(*self, *other) is None,
    {
        match (self, other) {
            (RangeBound::Raw(_), _) | (_, RangeBound::Raw(_)) => None,
            (RangeBound::Min, RangeBound::Min) | (RangeBound::Max, RangeBound::Max) => Some(0),
            (RangeBound::Min, _) | (_, RangeBound::Max) => Some(-1),
            (RangeBound::Max, _) | (_, RangeBound::Min) => Some(1),
            (RangeBound::Signed(left), RangeBound::Signed(right)) => Some(sign_of_difference(*left < *right, *left == *right)),
            (RangeBound::Unsigned(left), RangeBound::Unsigned(right)) => Some(sign_of_difference(*left < *right, *left == *right)),
            (RangeBound::Signed(left), RangeBound::Unsigned(right)) => Some(
                if *left < 0 {
                    -1
                } else {
                    sign_of_difference((*left as u64) < *right, (*left as u64) == *right)
                },
            ),
            (RangeBound::Unsigned(left), RangeBound::Signed(right)) => Some(
                if *right < 0 {
                    1
                } else {
                    sign_of_difference(*left < (*right as u64), *left == (*right as u64))
                },
            ),
        }
    }

    /// Compare two endpoints; `None` when either is raw text.
    pub fn cmp_value(&self, other: &Self) -> (r: Option<std::cmp::Ordering>)
        ensures
            r matches Some(o) ==> bound_order(*self, *other) == Some(ordering_sign(o)),
            r is None ==> bound_order(*self, *other) is None,
    {
        match self.order(other) {
            Some(x) => {
                if x < 0 {
                    Some(std::cmp::Ordering::Less)
                } else if x == 0 {
                    Some(std::cmp::Ordering::Equal)
                } else {
                    Some(std::cmp::Ordering::Greater)
                }
            },
            None => None,
        }
    }
}

/// The sign of an ordering: `-1`, `0` or `1`.
pub open spec fn ordering_sign(o: std::cmp::Ordering) -> int {
    match o {
        std::cmp::Ordering::Less => -1,
        std::cmp::Ordering::Equal => 0,
        std::cmp::Ordering::Greater => 1,
    }
}

fn sign_of_difference(less: bool, equal: bool) -> (r: i8)
    ensures
        r == (if less {
            -1int
        } else if equal {
            0int
        } else {
            1int
        }),
{
    if less {
        -1
    } else if equal {
        0
    } else {
        1
    }
}

/// The endpoint order is antisymmetric: swapping the two endpoints negates
/// the comparison, and an endpoint is equal to itself unless it is raw text.
pub proof fn lemma_bound_order_antisymmetric(a: RangeBound, b: RangeBound)
    ensures
        bound_order(a, b) matches Some(x) ==> bound_order(b, a) == Some(-x),
        bound_order(a, b) is None ==> bound_order(b, a) is None,
        !(a is Raw) ==> bound_order(a, a) == Some(0int),
{
}

/// The endpoint order is transitive.
pub proof fn lemma_bound_order_transitive(a: RangeBound, b: RangeBound, c: RangeBound)
    requires
        bound_order(a, b) matches Some(x) && x <= 0,
        bound_order(b, c) matches Some(y) && y <= 0,
    ensures
        bound_order(a, c) matches Some(z) && z <= 0,
{
}

/// A min..max constraint range, used for both SIZE and value constraints.
///
/// For single-value constraints (e.g. `SIZE (6)`), `min` equals `max`.
#[derive(Debug, Clone, PartialEq, Eq)]
pub struct Range {
    /// Lower bound (inclusive).
    pub min: RangeBound,
    /// Upper bound (inclusive). Equal to `min` for single-value ranges.
    pub max: RangeBound,
    /// Source location of this constraint.
    pub span: Span,
}

/// `value` lies inside `r`: `min <= value <= max` in the endpoint order.
pub open spec fn range_admits(r: Range, value: RangeBound) -> bool {
    &&& bound_order(r.min, value) matches Some(x) && x <= 0
    &&& bound_order(r.max, value) matches Some(y) && y >= 0
}

impl Range {
    /// Return whether both endpoints are concrete numeric values.
    pub fn is_resolved(&self) -> (r: bool)
        ensures
            r == (bound_value(self.min) is Some && bound_value(self.max) is Some),
    {
        self.min.is_concrete() && self.max.is_concrete()
    }

    /// Return whether the signed value lies inside this range.
    pub fn contains_i64(&self, value: i64) -> (r: bool)
        ensures
            r == range_admits(*self, RangeBound::Signed(value)),
    {
        let v = RangeBound::Signed(value);
        let low = match self.min.order(&v) {
            Some(x) => x <= 0,
            None => false,
        };
        let high = match self.max.order(&v) {
            Some(x) => x >= 0,
            None => false,
        };
        low && high
    }

    /// Return whether the unsigned value lies inside this range.
    pub fn contains_u64(&self, value: u64) -> (r: bool)
        ensures
            r == range_admits(*self, RangeBound::Unsigned(value)),
    {
        let v = RangeBound::Unsigned(value);
        let low = match self.min.order(&v) {
            Some(x) => x <= 0,
            None => false,
        };
        let high = match self.max.order(&v) {
            Some(x) => x >= 0,
            None => false,
        };
        low && high
    }
}

/// A labeled integer from an enumeration or BITS definition.
#[derive(Debug, Clone)]
pub struct NamedValue {
    /// The textual label.
    pub label: String,
    /// The integer value associated with this label.
    pub value: i64,
    /// Source location of this named value.
    pub span: Span,
}

/// Find the first named value with the given label.
pub fn find_named_value<'a>(values: &'a [NamedValue], label: &str) -> (r: Option<
    &'a NamedValue,
>)
    ensures
        match r {
            Some(v) => exists|i: int|
                0 <= i < values@.len() && values@[i] == *v && v.label@ == label@ && forall|j: int|
                    0 <= j < i ==> values@[j].label@ != label@,
            None => forall|i: int| 0 <= i < values@.len() ==> values@[i].label@ != label@,
        },
{
    let mut i: usize = 0;
    while i < values.len()
        invariant
            0 <= i <= values@.len(),
            forall|j: int| 0 <= j < i ==> values@[j].label@ != label@,
        decreases values@.len() - i,
    {
        if str_equal(values[i].label.as_str(), label) {
            return Some(&values[i]);
        }
        i = i + 1;
    }
    None
}

/// A module revision entry from a MODULE-IDENTITY REVISION clause.
#[derive(Debug, Clone)]
pub struct Revision {
    /// Revision timestamp string.
    pub date: String,
    /// Free-text description of what changed.
    pub description: String,
    /// Source location of this revision clause.
    pub span: Span,
}

/// An index component from a table row's INDEX clause.
#[derive(Debug, Clone)]
pub struct IndexEntry {
    /// Name of the index object.
    pub name: String,
    /// Resolved object id, if found.
    pub object: Option<ObjectId>,
    /// Resolved type of the index object, if found.
    pub type_id: Option<TypeId>,
    /// True if this index uses the IMPLIED keyword.
    pub implied: bool,
    /// Wire encoding inferred from the index object's type.
    pub encoding: IndexEncoding,
    /// Source location of this index entry.
    pub span: Span,
}

/// A SIZE list that allows exactly one positive length.
pub open spec fn spec_is_fixed_size(sizes: Seq<Range>) -> bool {
    &&& sizes.len() == 1
    &&& same_bound(sizes[0].min, sizes[0].max)
    &&& bound_value(sizes[0].min) matches Some(v) && 0 < v <= u64::MAX
}

/// The index encoding for a base type, IMPLIED flag and SIZE list.
pub open spec fn spec_index_encoding(base: BaseType, implied: bool, sizes: Seq<Range>) -> IndexEncoding {
    match base {
        BaseType::Integer32 | BaseType::Unsigned32 | BaseType::Gauge32 | BaseType::TimeTicks
        | BaseType::Counter32 | BaseType::Counter64 => IndexEncoding::Integer,
        BaseType::IpAddress => IndexEncoding::IpAddress,
        BaseType::OctetString | BaseType::Opaque | BaseType::Bits => if implied {
            IndexEncoding::Implied
        } else if spec_is_fixed_size(sizes) {
            IndexEncoding::FixedString
        } else {
            IndexEncoding::LengthPrefixed
        },
        BaseType::ObjectIdentifier => if implied {
            IndexEncoding::Implied
        } else {
            IndexEncoding::LengthPrefixed
        },
        _ => IndexEncoding::Unknown,
    }
}

/// Classify the index encoding from the object's resolved base type and size constraints.
pub fn classify_index_encoding(base: BaseType, implied: bool, sizes: &[Range]) -> (r:
    IndexEncoding)
    ensures
        r == spec_index_encoding(base, implied, sizes@),
{
    match base {
        BaseType::Integer32 | BaseType::Unsigned32 | BaseType::Gauge32 | BaseType::TimeTicks
        | BaseType::Counter32 | BaseType::Counter64 => IndexEncoding::Integer,
        BaseType::IpAddress => IndexEncoding::IpAddress,
        BaseType::OctetString | BaseType::Opaque | BaseType::Bits => {
            if implied {
                IndexEncoding::Implied
            } else if is_fixed_size(sizes) {
                IndexEncoding::FixedString
            } else {
                IndexEncoding::LengthPrefixed
            }
        },
        BaseType::ObjectIdentifier => {
            if implied {
                IndexEncoding::Implied
            } else {
                IndexEncoding::LengthPrefixed
            }
        },
        _ => IndexEncoding::Unknown,
    }
}

/// Return whether the SIZE list allows exactly one positive length.
pub fn is_fixed_size(sizes: &[Range]) -> (r: bool)
    ensures
        r == spec_is_fixed_size(sizes@),
{
    if sizes.len() != 1 {
        return false;
    }
    if !(sizes[0].min == sizes[0].max) {
        return false;
    }
    match sizes[0].min.as_u64() {
        Some(value) => value > 0,
        None => false,
    }
}

/// Discriminant for the kind of value in a [`DefVal`].
#[derive(Debug, Clone, Copy, PartialEq, Eq, Structural, Hash)]
pub enum DefValKind {
    /// No default value specified.
    Unset,
    /// Signed integer value.
    Int,
    /// Unsigned integer value.
    Uint,
    /// Quoted string value.
    String,
    /// Raw byte sequence (hex string).
    Bytes,
    /// Enumeration label.
    Enum,
    /// Set of BITS labels.
    Bits,
    /// Object identifier value.
    Oid,
}

impl DefValKind {
    /// The lower-case name of the kind.
    pub open spec fn spec_name(self) -> &'static str {
        match self {
            DefValKind::Unset => "unset",
            DefValKind::Int => "int",
            DefValKind::Uint => "uint",
            DefValKind::String => "string",
            DefValKind::Bytes => "bytes",
            DefValKind::Enum => "enum",
            DefValKind::Bits => "bits",
            DefValKind::Oid => "oid",
        }
    }

    /// Return the lower-case name of the kind.
    pub fn as_str(self) -> (s: &'static str)
        ensures
            s == self.spec_name(),
    {
        match self {
            DefValKind::Unset => "unset",
            DefValKind::Int => "int",
            DefValKind::Uint => "uint",
            DefValKind::String => "string",
            DefValKind::Bytes => "bytes",
            DefValKind::Enum => "enum",
            DefValKind::Bits => "bits",
            DefValKind::Oid => "oid",
        }
    }
}

/// A DEFVAL clause value with both the interpreted value and the raw MIB syntax string.
#[derive(Debug)]
pub struct DefVal {
    pub(crate) kind: DefValKind,
    pub(crate) value: DefValValue,
    pub(crate) raw: String,
}

/// The interpreted value of a DEFVAL clause.
#[derive(Debug)]
pub enum DefValValue {
    /// No value.
    NoValue,
    /// Signed integer.
    Int(i64),
    /// Unsigned integer.
    Uint(u64),
    /// Quoted string.
    String(String),
    /// Raw byte sequence.
    Bytes(Vec<u8>),
    /// Enumeration label.
    Enum(String),
    /// Set of BITS labels.
    Bits(Vec<String>),
    /// Object identifier.
    Oid(Oid),
}

/// The kind that a value variant belongs to.
pub open spec fn kind_of_value(v: DefValValue) -> DefValKind {
    match v {
        DefValValue::NoValue => DefValKind::Unset,
        DefValValue::Int(_) => DefValKind::Int,
        DefValValue::Uint(_) => DefValKind::Uint,
        DefValValue::String(_) => DefValKind::String,
        DefValValue::Bytes(_) => DefValKind::Bytes,
        DefValValue::Enum(_) => DefValKind::Enum,
        DefValValue::Bits(_) => DefValKind::Bits,
        DefValValue::Oid(_) => DefValKind::Oid,
    }
}

impl Clone for DefValValue {
    fn clone(&self) -> (r: Self)
        ensures
            kind_of_value(r) == kind_of_value(*self),
    {
        match self {
            DefValValue::NoValue => DefValValue::NoValue,
            DefValValue::Int(v) => DefValValue::Int(*v),
            DefValValue::Uint(v) => DefValValue::Uint(*v),
            DefValValue::String(v) => DefValValue::String(v.clone()),
            DefValValue::Bytes(v) => DefValValue::Bytes(v.clone()),
            DefValValue::Enum(v) => DefValValue::Enum(v.clone()),
            DefValValue::Bits(v) => DefValValue::Bits(v.clone()),
            DefValValue::Oid(v) => DefValValue::Oid(v.clone()),
        }
    }
}

impl Clone for DefVal {
    fn clone(&self) -> (r: Self)
        ensures
            r.spec_kind() == self.spec_kind(),
    {
        proof {
            use_type_invariant(self);
        }
        DefVal { kind: self.kind, value: self.value.clone(), raw: self.raw.clone() }
    }
}

impl DefVal {
    /// The kind always names the variant of the value.
    #[verifier::type_invariant]
    spec fn kind_matches_value(&self) -> bool {
        self.kind == kind_of_value(self.value)
    }

    /// The kind of the value.
    pub closed spec fn spec_kind(&self) -> DefValKind {
        self.kind
    }

    /// The interpreted value.
    pub closed spec fn spec_value(&self) -> DefValValue {
        self.value
    }

    /// The raw syntax as written.
    pub closed spec fn spec_raw(&self) -> Seq<char> {
        self.raw@
    }

    /// Create a default value indicating no value was specified.
    pub fn unset() -> (d: DefVal)
        ensures
            d.spec_kind() == DefValKind::Unset,
            d.spec_value() is NoValue,
            d.spec_raw().len() == 0,
    {
        DefVal { kind: DefValKind::Unset, value: DefValValue::NoValue, raw: String::new() }
    }

    /// Create a signed integer default value.
    pub fn integer(v: i64, raw: String) -> (d: DefVal)
        ensures
            d.spec_kind() == DefValKind::Int,
            d.spec_value() == DefValValue::Int(v),
            d.spec_raw() == raw@,
    {
        DefVal { kind: DefValKind::Int, value: DefValValue::Int(v), raw }
    }

    /// Create an unsigned integer default value.
    pub fn uint(v: u64, raw: String) -> (d: DefVal)
        ensures
            d.spec_kind() == DefValKind::Uint,
            d.spec_value() == DefValValue::Uint(v),
            d.spec_raw() == raw@,
    {
        DefVal { kind: DefValKind::Uint, value: DefValValue::Uint(v), raw }
    }

    /// Create a quoted string default value.
    pub fn string(v: String, raw: String) -> (d: DefVal)
        ensures
            d.spec_kind() == DefValKind::String,
            d.spec_value() == DefValValue::String(v),
            d.spec_raw() == raw@,
    {
        DefVal { kind: DefValKind::String, value: DefValValue::String(v), raw }
    }

    /// Create a raw byte sequence default value (from a hex string).
    pub fn bytes(v: Vec<u8>, raw: String) -> (d: DefVal)
        ensures
            d.spec_kind() == DefValKind::Bytes,
            d.spec_value() == DefValValue::Bytes(v),
            d.spec_raw() == raw@,
    {
        DefVal { kind: DefValKind::Bytes, value: DefValValue::Bytes(v), raw }
    }

    /// Create an enumeration label default value.
    pub fn enumeration(label: String, raw: String) -> (d: DefVal)
        ensures
            d.spec_kind() == DefValKind::Enum,
            d.spec_value() == DefValValue::Enum(label),
            d.spec_raw() == raw@,
    {
        DefVal { kind: DefValKind::Enum, value: DefValValue::Enum(label), raw }
    }

    /// Create a BITS set default value.
    pub fn bits(labels: Vec<String>, raw: String) -> (d: DefVal)
        ensures
            d.spec_kind() == DefValKind::Bits,
            d.spec_value() == DefValValue::Bits(labels),
            d.spec_raw() == raw@,
    {
        DefVal { kind: DefValKind::Bits, value: DefValValue::Bits(labels), raw }
    }

    /// Create an OID default value.
    pub fn oid(oid: Oid, raw: String) -> (d: DefVal)
        ensures
            d.spec_kind() == DefValKind::Oid,
            d.spec_value() == DefValValue::Oid(oid),
            d.spec_raw() == raw@,
    {
        DefVal { kind: DefValKind::Oid, value: DefValValue::Oid(oid), raw }
    }

    /// Return the [`DefValKind`] discriminant.
    pub fn kind(&self) -> (k: DefValKind)
        ensures
            k == self.spec_kind(),
            k == kind_of_value(self.spec_value()),
    {
        proof {
            use_type_invariant(self);
        }
        self.kind
    }

    /// Return the raw MIB syntax string as written in the source.
    pub fn raw(&self) -> (s: &str)
        ensures
            s@ == self.spec_raw(),
    {
        self.raw.as_str()
    }

    /// Return the interpreted [`DefValValue`].
    pub fn value(&self) -> (v: &DefValValue)
        ensures
            *v == self.spec_value(),
    {
        &self.value
    }

    /// Return `true` if no default value was specified.
    pub fn is_unset(&self) -> (r: bool)
        ensures
            r == (self.spec_kind() == DefValKind::Unset),
    {
        self.kind == DefValKind::Unset
    }
}

/// A MODULE clause within a compliance definition.
#[derive(Debug, Clone)]
pub struct ComplianceModule {
    /// Name of the module this clause applies to.
    pub module_name: String,
    /// Groups required for conformance.
    pub mandatory_groups: Vec<String>,
    /// Optional GROUP refinements.
    pub groups: Vec<ComplianceGroup>,
    /// Optional OBJECT refinements.
    pub objects: Vec<ComplianceObject>,
    /// Source location of this MODULE clause.
    pub span: Span,
}

/// A GROUP clause within a [`ComplianceModule`].
#[derive(Debug, Clone)]
pub struct ComplianceGroup {
    /// Name of the conditionally required group.
    pub group: String,
    /// Description of when this group is required.
    pub description: String,
    /// Source location of this GROUP clause.
    pub span: Span,
}

/// An OBJECT refinement within a [`ComplianceModule`].
#[derive(Debug, Clone)]
pub struct ComplianceObject {
    /// Name of the refined object.
    pub object: String,
    /// Restricted SYNTAX, if any.
    pub syntax: Option<SyntaxConstraints>,
    /// Restricted WRITE-SYNTAX, if any.
    pub write_syntax: Option<SyntaxConstraints>,
    /// Minimum required access level, if specified.
    pub min_access: Option<Access>,
    /// Description of the refinement.
    pub description: String,
    /// Source location of this OBJECT clause.
    pub span: Span,
}

/// A SUPPORTS clause within a capabilities definition.
#[derive(Debug, Clone)]
pub struct CapabilitiesModule {
    /// Name of the supported module.
    pub module_name: String,
    /// Groups included from this module.
    pub includes: Vec<String>,
    /// Object VARIATION clauses.
    pub object_variations: Vec<ObjectVariation>,
    /// Notification VARIATION clauses.
    pub notification_variations: Vec<NotificationVariation>,
    /// Source location of this SUPPORTS clause.
    pub span: Span,
}

/// An object VARIATION within a [`CapabilitiesModule`].
#[derive(Debug, Clone)]
pub struct ObjectVariation {
    /// Name of the varied object.
    pub object: String,
    /// Restricted SYNTAX, if any.
    pub syntax: Option<SyntaxConstraints>,
    /// Restricted WRITE-SYNTAX, if any.
    pub write_syntax: Option<SyntaxConstraints>,
    /// Overridden access level, if any.
    pub access: Option<Access>,
    /// Objects required for row creation.
    pub creation_requires: Vec<String>,
    /// Implementation-specific default value, if any.
    pub def_val: Option<DefVal>,
    /// Description of this variation.
    pub description: String,
    /// Source location of this VARIATION clause.
    pub span: Span,
}

/// A notification VARIATION within a [`CapabilitiesModule`].
#[derive(Debug, Clone)]
pub struct NotificationVariation {
    /// Name of the varied notification.
    pub notification: String,
    /// Overridden access level, if any.
    pub access: Option<Access>,
    /// Description of this variation.
    pub description: String,
    /// Source location of this VARIATION clause.
    pub span: Span,
}

/// Inline syntax constraints from a VARIATION SYNTAX/WRITE-SYNTAX clause
/// or a MODULE-COMPLIANCE OBJECT refinement.
#[derive(Debug, Clone)]
pub struct SyntaxConstraints {
    /// Resolved type, if any.
    pub type_id: Option<TypeId>,
    /// Effective SIZE constraints after intersection with the resolved type.
    pub sizes: Vec<Range>,
    /// SIZE constraints declared directly in this syntax clause.
    pub declared_sizes: Vec<Range>,
    /// Whether a SIZE constraint was explicitly declared.
    pub sizes_constrained: bool,
    /// Effective value range constraints after intersection with the resolved type.
    pub ranges: Vec<Range>,
    /// Value range constraints declared directly in this syntax clause.
    pub declared_ranges: Vec<Range>,
    /// Whether a value range constraint was explicitly declared.
    pub ranges_constrained: bool,
    /// Restricted enumeration values.
    pub enums: Vec<NamedValue>,
    /// Restricted BITS values.
    pub bits: Vec<NamedValue>,
}

/// SMIv1 TRAP-TYPE specific fields.
#[derive(Debug, Clone)]
pub struct TrapInfo {
    /// ENTERPRISE OID name from the TRAP-TYPE definition.
    pub enterprise: String,
    /// Numeric trap identifier (the specific-trap number).
    pub trap_number: u32,
}

/// Identifies the category of an unresolved reference.
#[derive(Debug, Clone, Copy, PartialEq, Eq, Structural, Hash)]
pub enum UnresolvedKind {
    /// An unresolved IMPORTS symbol.
    Import,
    /// An unresolved type reference.
    Type,
    /// An unresolved OID component.
    Oid,
    /// An unresolved INDEX object.
    Index,
    /// An unresolved OBJECTS member of a notification.
    NotificationObject,
}

impl UnresolvedKind {
    /// The name of the kind.
    pub open spec fn spec_name(self) -> &'static str {
        match self {
            UnresolvedKind::Import => "import",
            UnresolvedKind::Type => "type",
            UnresolvedKind::Oid => "oid",
            UnresolvedKind::Index => "index",
            UnresolvedKind::NotificationObject => "notification-object",
        }
    }

    /// Return the name of the kind.
    pub fn as_str(self) -> (s: &'static str)
        ensures
            s == self.spec_name(),
    {
        match self {
            UnresolvedKind::Import => "import",
            UnresolvedKind::Type => "type",
            UnresolvedKind::Oid => "oid",
            UnresolvedKind::Index => "index",
            UnresolvedKind::NotificationObject => "notification-object",
        }
    }
}

/// An unresolved symbol reference collected during resolution.
#[derive(Debug, Clone)]
pub struct UnresolvedRef {
    /// What kind of reference failed to resolve.
    pub kind: UnresolvedKind,
    /// The symbol name that could not be resolved.
    pub symbol: String,
    /// The module where the reference was used.
    pub module: String,
    /// Human-readable explanation of why resolution failed.
    pub reason: String,
}

/// A symbolic name referenced in an OID value assignment.
#[derive(Debug, Clone)]
pub struct OidRef {
    /// The symbolic name referenced in the OID assignment.
    pub name: String,
    /// Source location of this reference.
    pub span: Span,
}

/// Index into the OID tree's node arena.
#[derive(Clone, Copy, Debug, PartialEq, Eq, Structural, Hash, PartialOrd, Ord)]
pub struct NodeId(pub u32);

impl NodeId {
    /// Create an id from its arena index.
    pub fn new(index: u32) -> (r: Self)
        ensures
            r.0 == index,
    {
        NodeId(index)
    }

    /// Return the raw arena index as a `u32`.
    pub fn index(self) -> (r: u32)
        ensures
            r == self.0,
    {
        self.0
    }
}

/// Index into the object arena.
#[derive(Clone, Copy, Debug, PartialEq, Eq, Structural, Hash, PartialOrd, Ord)]
pub struct ObjectId(pub u32);

impl ObjectId {
    /// Create an id from its arena index.
    pub fn new(index: u32) -> (r: Self)
        ensures
            r.0 == index,
    {
        ObjectId(index)
    }

    /// Return the raw arena index as a `u32`.
    pub fn index(self) -> (r: u32)
        ensures
            r == self.0,
    {
        self.0
    }
}

/// Index into the type arena.
#[derive(Clone, Copy, Debug, PartialEq, Eq, Structural, Hash, PartialOrd, Ord)]
pub struct TypeId(pub u32);

impl TypeId {
    /// Create an id from its arena index.
    pub fn new(index: u32) -> (r: Self)
        ensures
            r.0 == index,
    {
        TypeId(index)
    }

    /// Return the raw arena index as a `u32`.
    pub fn index(self) -> (r: u32)
        ensures
            r == self.0,
    {
        self.0
    }
}

/// Index into the module arena.
#[derive(Clone, Copy, Debug, PartialEq, Eq, Structural, Hash, PartialOrd, Ord)]
pub struct ModuleId(pub u32);

impl ModuleId {
    /// Create an id from its arena index.
    pub fn new(index: u32) -> (r: Self)
        ensures
            r.0 == index,
    {
        ModuleId(index)
    }

    /// Return the raw arena index as a `u32`.
    pub fn index(self) -> (r: u32)
        ensures
            r == self.0,
    {
        self.0
    }
}

/// Index into the notification arena.
#[derive(Clone, Copy, Debug, PartialEq, Eq, Structural, Hash, PartialOrd, Ord)]
pub struct NotificationId(pub u32);

impl NotificationId {
    /// Create an id from its arena index.
    pub fn new(index: u32) -> (r: Self)
        ensures
            r.0 == index,
    {
        NotificationId(index)
    }

    /// Return the raw arena index as a `u32`.
    pub fn index(self) -> (r: u32)
        ensures
            r == self.0,
    {
        self.0
    }
}

/// Index into the group arena.
#[derive(Clone, Copy, Debug, PartialEq, Eq, Structural, Hash, PartialOrd, Ord)]
pub struct GroupId(pub u32);

impl GroupId {
    /// Create an id from its arena index.
    pub fn new(index: u32) -> (r: Self)
        ensures
            r.0 == index,
    {
        GroupId(index)
    }

    /// Return the raw arena index as a `u32`.
    pub fn index(self) -> (r: u32)
        ensures
            r == self.0,
    {
        self.0
    }
}

/// Index into the compliance arena.
#[derive(Clone, Copy, Debug, PartialEq, Eq, Structural, Hash, PartialOrd, Ord)]
pub struct ComplianceId(pub u32);

impl ComplianceId {
    /// Create an id from its arena index.
    pub fn new(index: u32) -> (r: Self)
        ensures
            r.0 == index,
    {
        ComplianceId(index)
    }

    /// Return the raw arena index as a `u32`.
    pub fn index(self) -> (r: u32)
        ensures
            r == self.0,
    {
        self.0
    }
}

/// Index into the capability arena.
#[derive(Clone, Copy, Debug, PartialEq, Eq, Structural, Hash, PartialOrd, Ord)]
pub struct CapabilityId(pub u32);

impl CapabilityId {
    /// Create an id from its arena index.
    pub fn new(index: u32) -> (r: Self)
        ensures
            r.0 == index,
    {
        CapabilityId(index)
    }

    /// Return the raw arena index as a `u32`.
    pub fn index(self) -> (r: u32)
        ensures
            r == self.0,
    {
        self.0
    }
}

/// How an endpoint is written: its number, `MIN`, `MAX`, or its raw text.
pub open spec fn bound_text(b: RangeBound) -> Seq<char> {
    match b {
        RangeBound::Signed(v) => signed_dec_chars(v as int),
        RangeBound::Unsigned(v) => ascii_chars(dec_bytes(v as nat)),
        RangeBound::Min => "MIN"@,
        RangeBound::Max => "MAX"@,
        RangeBound::Raw(t) => t@,
    }
}

impl RangeBound {
    /// Return the endpoint as written: its number, `MIN`, `MAX`, or its raw text.
    pub fn display_text(&self) -> (r: String)
        ensures
            r@ == bound_text(*self),
    {
        match self {
            RangeBound::Signed(v) => signed_decimal_string(*v),
            RangeBound::Unsigned(v) => decimal_string(*v),
            RangeBound::Min => String::from_str("MIN"),
            RangeBound::Max => String::from_str("MAX"),
            RangeBound::Raw(t) => t.clone(),
        }
    }
}

/// How a range is written: its single value, or `min..max`.
pub open spec fn range_text(r: Range) -> Seq<char> {
    if same_bound(r.min, r.max) {
        bound_text(r.min)
    } else {
        bound_text(r.min) + ".."@ + bound_text(r.max)
    }
}

impl Range {
    /// Return the range as written: its single value, or `min..max`.
    pub fn display_text(&self) -> (r: String)
        ensures
            r@ == range_text(*self),
    {
        if self.min == self.max {
            self.min.display_text()
        } else {
            let lo = self.min.display_text();
            let hi = self.max.display_text();
            concat3(lo.as_str(), "..", hi.as_str())
        }
    }
}

/// An upper-case hex digit for a value below 16.
pub open spec fn hex_digit_byte(v: int) -> u8 {
    if v < 10 {
        (0x30 + v) as u8
    } else {
        (0x41 + v - 10) as u8
    }
}

/// Two upper-case hex digits for each byte.
pub open spec fn hex_text(b: Seq<u8>) -> Seq<u8>
    decreases b.len(),
{
    if b.len() == 0 {
        Seq::empty()
    } else {
        hex_text(b.drop_last()) + seq![hex_digit_byte((b.last() / 16) as int), hex_digit_byte((b.last() % 16) as int)]
    }
}

/// Labels joined by `, `.
pub open spec fn comma_joined(labels: Seq<Seq<char>>) -> Seq<char>
    decreases labels.len(),
{
    if labels.len() == 0 {
        Seq::empty()
    } else if labels.len() == 1 {
        labels[0]
    } else {
        comma_joined(labels.drop_last()) + ", "@ + labels.last()
    }
}

/// How a default value is written: nothing when unset, the number, the
/// string in quotes (inner quotes escaped), `0x` and upper-case hex for
/// bytes, the label, `{ a, b }` (or `{ }`) for BITS, and the raw text for
/// an OID.
pub open spec fn defval_text(v: DefValValue, raw: Seq<char>) -> Seq<char> {
    match v {
        DefValValue::NoValue => Seq::empty(),
        DefValValue::Int(x) => signed_dec_chars(x as int),
        DefValValue::Uint(x) => ascii_chars(dec_bytes(x as nat)),
        DefValValue::String(t) => "\""@ + replace_all(t@, "\""@, "\\\""@) + "\""@,
        DefValValue::Bytes(b) => "0x"@ + ascii_chars(hex_text(b@)),
        DefValValue::Enum(label) => label@,
        DefValValue::Bits(labels) => if labels@.len() == 0 {
            "{ }"@
        } else {
            "{ "@ + comma_joined(labels@.map_values(|l: String| l@)) + " }"@
        },
        DefValValue::Oid(_) => raw,
    }
}

fn hex_digit(v: u8) -> (r: u8)
    requires
        v < 16,
    ensures
        r == hex_digit_byte(v as int),
{
    if v < 10 {
        0x30 + v
    } else {
        0x41 + v - 10
    }
}

/// Upper-case hex digits of the bytes, two per byte.
fn hex_string(bytes: &[u8]) -> (r: String)
    ensures
        r@ == ascii_chars(hex_text(bytes@)),
{
    let mut out: Vec<u8> = Vec::new();
    let mut i: usize = 0;
    while i < bytes.len()
        invariant
            0 <= i <= bytes@.len(),
            out@ == hex_text(bytes@.subrange(0, i as int)),
            crate::text::all_ascii(out@),
        decreases bytes@.len() - i,
    {
        let b = bytes[i];
        out.push(hex_digit(b / 16));
        out.push(hex_digit(b % 16));
        proof {
            assert(bytes@.subrange(0, i + 1).drop_last() =~= bytes@.subrange(0, i as int));
        }
        i = i + 1;
        assert(out@ =~= hex_text(bytes@.subrange(0, i as int)));
    }
    assert(bytes@.subrange(0, bytes@.len() as int) =~= bytes@);
    string_from_ascii(out.as_slice())
}

/// Join labels with `, `.
fn join_labels(labels: &[String]) -> (r: String)
    ensures
        r@ == comma_joined(labels@.map_values(|l: String| l@)),
{
    let mut out = String::new();
    let mut i: usize = 0;
    while i < labels.len()
        invariant
            0 <= i <= labels@.len(),
            out@ == comma_joined(labels@.subrange(0, i as int).map_values(|l: String| l@)),
        decreases labels@.len() - i,
    {
        let ghost prev = labels@.subrange(0, i as int).map_values(|l: String| l@);
        let ghost next = labels@.subrange(0, i + 1).map_values(|l: String| l@);
        assert(next.drop_last() =~= prev);
        if i == 0 {
            out = out.concat(labels[i].as_str());
            assert(next =~= seq![labels@[0]@]);
        } else {
            out = out.concat(", ");
            out = out.concat(labels[i].as_str());
        }
        i = i + 1;
    }
    assert(labels@.subrange(0, labels@.len() as int) =~= labels@);
    out
}

impl DefVal {
    /// Return the default value as written in MIB syntax.
    pub fn display_text(&self) -> (r: String)
        ensures
            r@ == defval_text(self.spec_value(), self.spec_raw()),
    {
        match &self.value {
            DefValValue::NoValue => String::new(),
            DefValValue::Int(v) => signed_decimal_string(*v),
            DefValValue::Uint(v) => decimal_string(*v),
            DefValValue::String(v) => {
                let escaped = replace_str(v.as_str(), "\"", "\\\"");
                concat3("\"", escaped.as_str(), "\"")
            },
            DefValValue::Bytes(b) => {
                let digits = hex_string(b.as_slice());
                String::from_str("0x").concat(digits.as_str())
            },
            DefValValue::Enum(label) => label.clone(),
            DefValValue::Bits(labels) => {
                if labels.len() == 0 {
                    String::from_str("{ }")
                } else {
                    let joined = join_labels(labels.as_slice());
                    concat3("{ ", joined.as_str(), " }")
                }
            },
            DefValValue::Oid(_) => self.raw.clone(),
        }
    }
}

/// How an index is encoded in instance OIDs follows from its base type: one
/// integer arc exactly for the numeric base types, four fixed arcs exactly
/// for IpAddress whatever the IMPLIED flag and SIZE list, a length prefix
/// only for a variable-length string or OID index that is not IMPLIED, and
/// the IMPLIED form only for an IMPLIED index.
pub proof fn lemma_index_encoding_follows_base_type(base: BaseType, implied: bool, sizes: Seq<Range>)
    ensures
        (spec_index_encoding(base, implied, sizes) == IndexEncoding::Integer)
            <==> crate::mib::resolver::checks::spec_basetype_bounds(base) is Some,
        (spec_index_encoding(base, implied, sizes) == IndexEncoding::IpAddress) <==> base
            == BaseType::IpAddress,
        spec_index_encoding(base, implied, sizes) == IndexEncoding::LengthPrefixed ==> !implied && (
        base == BaseType::OctetString || base == BaseType::Opaque || base == BaseType::Bits || base
            == BaseType::ObjectIdentifier),
        spec_index_encoding(base, implied, sizes) == IndexEncoding::Implied ==> implied,
        spec_index_encoding(base, implied, sizes) == IndexEncoding::FixedString ==> !implied
            && spec_is_fixed_size(sizes),
{
}

} // verus!
