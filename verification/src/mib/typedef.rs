//! Type definitions and TEXTUAL-CONVENTIONs.
//!
//! [`TypeData`] represents a named type definition from an SMI module. Types
//! form parent chains via [`TypeData::parent`]; the chain terminates at a
//! base SMI type such as `INTEGER` or `OCTET STRING`.
//!
//! The `effective_*` methods walk the parent chain to find the nearest
//! non-empty value for constraints, display hints, and enumeration values.
//! These require a reference to the full type arena (`&[TypeData]`).

use vstd::prelude::*;

use crate::mib::types::{find_named_value, ModuleId, NamedValue, Range, TypeId};
use crate::types::{BaseType, Span, Status};

verus! {

/// How many types of a parent chain are examined, the starting type included.
pub const MAX_TYPE_CHAIN_DEPTH: usize = 1000;

/// A named type definition, either a TEXTUAL-CONVENTION or an inline type
/// refinement.
///
/// Types form parent chains via [`TypeData::parent`]; the chain terminates at
/// a base SMI type. The `effective_*` methods walk this chain to find the
/// first non-empty value.
#[derive(Debug, Clone)]
pub struct TypeData {
    pub name: String,
    pub span: Span,
    pub syntax_span: Span,
    pub module: Option<ModuleId>,
    pub base: BaseType,
    pub parent: Option<TypeId>,
    pub status: Status,
    pub hint: String,
    pub description: String,
    pub reference: String,
    pub sizes: Vec<Range>,
    pub ranges: Vec<Range>,
    pub enums: Vec<NamedValue>,
    pub bits: Vec<NamedValue>,
    pub is_tc: bool,
}

/// The property of a type that a chain walk looks for.
#[derive(Clone, Copy, Debug, PartialEq, Eq, Structural)]
pub enum ChainField {
    /// A base type other than `Unknown`.
    Base,
    /// A non-empty display hint.
    Hint,
    /// Non-empty SIZE constraints.
    Sizes,
    /// Non-empty value range constraints.
    Ranges,
    /// Non-empty enumeration values.
    Enums,
    /// Non-empty BITS definitions.
    Bits,
}

/// The type defines the property itself.
pub open spec fn has_field(t: TypeData, f: ChainField) -> bool {
    match f {
        ChainField::Base => t.base != BaseType::Unknown,
        ChainField::Hint => t.hint@.len() > 0,
        ChainField::Sizes => t.sizes@.len() > 0,
        ChainField::Ranges => t.ranges@.len() > 0,
        ChainField::Enums => t.enums@.len() > 0,
        ChainField::Bits => t.bits@.len() > 0,
    }
}

/// Every parent id that the search for property `f` reads from chain
/// position `k` on names a type of the arena: the parent of each position
/// it passes (not defining the property) before the last position the
/// depth limit allows.
pub open spec fn reads_in_range_from(start: TypeData, types: Seq<TypeData>, f: ChainField, k: nat) -> bool
    decreases MAX_TYPE_CHAIN_DEPTH - k,
{
    if k + 1 >= MAX_TYPE_CHAIN_DEPTH {
        true
    } else {
        match chain_at(start, types, k) {
            Some(t) => if has_field(t, f) {
                true
            } else {
                match t.parent {
                    Some(p) => p.0 < types.len() && reads_in_range_from(start, types, f, k + 1),
                    None => true,
                }
            },
            None => true,
        }
    }
}

/// Every parent id that the search for property `f` from `start` reads
/// names a type of the arena.
pub open spec fn chain_reads_in_range(start: TypeData, types: Seq<TypeData>, f: ChainField) -> bool {
    reads_in_range_from(start, types, f, 0)
}

/// The `k`-th type of the parent chain from `start` (`start` itself at 0),
/// or `None` once the chain has ended.
pub open spec fn chain_at(start: TypeData, types: Seq<TypeData>, k: nat) -> Option<TypeData>
    decreases k,
{
    if k == 0 {
        Some(start)
    } else {
        match chain_at(start, types, (k - 1) as nat) {
            Some(t) => match t.parent {
                Some(p) => if p.0 < types.len() {
                    Some(types[p.0 as int])
                } else {
                    None
                },
                None => None,
            },
            None => None,
        }
    }
}

/// The first type at or after chain position `k`, and before position
/// `MAX_TYPE_CHAIN_DEPTH`, that defines the property.
pub open spec fn first_from(start: TypeData, types: Seq<TypeData>, f: ChainField, k: nat) -> Option<
    TypeData,
>
    decreases MAX_TYPE_CHAIN_DEPTH - k,
{
    if k >= MAX_TYPE_CHAIN_DEPTH {
        None
    } else {
        match chain_at(start, types, k) {
            Some(t) => if has_field(t, f) {
                Some(t)
            } else {
                first_from(start, types, f, k + 1)
            },
            None => None,
        }
    }
}

/// The nearest type of the parent chain (within the depth limit) that
/// defines the property.
pub open spec fn first_in_chain(start: TypeData, types: Seq<TypeData>, f: ChainField) -> Option<
    TypeData,
> {
    first_from(start, types, f, 0)
}

/// The base type found by walking the chain, `Unknown` when none is.
pub open spec fn spec_effective_base(start: TypeData, types: Seq<TypeData>) -> BaseType {
    match first_in_chain(start, types, ChainField::Base) {
        Some(t) => t.base,
        None => BaseType::Unknown,
    }
}

impl TypeData {
    /// Create a type with the given name and no other information.
    pub fn new(name: String) -> (t: TypeData)
        ensures
            t.name@ == name@,
            t.base == BaseType::Unknown,
            t.parent is None,
            t.module is None,
            t.status == Status::Current,
            t.hint@.len() == 0,
            t.sizes@.len() == 0,
            t.ranges@.len() == 0,
            t.enums@.len() == 0,
            t.bits@.len() == 0,
            !t.is_tc,
    {
        TypeData {
            name,
            span: Span::synthetic(),
            syntax_span: Span::synthetic(),
            module: None,
            base: BaseType::Unknown,
            parent: None,
            status: Status::Current,
            hint: String::new(),
            description: String::new(),
            reference: String::new(),
            sizes: Vec::new(),
            ranges: Vec::new(),
            enums: Vec::new(),
            bits: Vec::new(),
            is_tc: false,
        }
    }

    /// Return the type name.
    pub fn name(&self) -> (r: &str)
        ensures
            r@ == self.name@,
    {
        self.name.as_str()
    }

    /// Return the source span.
    pub fn span(&self) -> (r: Span)
        ensures
            r == self.span,
    {
        self.span
    }

    /// Return the source span of the SYNTAX clause.
    pub fn syntax_span(&self) -> (r: Span)
        ensures
            r == self.syntax_span,
    {
        self.syntax_span
    }

    /// Return the defining module id.
    pub fn module(&self) -> (r: Option<ModuleId>)
        ensures
            r == self.module,
    {
        self.module
    }

    /// Return the directly assigned base type.
    pub fn base(&self) -> (r: BaseType)
        ensures
            r == self.base,
    {
        self.base
    }

    /// Return the parent type id, if this is a derived type.
    pub fn parent(&self) -> (r: Option<TypeId>)
        ensures
            r == self.parent,
    {
        self.parent
    }

    /// Return the status (current, deprecated, obsolete).
    pub fn status(&self) -> (r: Status)
        ensures
            r == self.status,
    {
        self.status
    }

    /// Return this type's own DISPLAY-HINT string.
    pub fn display_hint(&self) -> (r: &str)
        ensures
            r@ == self.hint@,
    {
        self.hint.as_str()
    }

    /// Return the DESCRIPTION clause text.
    pub fn description(&self) -> (r: &str)
        ensures
            r@ == self.description@,
    {
        self.description.as_str()
    }

    /// Return the REFERENCE clause text.
    pub fn reference(&self) -> (r: &str)
        ensures
            r@ == self.reference@,
    {
        self.reference.as_str()
    }

    /// Return this type's own SIZE constraints.
    pub fn sizes(&self) -> (r: &[Range])
        ensures
            r@ == self.sizes@,
    {
        self.sizes.as_slice()
    }

    /// Return this type's own range constraints.
    pub fn ranges(&self) -> (r: &[Range])
        ensures
            r@ == self.ranges@,
    {
        self.ranges.as_slice()
    }

    /// Return this type's own enumeration values.
    pub fn enums(&self) -> (r: &[NamedValue])
        ensures
            r@ == self.enums@,
    {
        self.enums.as_slice()
    }

    /// Return this type's own BITS definitions.
    pub fn bits(&self) -> (r: &[NamedValue])
        ensures
            r@ == self.bits@,
    {
        self.bits.as_slice()
    }

    /// Return `true` if defined as a TEXTUAL-CONVENTION.
    pub fn is_textual_convention(&self) -> (r: bool)
        ensures
            r == self.is_tc,
    {
        self.is_tc
    }

    /// Look up an enumeration value by label.
    pub fn enum_by_label(&self, label: &str) -> (r: Option<&NamedValue>)
        ensures
            match r {
                Some(v) => exists|i: int|
                    0 <= i < self.enums@.len() && self.enums@[i] == *v && v.label@ == label@
                        && forall|j: int| 0 <= j < i ==> self.enums@[j].label@ != label@,
                None => forall|i: int|
                    0 <= i < self.enums@.len() ==> self.enums@[i].label@ != label@,
            },
    {
        find_named_value(self.enums.as_slice(), label)
    }

    /// Look up a BITS value by label.
    pub fn bit_by_label(&self, label: &str) -> (r: Option<&NamedValue>)
        ensures
            match r {
                Some(v) => exists|i: int|
                    0 <= i < self.bits@.len() && self.bits@[i] == *v && v.label@ == label@
                        && forall|j: int| 0 <= j < i ==> self.bits@[j].label@ != label@,
                None => forall|i: int|
                    0 <= i < self.bits@.len() ==> self.bits@[i].label@ != label@,
            },
    {
        find_named_value(self.bits.as_slice(), label)
    }

    /// Walk the parent type chain and return the first non-`Unknown` base type.
    pub fn effective_base(&self, types: &[TypeData]) -> (r: BaseType)
        requires
            chain_reads_in_range(*self, types@, ChainField::Base),
        ensures
            r == spec_effective_base(*self, types@),
    {
        match walk_type_chain(self, types, ChainField::Base) {
            Some(t) => t.base,
            None => BaseType::Unknown,
        }
    }

    /// Walk the parent type chain and return the first non-empty display hint.
    pub fn effective_display_hint<'a>(&'a self, types: &'a [TypeData]) -> (r: &'a str)
        requires
            chain_reads_in_range(*self, types@, ChainField::Hint),
        ensures
            r@ == match first_in_chain(*self, types@, ChainField::Hint) {
                Some(t) => t.hint@,
                None => Seq::<char>::empty(),
            },
    {
        match walk_type_chain(self, types, ChainField::Hint) {
            Some(t) => t.hint.as_str(),
            None => {
                proof {
                    reveal_strlit("");
                }
                ""
            },
        }
    }

    /// Walk the parent type chain and return the first non-empty size constraints.
    pub fn effective_sizes<'a>(&'a self, types: &'a [TypeData]) -> (r: &'a [Range])
        requires
            chain_reads_in_range(*self, types@, ChainField::Sizes),
        ensures
            r@ == match first_in_chain(*self, types@, ChainField::Sizes) {
                Some(t) => t.sizes@,
                None => Seq::<Range>::empty(),
            },
    {
        match walk_type_chain(self, types, ChainField::Sizes) {
            Some(t) => t.sizes.as_slice(),
            None => &[],
        }
    }

    /// Walk the parent type chain and return the first non-empty range constraints.
    pub fn effective_ranges<'a>(&'a self, types: &'a [TypeData]) -> (r: &'a [Range])
        requires
            chain_reads_in_range(*self, types@, ChainField::Ranges),
        ensures
            r@ == match first_in_chain(*self, types@, ChainField::Ranges) {
                Some(t) => t.ranges@,
                None => Seq::<Range>::empty(),
            },
    {
        match walk_type_chain(self, types, ChainField::Ranges) {
            Some(t) => t.ranges.as_slice(),
            None => &[],
        }
    }

    /// Walk the parent type chain and return the first non-empty enumeration values.
    pub fn effective_enums<'a>(&'a self, types: &'a [TypeData]) -> (r: &'a [NamedValue])
        requires
            chain_reads_in_range(*self, types@, ChainField::Enums),
        ensures
            r@ == match first_in_chain(*self, types@, ChainField::Enums) {
                Some(t) => t.enums@,
                None => Seq::<NamedValue>::empty(),
            },
    {
        match walk_type_chain(self, types, ChainField::Enums) {
            Some(t) => t.enums.as_slice(),
            None => &[],
        }
    }

    /// Walk the parent type chain and return the first non-empty BITS definitions.
    pub fn effective_bits<'a>(&'a self, types: &'a [TypeData]) -> (r: &'a [NamedValue])
        requires
            chain_reads_in_range(*self, types@, ChainField::Bits),
        ensures
            r@ == match first_in_chain(*self, types@, ChainField::Bits) {
                Some(t) => t.bits@,
                None => Seq::<NamedValue>::empty(),
            },
    {
        match walk_type_chain(self, types, ChainField::Bits) {
            Some(t) => t.bits.as_slice(),
            None => &[],
        }
    }

    /// Return `true` if the effective base type is Counter32 or Counter64.
    pub fn is_counter(&self, types: &[TypeData]) -> (r: bool)
        requires
            chain_reads_in_range(*self, types@, ChainField::Base),
        ensures
            r == (spec_effective_base(*self, types@) == BaseType::Counter32 || spec_effective_base(
                *self,
                types@,
            ) == BaseType::Counter64),
    {
        let b = self.effective_base(types);
        b == BaseType::Counter32 || b == BaseType::Counter64
    }

    /// Return `true` if the effective base type is Gauge32.
    pub fn is_gauge(&self, types: &[TypeData]) -> (r: bool)
        requires
            chain_reads_in_range(*self, types@, ChainField::Base),
        ensures
            r == (spec_effective_base(*self, types@) == BaseType::Gauge32),
    {
        self.effective_base(types) == BaseType::Gauge32
    }

    /// Return `true` if the effective base type is OCTET STRING.
    pub fn is_string(&self, types: &[TypeData]) -> (r: bool)
        requires
            chain_reads_in_range(*self, types@, ChainField::Base),
        ensures
            r == (spec_effective_base(*self, types@) == BaseType::OctetString),
    {
        self.effective_base(types) == BaseType::OctetString
    }

    /// Return `true` if this is an Integer32 with enumeration values.
    pub fn is_enumeration(&self, types: &[TypeData]) -> (r: bool)
        requires
            chain_reads_in_range(*self, types@, ChainField::Base),
            chain_reads_in_range(*self, types@, ChainField::Enums),
        ensures
            r == (spec_effective_base(*self, types@) == BaseType::Integer32 && first_in_chain(
                *self,
                types@,
                ChainField::Enums,
            ) is Some),
    {
        self.effective_base(types) == BaseType::Integer32 && walk_type_chain(
            self,
            types,
            ChainField::Enums,
        ).is_some()
    }

    /// Return `true` if this type has BITS definitions in the chain.
    pub fn is_bits(&self, types: &[TypeData]) -> (r: bool)
        requires
            chain_reads_in_range(*self, types@, ChainField::Bits),
        ensures
            r == first_in_chain(*self, types@, ChainField::Bits) is Some,
    {
        walk_type_chain(self, types, ChainField::Bits).is_some()
    }
}

/// Return whether the type defines the property itself.
fn type_has_field(t: &TypeData, f: ChainField) -> (r: bool)
    ensures
        r == has_field(*t, f),
{
    match f {
        ChainField::Base => t.base != BaseType::Unknown,
        ChainField::Hint => !t.hint.as_str().is_empty(),
        ChainField::Sizes => t.sizes.len() > 0,
        ChainField::Ranges => t.ranges.len() > 0,
        ChainField::Enums => t.enums.len() > 0,
        ChainField::Bits => t.bits.len() > 0,
    }
}

/// Chain position `j` holds a type that does not define the property.
pub open spec fn skipped(start: TypeData, types: Seq<TypeData>, f: ChainField, j: nat) -> bool {
    match chain_at(start, types, j) {
        Some(t) => !has_field(t, f),
        None => false,
    }
}

/// Once a chain has ended it stays ended.
proof fn lemma_chain_ended(start: TypeData, types: Seq<TypeData>, k: nat, m: nat)
    requires
        chain_at(start, types, k) is None,
        k <= m,
    ensures
        chain_at(start, types, m) is None,
    decreases m - k,
{
    if k < m {
        lemma_chain_ended(start, types, k, (m - 1) as nat);
    }
}

/// With no defining type before position `k`, the search from 0 is the
/// search from `k`.
proof fn lemma_first_from_skip(start: TypeData, types: Seq<TypeData>, f: ChainField, k: nat)
    requires
        k <= MAX_TYPE_CHAIN_DEPTH,
        forall|j: nat|
            j < k ==> #[trigger] skipped(start, types, f, j),
    ensures
        first_from(start, types, f, 0) == first_from(start, types, f, k),
    decreases k,
{
    if k > 0 {
        let j = (k - 1) as nat;
        assert(skipped(start, types, f, j));
        lemma_first_from_skip(start, types, f, j);
    }
}

/// Walk the type chain from `start`, returning the first type (within the
/// depth limit) that defines the property.
fn walk_type_chain<'a>(start: &'a TypeData, types: &'a [TypeData], f: ChainField) -> (r: Option<
    &'a TypeData,
>)
    requires
        chain_reads_in_range(*start, types@, f),
    ensures
        match r {
            Some(t) => first_in_chain(*start, types@, f) == Some(*t),
            None => first_in_chain(*start, types@, f) is None,
        },
{
    if type_has_field(start, f) {
        return Some(start);
    }
    let mut current_id = start.parent;
    let mut depth: usize = 1;
    let ghost mut prev = *start;
    assert(chain_at(*start, types@, 0) == Some(*start));
    assert(skipped(*start, types@, f, 0));
    while depth < MAX_TYPE_CHAIN_DEPTH
        invariant
            1 <= depth <= MAX_TYPE_CHAIN_DEPTH,
            forall|j: nat|
                j < depth ==> #[trigger] skipped(*start, types@, f, j),
            chain_at(*start, types@, (depth - 1) as nat) == Some(prev),
            !has_field(prev, f),
            current_id == prev.parent,
            reads_in_range_from(*start, types@, f, (depth - 1) as nat),
        decreases MAX_TYPE_CHAIN_DEPTH - depth,
    {
        let id = match current_id {
            Some(id) => id,
            None => {
                proof {
                    assert(chain_at(*start, types@, depth as nat) is None);
                    lemma_first_from_skip(*start, types@, f, depth as nat);
                }
                return None;
            },
        };
        proof {
            assert(id.0 < types@.len());
            assert(reads_in_range_from(*start, types@, f, depth as nat));
            assert(chain_at(*start, types@, depth as nat) == Some(types@[id.0 as int]));
        }
        let t = &types[id.0 as usize];
        if type_has_field(t, f) {
            proof {
                lemma_first_from_skip(*start, types@, f, depth as nat);
            }
            return Some(t);
        }
        proof {
            assert(chain_at(*start, types@, (depth + 1) as nat) == match t.parent {
                Some(p) => if p.0 < types@.len() {
                    Some(types@[p.0 as int])
                } else {
                    None::<TypeData>
                },
                None => None,
            });
            assert forall|j: nat| j < depth + 1 implies #[trigger] skipped(*start, types@, f, j) by {
                if j == depth as nat {
                    assert(chain_at(*start, types@, j) == Some(*t));
                }
            }
        }
        current_id = t.parent;
        proof {
            prev = *t;
        }
        depth = depth + 1;
    }
    proof {
        lemma_first_from_skip(*start, types@, f, MAX_TYPE_CHAIN_DEPTH as nat);
    }
    None
}

/// A type that defines the property itself is its own effective source:
/// its own base, hint, constraints, enumerations or bits are what the
/// `effective_*` methods return.
pub proof fn lemma_own_value_wins(start: TypeData, types: Seq<TypeData>, f: ChainField)
    requires
        has_field(start, f),
    ensures
        first_in_chain(start, types, f) == Some(start),
{
    assert(chain_at(start, types, 0) == Some(start));
}

/// The type that `start`'s parent id names (meaningful when it has one).
pub open spec fn parent_of(start: TypeData, types: Seq<TypeData>) -> TypeData {
    match start.parent {
        Some(p) => types[p.0 as int],
        None => start,
    }
}

/// A type that does not define the property takes it from its parent, as
/// long as the chain from the parent is shorter than the depth limit.
pub proof fn lemma_inherits_from_parent(start: TypeData, types: Seq<TypeData>, f: ChainField)
    requires
        !has_field(start, f),
        start.parent matches Some(p) && p.0 < types.len(),
        chain_at(parent_of(start, types), types, (MAX_TYPE_CHAIN_DEPTH - 1) as nat) is None,
    ensures
        first_in_chain(start, types, f) == first_in_chain(parent_of(start, types), types, f),
{
    let parent = parent_of(start, types);
    assert forall|k: nat| #![trigger chain_at(start, types, k + 1)]
        chain_at(start, types, k + 1) == chain_at(parent, types, k) by {
        lemma_chain_shift(start, parent, types, k);
    }
    lemma_first_shift(start, parent, types, f, 0);
}

proof fn lemma_chain_shift(start: TypeData, parent: TypeData, types: Seq<TypeData>, k: nat)
    requires
        start.parent matches Some(p) && p.0 < types.len() && types[p.0 as int] == parent,
    ensures
        chain_at(start, types, k + 1) == chain_at(parent, types, k),
    decreases k,
{
    if k > 0 {
        lemma_chain_shift(start, parent, types, (k - 1) as nat);
    } else {
        assert(chain_at(start, types, 0) == Some(start));
        assert(chain_at(parent, types, 0) == Some(parent));
    }
}

proof fn lemma_first_shift(start: TypeData, parent: TypeData, types: Seq<TypeData>, f: ChainField, k: nat)
    requires
        !has_field(start, f),
        start.parent matches Some(p) && p.0 < types.len() && types[p.0 as int] == parent,
        chain_at(parent, types, (MAX_TYPE_CHAIN_DEPTH - 1) as nat) is None,
        forall|j: nat| #![trigger chain_at(start, types, j + 1)]
            chain_at(start, types, j + 1) == chain_at(parent, types, j),
        k < MAX_TYPE_CHAIN_DEPTH,
    ensures
        first_from(start, types, f, k + 1) == first_from(parent, types, f, k),
        k == 0 ==> first_from(start, types, f, 0) == first_from(start, types, f, 1),
    decreases MAX_TYPE_CHAIN_DEPTH - k,
{
    assert(chain_at(start, types, k + 1) == chain_at(parent, types, k));
    if k + 1 >= MAX_TYPE_CHAIN_DEPTH {
        assert(k == MAX_TYPE_CHAIN_DEPTH - 1);
        assert(chain_at(parent, types, k) is None);
    } else {
        lemma_first_shift(start, parent, types, f, k + 1);
    }
    if k == 0 {
        assert(chain_at(start, types, 0) == Some(start));
    }
}

} // verus!
