//! Structured, resolver-domain-specific symbol resolution explanations.

use vstd::prelude::*;
use vstd::string::StringSliceAdditionalSpecFns;
use vstd::utf8::{is_char_boundary, is_char_boundary_iff_not_is_continuation_byte, valid_utf8};

use crate::mib::oid::Oid;
use crate::mib::resolver::rules::{is_bare_index_type, spec_is_bare_index_type};
use crate::mib::symbol::Symbol;
use crate::mib::types::ModuleId;
use crate::text::str_equal;
use crate::types::ResolutionDomain;

verus! {

broadcast use vstd::utf8::group_utf8_lib;

/// The kind of a candidate definition in a resolution trace.
#[derive(Debug, Clone, Copy, PartialEq, Eq, Structural, PartialOrd, Ord)]
pub enum ResolutionCandidateKind {
    /// An `OBJECT-TYPE` definition.
    Object,
    /// A `NOTIFICATION-TYPE` or `TRAP-TYPE` definition.
    Notification,
    /// An `OBJECT-GROUP` or `NOTIFICATION-GROUP` definition.
    Group,
    /// A `MODULE-COMPLIANCE` definition.
    Compliance,
    /// An `AGENT-CAPABILITIES` definition.
    Capability,
    /// A type assignment or `TEXTUAL-CONVENTION` definition.
    Type,
    /// An OID assignment without a more specific semantic definition.
    Node,
}

/// The candidate kind of a symbol.
pub open spec fn kind_of_symbol(symbol: Symbol) -> ResolutionCandidateKind {
    match symbol {
        Symbol::Object(_) => ResolutionCandidateKind::Object,
        Symbol::Notification(_) => ResolutionCandidateKind::Notification,
        Symbol::Group(_) => ResolutionCandidateKind::Group,
        Symbol::Compliance(_) => ResolutionCandidateKind::Compliance,
        Symbol::Capability(_) => ResolutionCandidateKind::Capability,
        Symbol::Type(_) => ResolutionCandidateKind::Type,
        Symbol::Node(_) => ResolutionCandidateKind::Node,
    }
}

impl From<Symbol> for ResolutionCandidateKind {
    fn from(symbol: Symbol) -> (r: Self) {
        match symbol {
            Symbol::Object(_) => ResolutionCandidateKind::Object,
            Symbol::Notification(_) => ResolutionCandidateKind::Notification,
            Symbol::Group(_) => ResolutionCandidateKind::Group,
            Symbol::Compliance(_) => ResolutionCandidateKind::Compliance,
            Symbol::Capability(_) => ResolutionCandidateKind::Capability,
            Symbol::Type(_) => ResolutionCandidateKind::Type,
            Symbol::Node(_) => ResolutionCandidateKind::Node,
        }
    }
}

impl vstd::std_specs::convert::FromSpecImpl<Symbol> for ResolutionCandidateKind {
    open spec fn obeys_from_spec() -> bool {
        true
    }

    open spec fn from_spec(symbol: Symbol) -> Self {
        kind_of_symbol(symbol)
    }
}

impl ResolutionCandidateKind {
    /// The lower-case name of the kind.
    pub open spec fn spec_name(self) -> &'static str {
        match self {
            ResolutionCandidateKind::Object => "object",
            ResolutionCandidateKind::Notification => "notification",
            ResolutionCandidateKind::Group => "group",
            ResolutionCandidateKind::Compliance => "compliance",
            ResolutionCandidateKind::Capability => "capability",
            ResolutionCandidateKind::Type => "type",
            ResolutionCandidateKind::Node => "node",
        }
    }

    /// Return the lower-case name of the kind.
    pub fn as_str(self) -> (s: &'static str)
        ensures
            s == self.spec_name(),
    {
        match self {
            ResolutionCandidateKind::Object => "object",
            ResolutionCandidateKind::Notification => "notification",
            ResolutionCandidateKind::Group => "group",
            ResolutionCandidateKind::Compliance => "compliance",
            ResolutionCandidateKind::Capability => "capability",
            ResolutionCandidateKind::Type => "type",
            ResolutionCandidateKind::Node => "node",
        }
    }
}

/// One loaded definition with the traced name.
#[derive(Debug, PartialEq, Eq)]
pub struct ResolutionCandidate {
    /// Identifies the exact loaded module version that defines the symbol.
    pub module: ModuleId,
    /// Names the module that defines the symbol.
    pub module_name: String,
    /// Identifies the module source when the loader assigned a label.
    pub source_label: Option<String>,
    /// Contains the module's `LAST-UPDATED` value, or an empty string when absent.
    pub last_updated: String,
    /// Classifies the definition.
    pub kind: ResolutionCandidateKind,
    /// Identifies the definition in the resolved MIB arenas.
    pub symbol: Symbol,
    /// Contains the definition's numeric OID when it has a resolved OID node.
    pub oid: Option<Oid>,
    /// Whether this definition kind can satisfy the selected domain.
    pub applicable: bool,
}

/// Two candidates name the same definition of the same loaded module.
pub open spec fn same_definition(a: ResolutionCandidate, b: ResolutionCandidate) -> bool {
    &&& a.module == b.module
    &&& a.module_name@ == b.module_name@
    &&& a.last_updated@ == b.last_updated@
    &&& a.kind == b.kind
    &&& a.symbol == b.symbol
    &&& a.applicable == b.applicable
}

impl Clone for ResolutionCandidate {
    fn clone(&self) -> (r: Self)
        ensures
            same_definition(r, *self),
    {
        ResolutionCandidate {
            module: self.module,
            module_name: self.module_name.clone(),
            source_label: self.source_label.clone(),
            last_updated: self.last_updated.clone(),
            kind: self.kind,
            symbol: self.symbol,
            oid: self.oid.clone(),
            applicable: self.applicable,
        }
    }
}

/// Exact loaded module version used as a resolution scope.
#[derive(Debug, Clone, PartialEq, Eq)]
pub struct ResolutionScope {
    /// Identifies the exact loaded module version used as the scope.
    pub module: ModuleId,
    /// Names the scoped module.
    pub module_name: String,
    /// Identifies the scoped module's source when the loader assigned a label.
    pub source_label: Option<String>,
    /// Contains the module's `LAST-UPDATED` value, or an empty string when absent.
    pub last_updated: String,
}

/// Resolver fallback tiers applicable to this domain, strictness, and name.
#[derive(Debug, Clone, Copy, PartialEq, Eq, Structural)]
pub struct ResolutionFallbackPolicy {
    /// Indicates whether this name has an intrinsic foundation-module rule.
    pub intrinsic: bool,
    /// Indicates whether the domain and strictness enable foundation-module fallback.
    pub constrained: bool,
    /// Indicates whether the domain and strictness enable global fallback.
    pub global: bool,
}

/// Strategy that selected the final definition.
#[derive(Debug, Clone, Copy, PartialEq, Eq, Structural)]
pub enum ResolutionStrategy {
    /// Selected a definition in the scoped module.
    Local,
    /// Followed an import directly to its declared source module.
    DirectImport,
    /// Followed an import re-exported through one or more modules.
    ForwardedImport,
    /// Followed the resolved portion of a partially resolved import clause.
    PartialImport,
    /// Followed a compatibility alias for the imported module name.
    AliasImport,
    /// Selected a definition from an intrinsic foundation module.
    IntrinsicFallback,
    /// Selected a definition from a strictness-dependent foundation module.
    ConstrainedFallback,
    /// Selected a definition through global fallback.
    GlobalFallback,
    /// Selected the only applicable candidate during an unscoped lookup.
    UniqueCandidate,
}

impl ResolutionStrategy {
    /// A short description of the strategy.
    pub open spec fn spec_description(self) -> &'static str {
        match self {
            ResolutionStrategy::Local => "local definition",
            ResolutionStrategy::DirectImport => "direct import",
            ResolutionStrategy::ForwardedImport => "forwarded import",
            ResolutionStrategy::PartialImport => "partial import",
            ResolutionStrategy::AliasImport => "import alias",
            ResolutionStrategy::IntrinsicFallback => "intrinsic fallback",
            ResolutionStrategy::ConstrainedFallback => "constrained fallback",
            ResolutionStrategy::GlobalFallback => "global fallback",
            ResolutionStrategy::UniqueCandidate => "unique unscoped candidate",
        }
    }

    /// Return a short description of the strategy.
    pub fn as_str(self) -> (s: &'static str)
        ensures
            s == self.spec_description(),
    {
        match self {
            ResolutionStrategy::Local => "local definition",
            ResolutionStrategy::DirectImport => "direct import",
            ResolutionStrategy::ForwardedImport => "forwarded import",
            ResolutionStrategy::PartialImport => "partial import",
            ResolutionStrategy::AliasImport => "import alias",
            ResolutionStrategy::IntrinsicFallback => "intrinsic fallback",
            ResolutionStrategy::ConstrainedFallback => "constrained fallback",
            ResolutionStrategy::GlobalFallback => "global fallback",
            ResolutionStrategy::UniqueCandidate => "unique unscoped candidate",
        }
    }
}

/// Final classification of a traced lookup.
#[derive(Debug, Clone, Copy, PartialEq, Eq, Structural)]
pub enum ResolutionOutcome {
    /// The lookup selected one target.
    Resolved,
    /// An unscoped lookup found multiple applicable candidates.
    Ambiguous,
    /// The applicable resolver rules did not select a target.
    Missing,
}

/// Definition selected by a traced lookup and the strategy that selected it.
#[derive(Debug, Clone, PartialEq, Eq)]
pub struct ResolutionTarget {
    /// Describes the selected loaded definition.
    pub candidate: ResolutionCandidate,
    /// Identifies the resolver strategy that selected the definition.
    pub strategy: ResolutionStrategy,
}

/// Failure to parse a trace query or select an exact module scope.
#[derive(Debug, Clone, PartialEq, Eq)]
pub enum ResolutionTraceError {
    /// The query contains no characters.
    EmptyQuery,
    /// The qualified query does not have exactly one nonempty `module::symbol` pair.
    InvalidQualifiedQuery(String),
    /// The qualified query and explicit scope name different modules.
    ConflictingScope {
        /// Names the module in the qualified query.
        query_scope: String,
        /// Names the separately supplied module scope.
        explicit_scope: String,
    },
    /// No loaded module has the requested scope name.
    ModuleNotFound(String),
    /// Multiple loaded module versions have the requested scope name.
    AmbiguousModuleScope {
        /// Names the requested module.
        module: String,
        /// Lists every exact loaded module version with the requested name.
        candidates: Vec<ResolutionScope>,
    },
}

/// Whether a definition of this kind can satisfy a lookup in `domain`.
pub open spec fn spec_symbol_matches_domain(
    symbol: Symbol,
    domain: ResolutionDomain,
    name: Seq<char>,
) -> bool {
    match domain {
        ResolutionDomain::Type => symbol is Type,
        ResolutionDomain::Object | ResolutionDomain::NotificationObject => symbol is Object,
        ResolutionDomain::Index => if spec_is_bare_index_type(name) {
            symbol is Type
        } else {
            symbol is Object
        },
        ResolutionDomain::Oid | ResolutionDomain::GroupMember | ResolutionDomain::Conformance => !(
        symbol is Type),
    }
}

/// Return whether a definition of this kind can satisfy a lookup in `domain`.
pub fn symbol_matches_domain(symbol: Symbol, domain: ResolutionDomain, name: &str) -> (r: bool)
    ensures
        r == spec_symbol_matches_domain(symbol, domain, name@),
{
    match domain {
        ResolutionDomain::Type => matches!(symbol, Symbol::Type(_)),
        ResolutionDomain::Object | ResolutionDomain::NotificationObject => {
            matches!(symbol, Symbol::Object(_))
        },
        ResolutionDomain::Index => {
            if is_bare_index_type(name) {
                matches!(symbol, Symbol::Type(_))
            } else {
                matches!(symbol, Symbol::Object(_))
            }
        },
        ResolutionDomain::Oid | ResolutionDomain::GroupMember | ResolutionDomain::Conformance => {
            !matches!(symbol, Symbol::Type(_))
        },
    }
}

/// `b[i..i+2]` is the separator `::`.
pub open spec fn separator_at(b: Seq<u8>, i: int) -> bool {
    0 <= i && i + 1 < b.len() && b[i] == 0x3a && b[i + 1] == 0x3a
}

/// The position of the first `::` in `b`, if any.
pub open spec fn first_separator(b: Seq<u8>) -> Option<int> {
    if exists|i: int| #[trigger] separator_at(b, i) {
        Some(choose|i: int| #[trigger] separator_at(b, i) && forall|j: int| 0 <= j < i ==> !separator_at(b, j))
    } else {
        None
    }
}

/// The outcome of reading a trace query: the module part (if any) and the
/// symbol part as byte ranges of the query, or the error.
pub enum QueryParts {
    /// The whole query is an unqualified symbol.
    Unqualified,
    /// `module::symbol` with the separator at this position.
    Qualified(int),
    /// The query is empty.
    Empty,
    /// The qualified form is malformed.
    Invalid,
}

/// How a query splits: empty, unqualified, `module::symbol` around the first
/// separator, or invalid when either side is empty or the symbol holds
/// another separator.
pub open spec fn spec_query_parts(b: Seq<u8>) -> QueryParts {
    if b.len() == 0 {
        QueryParts::Empty
    } else {
        match first_separator(b) {
            None => QueryParts::Unqualified,
            Some(i) => if i == 0 || i + 2 == b.len() || (exists|j: int|
                i + 2 <= j && #[trigger] separator_at(b, j)) {
                QueryParts::Invalid
            } else {
                QueryParts::Qualified(i)
            },
        }
    }
}

/// Return the position of the first `::` at or after `from`.
fn find_separator(b: &[u8], from: usize) -> (r: Option<usize>)
    requires
        from <= b@.len(),
    ensures
        match r {
            Some(i) => from <= i && separator_at(b@, i as int) && forall|j: int|
                from <= j < i ==> !separator_at(b@, j),
            None => forall|j: int| from <= j ==> !separator_at(b@, j),
        },
{
    let mut i = from;
    while b.len() - i > 1
        invariant
            from <= i <= b@.len(),
            forall|j: int| from <= j < i ==> !separator_at(b@, j),
        decreases b@.len() - i,
    {
        if b[i] == 0x3a && b[i + 1] == 0x3a {
            return Some(i);
        }
        i = i + 1;
    }
    None
}

/// Split a trace query into its optional module scope and symbol name.
///
/// `module::symbol` gives both; a query without `::` is an unqualified
/// symbol. An empty query, or a qualified query with an empty side or a
/// second `::`, is an error.
pub fn parse_query(query: &str) -> (r: Result<(Option<&str>, &str), ResolutionTraceError>)
    ensures
        match spec_query_parts(query.spec_bytes()) {
            QueryParts::Empty => r == Err::<(Option<&str>, &str), _>(ResolutionTraceError::EmptyQuery),
            QueryParts::Invalid => r matches Err(ResolutionTraceError::InvalidQualifiedQuery(q))
                && q@ == query@,
            QueryParts::Unqualified => r matches Ok((None, s)) && s@ == query@,
            QueryParts::Qualified(i) => r matches Ok((Some(m), s)) && m.spec_bytes()
                == query.spec_bytes().subrange(0, i) && s.spec_bytes() == query.spec_bytes().subrange(
                i + 2,
                query.spec_bytes().len() as int,
            ),
        },
{
    let b = query.as_bytes();
    if b.len() == 0 {
        return Err(ResolutionTraceError::EmptyQuery);
    }
    let i = match find_separator(b, 0) {
        None => {
            proof {
                assert(first_separator(b@) is None);
            }
            return Ok((None, query));
        },
        Some(i) => i,
    };
    proof {
        assert(first_separator(b@) == Some(i as int));
    }
    let rest_has_separator = find_separator(b, i + 2).is_some();
    if i == 0 || i + 2 == b.len() || rest_has_separator {
        return Err(ResolutionTraceError::InvalidQualifiedQuery(query.to_string()));
    }
    proof {
        is_char_boundary_iff_not_is_continuation_byte(b@, i as int);
    }
    let (module, rest) = query.split_at(i);
    proof {
        lemma_ascii_first_boundary(rest.spec_bytes());
    }
    let (_, rest1) = rest.split_at(1);
    proof {
        lemma_ascii_first_boundary(rest1.spec_bytes());
    }
    let (_, symbol) = rest1.split_at(1);
    proof {
        assert(symbol.spec_bytes() =~= b@.subrange(i + 2, b@.len() as int));
    }
    Ok((Some(module), symbol))
}

/// In valid UTF-8 that starts with an ASCII byte, position 1 is a character
/// boundary.
proof fn lemma_ascii_first_boundary(bytes: Seq<u8>)
    requires
        valid_utf8(bytes),
        bytes.len() >= 1,
        bytes[0] < 0x80,
    ensures
        is_char_boundary(bytes, 1),
{
    reveal_with_fuel(is_char_boundary, 2);
}

/// The scope a trace uses: the qualified query's module, or else the
/// explicit scope; an error when both are given and differ.
pub fn select_scope_name<'a>(
    qualified_scope: Option<&'a str>,
    module_scope: Option<&'a str>,
) -> (r: Result<Option<&'a str>, ResolutionTraceError>)
    ensures
        match (qualified_scope, module_scope) {
            (Some(q), Some(e)) => if q@ != e@ {
                r matches Err(ResolutionTraceError::ConflictingScope { query_scope, explicit_scope })
                    && query_scope@ == q@ && explicit_scope@ == e@
            } else {
                r == Ok::<Option<&'a str>, ResolutionTraceError>(Some(q))
            },
            (Some(q), None) => r == Ok::<Option<&'a str>, ResolutionTraceError>(Some(q)),
            (None, Some(e)) => r == Ok::<Option<&'a str>, ResolutionTraceError>(Some(e)),
            (None, None) => r == Ok::<Option<&'a str>, ResolutionTraceError>(None),
        },
{
    match (qualified_scope, module_scope) {
        (Some(query_scope), Some(explicit_scope)) => {
            if !str_equal(query_scope, explicit_scope) {
                Err(
                    ResolutionTraceError::ConflictingScope {
                        query_scope: query_scope.to_string(),
                        explicit_scope: explicit_scope.to_string(),
                    },
                )
            } else {
                Ok(Some(query_scope))
            }
        },
        (Some(query_scope), None) => Ok(Some(query_scope)),
        (None, Some(explicit_scope)) => Ok(Some(explicit_scope)),
        (None, None) => Ok(None),
    }
}

/// The number of applicable candidates.
pub open spec fn applicable_count(candidates: Seq<ResolutionCandidate>) -> nat {
    candidates.filter(|c: ResolutionCandidate| c.applicable).len()
}

/// Count the applicable candidates.
fn count_applicable(candidates: &[ResolutionCandidate]) -> (r: (usize, Option<usize>))
    ensures
        r.0 == applicable_count(candidates@),
        match r.1 {
            Some(k) => k < candidates@.len() && candidates@[k as int].applicable && forall|j: int|
                0 <= j < k ==> !candidates@[j].applicable,
            None => r.0 == 0,
        },
{
    let mut count: usize = 0;
    let mut first: Option<usize> = None;
    let mut i: usize = 0;
    while i < candidates.len()
        invariant
            0 <= i <= candidates@.len(),
            count == candidates@.subrange(0, i as int).filter(|c: ResolutionCandidate| c.applicable).len(),
            count <= i,
            match first {
                Some(k) => k < i && candidates@[k as int].applicable && forall|j: int|
                    0 <= j < k ==> !candidates@[j].applicable,
                None => count == 0 && forall|j: int| 0 <= j < i ==> !candidates@[j].applicable,
            },
        decreases candidates@.len() - i,
    {
        proof {
            reveal(Seq::filter);
            assert(candidates@.subrange(0, i as int + 1).drop_last() =~= candidates@.subrange(0, i as int));
        }
        if candidates[i].applicable {
            if first.is_none() {
                first = Some(i);
            }
            count = count + 1;
        }
        i = i + 1;
    }
    assert(candidates@.subrange(0, candidates@.len() as int) =~= candidates@);
    (count, first)
}

/// The target of an unscoped lookup: the only applicable candidate, if
/// there is exactly one.
pub fn unscoped_target(candidates: &[ResolutionCandidate]) -> (r: Option<ResolutionTarget>)
    ensures
        r is Some <==> applicable_count(candidates@) == 1,
        r matches Some(t) ==> t.strategy == ResolutionStrategy::UniqueCandidate && exists|k: int|
            0 <= k < candidates@.len() && candidates@[k].applicable && same_definition(
                t.candidate,
                candidates@[k],
            ),
{
    let (count, first) = count_applicable(candidates);
    if count == 1 {
        match first {
            Some(k) => {
                let candidate = candidates[k].clone();
                Some(ResolutionTarget { candidate, strategy: ResolutionStrategy::UniqueCandidate })
            },
            None => None,
        }
    } else {
        None
    }
}

/// The final classification of a lookup: resolved when a target was
/// selected; otherwise ambiguous for an unscoped lookup with several
/// applicable candidates; otherwise missing.
pub open spec fn spec_trace_outcome(has_target: bool, scoped: bool, applicable: nat) -> ResolutionOutcome {
    if has_target {
        ResolutionOutcome::Resolved
    } else if !scoped && applicable > 1 {
        ResolutionOutcome::Ambiguous
    } else {
        ResolutionOutcome::Missing
    }
}

/// Classify a lookup from whether it selected a target, whether it was
/// scoped, and its candidates.
pub fn trace_outcome(has_target: bool, scoped: bool, candidates: &[ResolutionCandidate]) -> (r:
    ResolutionOutcome)
    ensures
        r == spec_trace_outcome(has_target, scoped, applicable_count(candidates@)),
{
    if has_target {
        return ResolutionOutcome::Resolved;
    }
    let (count, _) = count_applicable(candidates);
    if !scoped && count > 1 {
        ResolutionOutcome::Ambiguous
    } else {
        ResolutionOutcome::Missing
    }
}

/// A traced lookup has a target exactly when its outcome is resolved; an
/// unscoped lookup resolves with one applicable candidate, is ambiguous
/// with several, and missing with none.
pub proof fn lemma_outcome_matches_target(has_target: bool, scoped: bool, applicable: nat)
    ensures
        (spec_trace_outcome(has_target, scoped, applicable) == ResolutionOutcome::Resolved)
            <==> has_target,
        !scoped ==> spec_trace_outcome(applicable == 1, false, applicable) == (if applicable == 1 {
            ResolutionOutcome::Resolved
        } else if applicable > 1 {
            ResolutionOutcome::Ambiguous
        } else {
            ResolutionOutcome::Missing
        }),
{
}

} // verus!
