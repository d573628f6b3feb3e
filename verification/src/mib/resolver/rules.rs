//! Shared resolver fallback rules used by resolution and structured tracing.

use vstd::prelude::*;

use crate::text::str_equal;
use crate::types::{ResolutionDomain, ResolverStrictness};

verus! {

/// The foundation module that always supplies `symbol` in `domain`, if any.
pub open spec fn spec_intrinsic_foundation_module(domain: ResolutionDomain, symbol: Seq<char>) -> Option<
    Seq<char>,
> {
    match domain {
        ResolutionDomain::Type => if symbol == "INTEGER"@ || symbol == "OCTET STRING"@ || symbol
            == "OBJECT IDENTIFIER"@ || symbol == "BITS"@ {
            Some("SNMPv2-SMI"@)
        } else {
            None
        },
        ResolutionDomain::Oid => if symbol == "iso"@ || symbol == "ccitt"@ || symbol
            == "joint-iso-ccitt"@ {
            Some("SNMPv2-SMI"@)
        } else {
            None
        },
        _ => None,
    }
}

/// Return the foundation module that always supplies `symbol` in `domain`.
pub fn intrinsic_foundation_module(domain: ResolutionDomain, symbol: &str) -> (r: Option<
    &'static str,
>)
    ensures
        match r {
            Some(m) => spec_intrinsic_foundation_module(domain, symbol@) == Some(m@),
            None => spec_intrinsic_foundation_module(domain, symbol@) is None,
        },
{
    match domain {
        ResolutionDomain::Type => {
            if str_equal(symbol, "INTEGER") || str_equal(symbol, "OCTET STRING") || str_equal(
                symbol,
                "OBJECT IDENTIFIER",
            ) || str_equal(symbol, "BITS") {
                Some("SNMPv2-SMI")
            } else {
                None
            }
        },
        ResolutionDomain::Oid => {
            if str_equal(symbol, "iso") || str_equal(symbol, "ccitt") || str_equal(
                symbol,
                "joint-iso-ccitt",
            ) {
                Some("SNMPv2-SMI")
            } else {
                None
            }
        },
        _ => None,
    }
}

/// The foundation modules searched, in order, when the strictness allows
/// constrained fallbacks.
pub open spec fn spec_constrained_foundation_modules(
    domain: ResolutionDomain,
    strictness: ResolverStrictness,
) -> Seq<Seq<char>> {
    if strictness == ResolverStrictness::Strict {
        Seq::empty()
    } else {
        match domain {
            ResolutionDomain::Type => seq!["SNMPv2-SMI"@, "RFC1155-SMI"@, "SNMPv2-TC"@],
            ResolutionDomain::Oid => seq!["SNMPv2-SMI"@, "RFC1155-SMI"@],
            _ => Seq::empty(),
        }
    }
}

/// The texts of a list of strings.
pub open spec fn texts_of(names: Seq<&str>) -> Seq<Seq<char>> {
    names.map_values(|s: &str| s@)
}

/// Return the foundation modules searched, in order, for a constrained fallback.
pub fn constrained_foundation_modules(
    domain: ResolutionDomain,
    strictness: ResolverStrictness,
) -> (r: Vec<&'static str>)
    ensures
        texts_of(r@) == spec_constrained_foundation_modules(domain, strictness),
{
    let mut r: Vec<&'static str> = Vec::new();
    if !strictness.allow_constrained_fallbacks() {
        assert(texts_of(r@) =~= Seq::<Seq<char>>::empty());
        return r;
    }
    match domain {
        ResolutionDomain::Type => {
            r.push("SNMPv2-SMI");
            r.push("RFC1155-SMI");
            r.push("SNMPv2-TC");
        },
        ResolutionDomain::Oid => {
            r.push("SNMPv2-SMI");
            r.push("RFC1155-SMI");
        },
        _ => {},
    }
    assert(texts_of(r@) =~= spec_constrained_foundation_modules(domain, strictness));
    r
}

/// Global fallback applies to the object-like domains under permissive strictness.
pub open spec fn spec_allows_global_fallback(
    domain: ResolutionDomain,
    strictness: ResolverStrictness,
) -> bool {
    strictness == ResolverStrictness::Permissive && (domain == ResolutionDomain::Object || domain
        == ResolutionDomain::GroupMember || domain == ResolutionDomain::Index || domain
        == ResolutionDomain::NotificationObject || domain == ResolutionDomain::Conformance)
}

/// Return whether global fallback applies.
pub fn allows_global_fallback(domain: ResolutionDomain, strictness: ResolverStrictness) -> (r:
    bool)
    ensures
        r == spec_allows_global_fallback(domain, strictness),
{
    strictness.allow_global_fallbacks() && matches!(
        domain,
        ResolutionDomain::Object | ResolutionDomain::GroupMember | ResolutionDomain::Index
            | ResolutionDomain::NotificationObject | ResolutionDomain::Conformance
    )
}

/// The type names that can stand in an INDEX clause without an object.
pub open spec fn spec_is_bare_index_type(symbol: Seq<char>) -> bool {
    symbol == "INTEGER"@ || symbol == "OCTET STRING"@ || symbol == "BITS"@ || symbol
        == "Integer32"@ || symbol == "Counter32"@ || symbol == "Counter64"@ || symbol
        == "Gauge32"@ || symbol == "Unsigned32"@ || symbol == "TimeTicks"@ || symbol
        == "IpAddress"@ || symbol == "Opaque"@ || symbol == "Counter"@ || symbol == "Gauge"@
        || symbol == "NetworkAddress"@
}

/// Return whether the name is a type that can stand in an INDEX clause.
pub fn is_bare_index_type(symbol: &str) -> (r: bool)
    ensures
        r == spec_is_bare_index_type(symbol@),
{
    str_equal(symbol, "INTEGER") || str_equal(symbol, "OCTET STRING") || str_equal(symbol, "BITS")
        || str_equal(symbol, "Integer32") || str_equal(symbol, "Counter32") || str_equal(
        symbol,
        "Counter64",
    ) || str_equal(symbol, "Gauge32") || str_equal(symbol, "Unsigned32") || str_equal(
        symbol,
        "TimeTicks",
    ) || str_equal(symbol, "IpAddress") || str_equal(symbol, "Opaque") || str_equal(
        symbol,
        "Counter",
    ) || str_equal(symbol, "Gauge") || str_equal(symbol, "NetworkAddress")
}

/// The domain whose fallback rules apply: a bare index type is looked up as a type.
pub open spec fn spec_fallback_domain(domain: ResolutionDomain, symbol: Seq<char>) -> ResolutionDomain {
    if domain == ResolutionDomain::Index && spec_is_bare_index_type(symbol) {
        ResolutionDomain::Type
    } else {
        domain
    }
}

/// Return the domain whose fallback rules apply.
pub fn fallback_domain(domain: ResolutionDomain, symbol: &str) -> (r: ResolutionDomain)
    ensures
        r == spec_fallback_domain(domain, symbol@),
{
    if domain == ResolutionDomain::Index && is_bare_index_type(symbol) {
        ResolutionDomain::Type
    } else {
        domain
    }
}

/// Return whether a TRAP-TYPE enterprise may be found through a fallback.
pub fn allows_trap_enterprise_fallback(strictness: ResolverStrictness) -> (r: bool)
    ensures
        r == (strictness != ResolverStrictness::Strict),
{
    strictness.allow_constrained_fallbacks()
}

} // verus!
