use mib_rs::mib::resolver::rules::{
    allows_global_fallback, constrained_foundation_modules, fallback_domain,
    intrinsic_foundation_module, is_bare_index_type,
};
use mib_rs::mib::symbol::Symbol;
use mib_rs::mib::trace::{
    parse_query, select_scope_name, symbol_matches_domain, trace_outcome, unscoped_target,
    ResolutionCandidate, ResolutionCandidateKind, ResolutionOutcome, ResolutionStrategy,
    ResolutionTraceError,
};
use mib_rs::mib::types::{ModuleId, ObjectId, TypeId};
use mib_rs::types::{ResolutionDomain, ResolverStrictness};

fn candidate(symbol: Symbol, applicable: bool) -> ResolutionCandidate {
    ResolutionCandidate {
        module: ModuleId::new(0),
        module_name: "M".to_string(),
        source_label: None,
        last_updated: String::new(),
        kind: ResolutionCandidateKind::from(symbol),
        symbol,
        oid: None,
        applicable,
    }
}

#[test]
fn queries_split_into_scope_and_symbol() {
    assert_eq!(parse_query("IF-MIB::ifIndex"), Ok((Some("IF-MIB"), "ifIndex")));
    assert_eq!(parse_query("ifIndex"), Ok((None, "ifIndex")));
    assert_eq!(parse_query(""), Err(ResolutionTraceError::EmptyQuery));
    assert_eq!(
        parse_query("::x"),
        Err(ResolutionTraceError::InvalidQualifiedQuery("::x".to_string()))
    );
    assert_eq!(
        parse_query("A::b::c"),
        Err(ResolutionTraceError::InvalidQualifiedQuery("A::b::c".to_string()))
    );
    assert_eq!(parse_query("Ä::ö"), Ok((Some("Ä"), "ö")));
}

#[test]
fn scopes_must_agree() {
    assert_eq!(select_scope_name(Some("A"), Some("A")), Ok(Some("A")));
    assert_eq!(select_scope_name(None, Some("B")), Ok(Some("B")));
    assert_eq!(select_scope_name(None, None), Ok(None));
    assert_eq!(
        select_scope_name(Some("A"), Some("B")),
        Err(ResolutionTraceError::ConflictingScope {
            query_scope: "A".to_string(),
            explicit_scope: "B".to_string()
        })
    );
}

#[test]
fn unscoped_lookups_need_one_applicable_candidate() {
    let one = vec![
        candidate(Symbol::Object(ObjectId::new(1)), true),
        candidate(Symbol::Type(TypeId::new(1)), false),
    ];
    let target = unscoped_target(&one).unwrap();
    assert_eq!(target.strategy, ResolutionStrategy::UniqueCandidate);
    assert_eq!(target.candidate.symbol, Symbol::Object(ObjectId::new(1)));
    assert_eq!(trace_outcome(true, false, &one), ResolutionOutcome::Resolved);
    let two = vec![
        candidate(Symbol::Object(ObjectId::new(1)), true),
        candidate(Symbol::Object(ObjectId::new(2)), true),
    ];
    assert!(unscoped_target(&two).is_none());
    assert_eq!(trace_outcome(false, false, &two), ResolutionOutcome::Ambiguous);
    assert_eq!(trace_outcome(false, true, &two), ResolutionOutcome::Missing);
    assert_eq!(ResolutionCandidateKind::Group.as_str(), "group");
    assert_eq!(ResolutionStrategy::AliasImport.as_str(), "import alias");
}

#[test]
fn domains_and_fallback_rules() {
    assert!(symbol_matches_domain(Symbol::Type(TypeId::new(0)), ResolutionDomain::Index, "Integer32"));
    assert!(!symbol_matches_domain(Symbol::Type(TypeId::new(0)), ResolutionDomain::Index, "ifIndex"));
    assert!(!symbol_matches_domain(Symbol::Type(TypeId::new(0)), ResolutionDomain::Oid, "x"));
    assert!(is_bare_index_type("NetworkAddress"));
    assert_eq!(fallback_domain(ResolutionDomain::Index, "BITS"), ResolutionDomain::Type);
    assert_eq!(intrinsic_foundation_module(ResolutionDomain::Oid, "iso"), Some("SNMPv2-SMI"));
    assert_eq!(intrinsic_foundation_module(ResolutionDomain::Object, "iso"), None);
    assert_eq!(
        constrained_foundation_modules(ResolutionDomain::Type, ResolverStrictness::Normal),
        vec!["SNMPv2-SMI", "RFC1155-SMI", "SNMPv2-TC"]
    );
    assert!(constrained_foundation_modules(ResolutionDomain::Type, ResolverStrictness::Strict).is_empty());
    assert!(allows_global_fallback(ResolutionDomain::Object, ResolverStrictness::Permissive));
    assert!(!allows_global_fallback(ResolutionDomain::Type, ResolverStrictness::Permissive));
}
