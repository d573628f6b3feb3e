use mib_rs::mib::resolver::imports::{base_module_import_alias, is_macro_symbol};
use mib_rs::mib::resolver::oids::{is_well_known_root, should_prefer_module, well_known_root_arc, ModuleRank};
use mib_rs::mib::resolver::checks::{
    basetype_bounds, defval_as_i64, diagnostic_base_from_name, is_exempt_notification,
    is_legal_index_basetype, is_numeric_base,
    normalize_type_name, sequence_types_compatible, validate_display_hint_integer,
    validate_display_hint_octet_string,
};
use mib_rs::mib::resolver::context::{finalize_unresolved, UnresolvedReason, UnresolvedTracking};
use mib_rs::mib::resolver::semantics::{binary_decode, hex_nibble, is_bare_type_index, status_ord};
use mib_rs::mib::resolver::types::{
    base_constraint, base_type_from_name, foundation_base_type, foundation_type_description,
    intersect_constraints,
    resolve_base_from_chain, effective_constraints, compute_effective_constraints, EffectiveConstraint,
};
use mib_rs::mib::resolver::util::language_rank;
use mib_rs::mib::typedef::TypeData;
use mib_rs::mib::types::{DefVal, Range, RangeBound, TypeId, UnresolvedKind};
use mib_rs::types::{BaseType, Language, Span, Status};

fn range(min: RangeBound, max: RangeBound) -> Range {
    Range {
        min,
        max,
        span: Span::synthetic(),
    }
}

#[test]
fn binary_strings_pad_to_whole_bytes() {
    assert_eq!(binary_decode("'101'B", false), vec![0b0000_0101]);
    assert_eq!(binary_decode("'101'B", true), vec![0b1010_0000]);
    assert_eq!(binary_decode("'111111111'B", false), vec![0x01, 0xFF]);
    assert!(binary_decode("''B", false).is_empty());
    assert_eq!(hex_nibble(b'f'), Some(15));
    assert_eq!(hex_nibble(b'g'), None);
    assert_eq!(status_ord(Status::Obsolete), 2);
    assert_eq!(status_ord(Status::Mandatory), 0);
}

#[test]
fn display_hints_follow_the_smi_grammar() {
    assert!(validate_display_hint_integer("d-2"));
    assert!(validate_display_hint_integer("x"));
    assert!(!validate_display_hint_integer("d-"));
    assert!(!validate_display_hint_integer("d2"));
    assert!(!validate_display_hint_integer(""));
    assert!(validate_display_hint_octet_string("255a"));
    assert!(validate_display_hint_octet_string("1d.1d.1d.1d"));
    assert!(validate_display_hint_octet_string("*1x:"));
    assert!(!validate_display_hint_octet_string("0a"));
    assert!(!validate_display_hint_octet_string("a"));
    assert!(!validate_display_hint_octet_string("1q"));
    assert!(!validate_display_hint_octet_string(""));
}

#[test]
fn type_names_and_bounds() {
    assert_eq!(base_type_from_name("Gauge"), BaseType::Gauge32);
    assert_eq!(base_type_from_name("ObjectName"), BaseType::ObjectIdentifier);
    assert_eq!(base_type_from_name("Foo"), BaseType::Unknown);
    assert_eq!(foundation_base_type("NetworkAddress"), Some(BaseType::IpAddress));
    assert_eq!(foundation_base_type("INTEGER"), None);
    assert_eq!(normalize_type_name("Counter"), "Counter32");
    assert_eq!(normalize_type_name("Other"), "Other");
    assert!(sequence_types_compatible("INTEGER", "Integer32", BaseType::Unknown));
    assert!(sequence_types_compatible("INTEGER", "MyEnum", BaseType::Integer32));
    assert!(sequence_types_compatible("OCTET STRING", "MyBits", BaseType::Bits));
    assert!(!sequence_types_compatible("OCTET STRING", "MyInt", BaseType::Integer32));
    assert_eq!(basetype_bounds(BaseType::Integer32), Some((-2147483648, 2147483647)));
    assert!(!is_numeric_base(BaseType::OctetString));
    assert!(is_legal_index_basetype(BaseType::IpAddress));
    assert!(!is_legal_index_basetype(BaseType::Sequence));
    assert!(is_exempt_notification("IF-MIB", "linkUp"));
    assert!(!is_exempt_notification("IF-MIB", "coldStart"));
    assert_eq!(language_rank(Language::SPPI), 1);
}

#[test]
fn intersection_keeps_overlaps_with_each_alternative() {
    let own = vec![range(RangeBound::Signed(5), RangeBound::Signed(50))];
    let parent = vec![
        range(RangeBound::Signed(0), RangeBound::Signed(10)),
        range(RangeBound::Signed(20), RangeBound::Signed(30)),
        range(RangeBound::Signed(60), RangeBound::Signed(70)),
    ];
    let result = intersect_constraints(&own, &parent);
    assert_eq!(result.len(), 2);
    assert_eq!(result[0].min, RangeBound::Signed(5));
    assert_eq!(result[0].max, RangeBound::Signed(10));
    assert_eq!(result[1].min, RangeBound::Signed(20));
    assert_eq!(result[1].max, RangeBound::Signed(30));
}

#[test]
fn symbolic_endpoints_take_the_parent_extremes() {
    let own = vec![range(RangeBound::Min, RangeBound::Unsigned(7))];
    let parent = vec![range(RangeBound::Unsigned(1), RangeBound::Unsigned(100))];
    let result = intersect_constraints(&own, &parent);
    assert_eq!(result.len(), 1);
    assert_eq!(result[0].min, RangeBound::Unsigned(1));
    assert_eq!(result[0].max, RangeBound::Unsigned(7));
    assert!(intersect_constraints(&[], &parent).is_empty());
    assert_eq!(intersect_constraints(&own, &[]).len(), 1);
}

#[test]
fn effective_constraints_inherit_or_intersect() {
    let parent = EffectiveConstraint {
        values: vec![range(RangeBound::Unsigned(0), RangeBound::Unsigned(9))],
        present: true,
    };
    let own = vec![range(RangeBound::Unsigned(5), RangeBound::Unsigned(20))];
    let r = effective_constraints(&own, &parent);
    assert!(r.present);
    assert_eq!(r.values.len(), 1);
    assert_eq!(r.values[0].max, RangeBound::Unsigned(9));
    let inherited = effective_constraints(&[], &parent);
    assert_eq!(inherited.values.len(), 1);
    let base = base_constraint(BaseType::Gauge32, false).unwrap();
    assert_eq!(base.max, RangeBound::Unsigned(4294967295));
    assert!(base_constraint(BaseType::OctetString, false).is_none());
    assert_eq!(base_constraint(BaseType::OctetString, true).unwrap().max, RangeBound::Unsigned(65535));
}

#[test]
fn base_type_comes_from_the_nearest_known_ancestor() {
    let mut root = TypeData::new("Root".to_string());
    root.base = BaseType::TimeTicks;
    let mut child = TypeData::new("Child".to_string());
    child.parent = Some(TypeId::new(0));
    let types = vec![root, child];
    assert_eq!(resolve_base_from_chain(&types, TypeId::new(1)), Some(BaseType::TimeTicks));
    let orphan = vec![TypeData::new("Orphan".to_string())];
    assert_eq!(resolve_base_from_chain(&orphan, TypeId::new(0)), None);
}

#[test]
fn unresolved_references_report_reason_text() {
    let pending = vec![UnresolvedTracking {
        kind: UnresolvedKind::Oid,
        symbol: "foo".to_string(),
        module: "M".to_string(),
        reason: UnresolvedReason::EnterpriseNotFound,
    }];
    let out = finalize_unresolved(pending);
    assert_eq!(out.len(), 1);
    assert_eq!(out[0].reason, "unknown_parent");
    assert_eq!(out[0].symbol, "foo");
    assert_eq!(UnresolvedReason::TypeNotFound.as_str(), "unknown_type");
}

#[test]
fn module_preference_follows_base_language_date_and_name() {
    let v1 = ModuleRank { is_base: false, language: Language::SMIv1, last_updated: "", name: "A-MIB" };
    let v2 = ModuleRank { is_base: false, language: Language::SMIv2, last_updated: "", name: "B-MIB" };
    let base = ModuleRank { is_base: true, language: Language::SMIv1, last_updated: "", name: "C-MIB" };
    let newer = ModuleRank { is_base: false, language: Language::SMIv2, last_updated: "200101010000Z", name: "D-MIB" };
    let older = ModuleRank { is_base: false, language: Language::SMIv2, last_updated: "9901010000Z", name: "E-MIB" };
    assert!(should_prefer_module(None, &v1));
    assert!(should_prefer_module(Some(&v1), &v2));
    assert!(!should_prefer_module(Some(&v2), &v1));
    assert!(should_prefer_module(Some(&v2), &base));
    assert!(should_prefer_module(Some(&older), &newer));
    assert!(!should_prefer_module(Some(&newer), &older));
    assert!(should_prefer_module(Some(&v2), &ModuleRank { name: "A-MIB", ..v2 }));
    assert_eq!(well_known_root_arc("joint-iso-ccitt"), Some(2));
    assert!(is_well_known_root("ccitt"));
    assert!(!is_well_known_root("org"));
}

#[test]
fn imports_rules() {
    assert!(is_macro_symbol("OBJECT-TYPE"));
    assert!(!is_macro_symbol("ifIndex"));
    assert_eq!(base_module_import_alias("RFC-1213"), Some("RFC1213-MIB"));
    assert_eq!(base_module_import_alias("IF-MIB"), None);
}

#[test]
fn normalized_timestamps_are_stable() {
    let once = mib_rs::mib::resolver::util::normalize_timestamp("0210180000Z");
    let twice = mib_rs::mib::resolver::util::normalize_timestamp(&once);
    assert_eq!(once, twice);
}

#[test]
fn foundation_types_have_standard_descriptions() {
    assert_eq!(
        foundation_type_description("Counter"),
        Some("A non-negative integer that monotonically increases to a maximum of 4294967295, then wraps to zero.")
    );
    assert_eq!(foundation_type_description("Counter"), foundation_type_description("Counter32"));
    assert_eq!(
        foundation_type_description("OCTET STRING"),
        Some("An ordered sequence of zero or more octets.")
    );
    assert_ne!(foundation_type_description("Gauge"), foundation_type_description("Gauge32"));
    assert_eq!(foundation_type_description("DisplayString"), None);
}

#[test]
fn arena_constraints_follow_parent_chains() {
    let s = RangeBound::Signed;
    let u = RangeBound::Unsigned;
    let inputs = vec![
        // Integer32 with its own range: the base range bounds it.
        (Vec::new(), vec![range(s(0), s(10))], None, BaseType::Integer32),
        // A refinement of type 0.
        (Vec::new(), vec![range(s(2), s(5))], Some(TypeId(0)), BaseType::Integer32),
        // A refinement of type 1 with no ranges of its own inherits them.
        (vec![range(u(1), u(4))], Vec::new(), Some(TypeId(1)), BaseType::OctetString),
        // Two types that name each other.
        (Vec::new(), Vec::new(), Some(TypeId(4)), BaseType::Integer32),
        (Vec::new(), Vec::new(), Some(TypeId(3)), BaseType::Integer32),
    ];
    let out = compute_effective_constraints(&inputs);
    assert_eq!(out.len(), 5);
    let (sizes0, ranges0) = &out[0];
    assert!(!sizes0.present && sizes0.values.is_empty());
    assert!(ranges0.present);
    assert_eq!(ranges0.values.len(), 1);
    assert_eq!((ranges0.values[0].min.clone(), ranges0.values[0].max.clone()), (s(0), s(10)));
    let (_, ranges1) = &out[1];
    assert!(ranges1.present);
    assert_eq!((ranges1.values[0].min.clone(), ranges1.values[0].max.clone()), (s(2), s(5)));
    let (sizes2, ranges2) = &out[2];
    assert!(sizes2.present);
    assert_eq!((sizes2.values[0].min.clone(), sizes2.values[0].max.clone()), (u(1), u(4)));
    assert_eq!((ranges2.values[0].min.clone(), ranges2.values[0].max.clone()), (s(2), s(5)));
    let (sizes3, ranges3) = &out[3];
    assert!(!sizes3.present && !ranges3.present);
}

#[test]
fn diagnostic_base_ignores_unknown_names() {
    assert_eq!(diagnostic_base_from_name("Integer32"), Some(BaseType::Integer32));
    assert_eq!(diagnostic_base_from_name("Gauge"), Some(BaseType::Gauge32));
    assert_eq!(diagnostic_base_from_name("DisplayString"), None);
}

#[test]
fn defval_integers_and_labels_map_to_values() {
    let row_status_actions = [(4i64, "createAndGo"), (5, "createAndWait"), (6, "destroy")];
    assert_eq!(defval_as_i64(&DefVal::integer(-3, "-3".to_string()), &row_status_actions), Some(-3));
    assert_eq!(defval_as_i64(&DefVal::uint(7, "7".to_string()), &row_status_actions), Some(7));
    assert_eq!(defval_as_i64(&DefVal::uint(u64::MAX, "18446744073709551615".to_string()), &row_status_actions), None);
    assert_eq!(
        defval_as_i64(&DefVal::enumeration("createAndWait".to_string(), "createAndWait".to_string()), &row_status_actions),
        Some(5)
    );
    assert_eq!(
        defval_as_i64(&DefVal::enumeration("active".to_string(), "active".to_string()), &row_status_actions),
        None
    );
    assert_eq!(defval_as_i64(&DefVal::string("x".to_string(), "\"x\"".to_string()), &row_status_actions), None);
}

#[test]
fn bare_type_index_names() {
    assert!(is_bare_type_index("OCTET STRING"));
    assert!(is_bare_type_index("NetworkAddress"));
    assert!(!is_bare_type_index("ifIndex"));
}

#[test]
fn effective_constraints_of_a_self_parented_type_stop_at_the_depth_limit() {
    let own = vec![range(RangeBound::Signed(1), RangeBound::Signed(5))];
    let inputs = vec![(Vec::new(), own, Some(TypeId::new(0)), BaseType::Integer32)];
    let out = compute_effective_constraints(&inputs);
    assert_eq!(out.len(), 1);
    let (sizes, ranges) = &out[0];
    assert!(!sizes.present && sizes.values.is_empty());
    assert!(ranges.present);
    assert_eq!(ranges.values.len(), 1);
    assert_eq!(
        (ranges.values[0].min.clone(), ranges.values[0].max.clone()),
        (RangeBound::Signed(1), RangeBound::Signed(5))
    );
}
