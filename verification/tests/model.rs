use mib_rs::mib::oid::Oid;
use mib_rs::mib::symbol::Symbol;
use mib_rs::mib::typedef::TypeData;
use mib_rs::mib::types::{
    DefVal, DefValKind, DefValValue, NamedValue, ObjectId, Range, RangeBound, TypeId,
    UnresolvedKind,
};
use mib_rs::mib::types::{classify_index_encoding, is_fixed_size};
use mib_rs::types::{BaseType, IndexEncoding, Span};

fn named(label: &str, value: i64) -> NamedValue {
    NamedValue {
        label: label.to_string(),
        value,
        span: Span::synthetic(),
    }
}

fn range(min: RangeBound, max: RangeBound) -> Range {
    Range {
        min,
        max,
        span: Span::synthetic(),
    }
}

#[test]
fn range_bounds_convert_when_representable() {
    assert_eq!(RangeBound::Signed(-5).as_i64(), Some(-5));
    assert_eq!(RangeBound::Signed(-5).as_u64(), None);
    assert_eq!(RangeBound::Unsigned(u64::MAX).as_i64(), None);
    assert_eq!(RangeBound::Unsigned(7).as_i64(), Some(7));
    assert_eq!(RangeBound::Unsigned(u64::MAX).as_u64(), Some(u64::MAX));
    assert_eq!(RangeBound::Max.as_u64(), None);
    assert!(RangeBound::Signed(1).is_concrete());
    assert!(!RangeBound::Raw("x".to_string()).is_concrete());
    assert!(range(RangeBound::Signed(0), RangeBound::Unsigned(3)).is_resolved());
    assert!(!range(RangeBound::Min, RangeBound::Unsigned(3)).is_resolved());
}

#[test]
fn defval_kind_names_its_value() {
    let d = DefVal::integer(-3, "-3".to_string());
    assert_eq!(d.kind(), DefValKind::Int);
    assert!(matches!(d.value(), DefValValue::Int(-3)));
    assert_eq!(d.raw(), "-3");
    assert!(!d.is_unset());
    let u = DefVal::unset();
    assert!(u.is_unset());
    assert_eq!(u.raw(), "");
    let o = DefVal::oid(Oid::from_arcs(vec![1, 3, 6]), "{ iso 3 6 }".to_string());
    assert_eq!(o.kind(), DefValKind::Oid);
    assert_eq!(o.clone().kind(), DefValKind::Oid);
    assert_eq!(DefVal::bytes(vec![1], "'01'H".to_string()).kind().as_str(), "bytes");
    assert_eq!(UnresolvedKind::NotificationObject.as_str(), "notification-object");
}

#[test]
fn symbol_accessors_pick_their_variant() {
    let s = Symbol::Object(ObjectId::new(4));
    assert_eq!(s.as_object(), Some(ObjectId::new(4)));
    assert_eq!(s.as_type(), None);
    let t = Symbol::Type(TypeId::new(2));
    assert_eq!(t.as_type().map(|id| id.index()), Some(2));
    assert_eq!(t.as_group(), None);
}

fn arena() -> Vec<TypeData> {
    let mut base = TypeData::new("Base".to_string());
    base.base = BaseType::Integer32;
    base.hint = "d".to_string();
    base.ranges = vec![range(RangeBound::Signed(0), RangeBound::Signed(10))];
    base.enums = vec![named("up", 1), named("down", 2)];
    let mut mid = TypeData::new("Mid".to_string());
    mid.parent = Some(TypeId::new(0));
    mid.sizes = vec![range(RangeBound::Unsigned(4), RangeBound::Unsigned(4))];
    let mut counter = TypeData::new("Ctr".to_string());
    counter.base = BaseType::Counter64;
    vec![base, mid, counter]
}

#[test]
fn effective_values_walk_the_parent_chain() {
    let types = arena();
    let mut leaf = TypeData::new("Leaf".to_string());
    leaf.parent = Some(TypeId::new(1));
    assert_eq!(leaf.effective_base(&types), BaseType::Integer32);
    assert_eq!(leaf.effective_display_hint(&types), "d");
    assert_eq!(leaf.effective_sizes(&types).len(), 1);
    assert_eq!(leaf.effective_ranges(&types).len(), 1);
    assert_eq!(leaf.effective_enums(&types).len(), 2);
    assert!(leaf.effective_bits(&types).is_empty());
    assert!(leaf.is_enumeration(&types));
    assert!(!leaf.is_bits(&types));
    assert!(!leaf.is_counter(&types));
    assert!(types[2].is_counter(&types));
    assert_eq!(types[0].enum_by_label("down").map(|v| v.value), Some(2));
    assert!(types[0].enum_by_label("sideways").is_none());
}

#[test]
fn own_values_win_over_inherited_ones() {
    let types = arena();
    let mut leaf = TypeData::new("Leaf".to_string());
    leaf.parent = Some(TypeId::new(0));
    leaf.hint = "x".to_string();
    leaf.base = BaseType::Unsigned32;
    assert_eq!(leaf.effective_display_hint(&types), "x");
    assert_eq!(leaf.effective_base(&types), BaseType::Unsigned32);
    assert!(!leaf.is_gauge(&types));
    assert!(!leaf.is_string(&types));
}

#[test]
fn chain_walk_stops_at_the_depth_limit() {
    let mut looped = TypeData::new("Loop".to_string());
    looped.parent = Some(TypeId::new(0));
    let types = vec![looped];
    let start = TypeData {
        parent: Some(TypeId::new(0)),
        ..TypeData::new("Start".to_string())
    };
    assert_eq!(start.effective_base(&types), BaseType::Unknown);
    assert_eq!(start.effective_display_hint(&types), "");
}

#[test]
fn ranges_admit_values_between_their_endpoints() {
    let r = range(RangeBound::Signed(-5), RangeBound::Unsigned(10));
    assert!(r.contains_i64(-5));
    assert!(r.contains_u64(10));
    assert!(!r.contains_u64(11));
    assert!(!r.contains_i64(-6));
    let open = range(RangeBound::Min, RangeBound::Max);
    assert!(open.contains_i64(i64::MIN));
    let raw = range(RangeBound::Raw("x".to_string()), RangeBound::Max);
    assert!(!raw.contains_i64(0));
    assert_eq!(
        RangeBound::Signed(-1).cmp_value(&RangeBound::Unsigned(0)),
        Some(std::cmp::Ordering::Less)
    );
    assert_eq!(RangeBound::Max.cmp_value(&RangeBound::Max), Some(std::cmp::Ordering::Equal));
    assert_eq!(RangeBound::Raw("a".to_string()).cmp_value(&RangeBound::Min), None);
    let fixed = vec![range(RangeBound::Unsigned(6), RangeBound::Unsigned(6))];
    assert!(is_fixed_size(&fixed));
    assert!(!is_fixed_size(&[range(RangeBound::Unsigned(0), RangeBound::Unsigned(0))]));
    assert_eq!(
        classify_index_encoding(BaseType::OctetString, false, &fixed),
        IndexEncoding::FixedString
    );
    assert_eq!(
        classify_index_encoding(BaseType::OctetString, true, &fixed),
        IndexEncoding::Implied
    );
    assert_eq!(
        classify_index_encoding(BaseType::ObjectIdentifier, false, &[]),
        IndexEncoding::LengthPrefixed
    );
    assert_eq!(classify_index_encoding(BaseType::Counter64, false, &[]), IndexEncoding::Integer);
    assert_eq!(classify_index_encoding(BaseType::Sequence, false, &[]), IndexEncoding::Unknown);
}

#[test]
fn values_are_written_in_mib_syntax() {
    assert_eq!(RangeBound::Signed(i64::MIN).display_text(), "-9223372036854775808");
    assert_eq!(RangeBound::Unsigned(42).display_text(), "42");
    assert_eq!(RangeBound::Max.display_text(), "MAX");
    assert_eq!(range(RangeBound::Signed(3), RangeBound::Signed(3)).display_text(), "3");
    assert_eq!(range(RangeBound::Min, RangeBound::Unsigned(9)).display_text(), "MIN..9");
    assert_eq!(DefVal::integer(-7, "-7".to_string()).display_text(), "-7");
    assert_eq!(
        DefVal::string("say \"hi\"".to_string(), "\"say hi\"".to_string()).display_text(),
        "\"say \\\"hi\\\"\""
    );
    assert_eq!(DefVal::bytes(vec![0x0a, 0xff], "'0AFF'H".to_string()).display_text(), "0x0AFF");
    assert_eq!(DefVal::bits(vec![], "{}".to_string()).display_text(), "{ }");
    assert_eq!(
        DefVal::bits(vec!["a".to_string(), "b".to_string()], "{a,b}".to_string()).display_text(),
        "{ a, b }"
    );
    assert_eq!(
        DefVal::oid(Oid::from_arcs(vec![1]), "{ iso }".to_string()).display_text(),
        "{ iso }"
    );
    assert_eq!(DefVal::unset().display_text(), "");
    assert_eq!(DefVal::enumeration("up".to_string(), "up".to_string()).display_text(), "up");
}

#[test]
fn self_parented_type_stops_at_the_depth_limit() {
    let mut looped = TypeData::new("Loop".to_string());
    looped.parent = Some(TypeId::new(0));
    let types = vec![looped.clone()];
    assert!(types[0].effective_enums(&types).is_empty());
    assert_eq!(types[0].effective_base(&types), BaseType::Unknown);
    assert!(!types[0].is_bits(&types));
}

#[test]
fn only_the_parents_reached_are_read() {
    let mut base = TypeData::new("Base".to_string());
    base.base = BaseType::Counter32;
    let mut stray = TypeData::new("Stray".to_string());
    stray.parent = Some(TypeId::new(99));
    let types = vec![base, stray];
    let mut leaf = TypeData::new("Leaf".to_string());
    leaf.parent = Some(TypeId::new(0));
    assert_eq!(leaf.effective_base(&types), BaseType::Counter32);
    assert!(leaf.is_counter(&types));
}
