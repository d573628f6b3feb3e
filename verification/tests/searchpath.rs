use mib_rs::searchpath::{
    apply_libsmi_env, apply_netsnmp_env, dedup, expand_netsnmp_home, parse_colon_semantic,
    parse_libsmi_line, parse_netsnmp_line, split_paths, PathOp,
};

#[test]
fn parse_netsnmp_mibdirs() {
    let (op, dirs) = parse_netsnmp_line("mibdirs /usr/share/snmp/mibs").unwrap();
    assert!(matches!(op, PathOp::Replace));
    assert_eq!(dirs, vec!["/usr/share/snmp/mibs"]);
}

#[test]
fn parse_netsnmp_append() {
    let (op, dirs) = parse_netsnmp_line("mibdirs +/extra/mibs").unwrap();
    assert!(matches!(op, PathOp::Append));
    assert_eq!(dirs, vec!["/extra/mibs"]);
}

#[test]
fn parse_netsnmp_prepend() {
    let (op, dirs) = parse_netsnmp_line("+mibdirs /extra/mibs").unwrap();
    assert!(matches!(op, PathOp::Append));
    assert_eq!(dirs, vec!["/extra/mibs"]);
}

#[test]
fn parse_netsnmp_comment_ignored() {
    assert!(parse_netsnmp_line("# comment").is_none());
}

#[test]
fn netsnmp_home_expansion_is_literal_only() {
    let result = expand_netsnmp_home(
        vec![
            "$HOME/mibs/$HOME".into(),
            "~/mibs".into(),
            "$USER/mibs".into(),
            "${HOME}/mibs".into(),
        ],
        Some("/home/test"),
    );
    assert_eq!(
        result,
        vec![
            "/home/test/mibs//home/test",
            "~/mibs",
            "$USER/mibs",
            "${HOME}/mibs",
        ]
    );
}

#[test]
fn parse_libsmi_path() {
    let (op, dirs) = parse_libsmi_line("path /usr/share/mibs/ietf").unwrap();
    assert!(matches!(op, PathOp::Replace));
    assert_eq!(dirs, vec!["/usr/share/mibs/ietf"]);
}

#[test]
fn parse_libsmi_tagged_skipped() {
    assert!(parse_libsmi_line("smilint: path /foo").is_none());
}

#[test]
fn split_paths_basic() {
    let result = split_paths("/a:/b:/c");
    assert_eq!(result, vec!["/a", "/b", "/c"]);
}

#[test]
fn split_paths_empty() {
    assert!(split_paths("").is_empty());
}

#[test]
fn dedup_preserves_order() {
    let result = dedup(vec!["a".into(), "b".into(), "a".into(), "c".into()]);
    assert_eq!(result, vec!["a", "b", "c"]);
}

#[test]
fn netsnmp_prepend_directive_and_value_prefixes() {
    let (op, dirs) = parse_netsnmp_line("  -mibdirs /first:/second  ").unwrap();
    assert_eq!(op, PathOp::Prepend);
    assert_eq!(dirs, vec!["/first", "/second"]);
    let (op, dirs) = parse_netsnmp_line("mibdirs -/x::/y").unwrap();
    assert_eq!(op, PathOp::Prepend);
    assert_eq!(dirs, vec!["/x", "/y"]);
    assert!(parse_netsnmp_line("mibdirs").is_none());
    assert!(parse_netsnmp_line("   ").is_none());
    assert!(parse_netsnmp_line("other /x").is_none());
}

#[test]
fn unicode_whitespace_separates_words() {
    let (op, dirs) = parse_netsnmp_line("mibdirs\u{a0}/wide").unwrap();
    assert_eq!(op, PathOp::Replace);
    assert_eq!(dirs, vec!["/wide"]);
}

#[test]
fn libsmi_colon_semantics() {
    assert_eq!(parse_colon_semantic(":/a").0, PathOp::Append);
    assert_eq!(parse_colon_semantic("/a:").0, PathOp::Prepend);
    assert_eq!(parse_colon_semantic("/a:/b").1, vec!["/a", "/b"]);
    assert!(parse_libsmi_line("path").is_none());
    assert!(parse_libsmi_line("paths /x").is_none());
}

#[test]
fn env_values_combine_with_current_list() {
    let current = vec!["/cur".to_string()];
    assert_eq!(
        apply_netsnmp_env("+$HOME/m", current.clone(), Some("/h")),
        vec!["/cur", "/h/m"]
    );
    assert_eq!(
        apply_netsnmp_env("-/p", current.clone(), None),
        vec!["/p", "/cur"]
    );
    assert_eq!(apply_netsnmp_env("/r", current.clone(), None), vec!["/r"]);
    assert_eq!(apply_libsmi_env(":/s", current.clone()), vec!["/cur", "/s"]);
    assert_eq!(apply_libsmi_env("/s:", current.clone()), vec!["/s", "/cur"]);
}

#[test]
fn dedup_keeps_each_path_once() {
    let result = dedup(vec!["x".into(), "x".into(), "y".into(), "x".into()]);
    assert_eq!(result, vec!["x", "y"]);
}

#[test]
fn netsnmp_env_home_expansion_happens_before_dedup() {
    let paths = apply_netsnmp_env("$HOME/mibs:/t/mibs:$HOME/missing", Vec::new(), Some("/t"));
    assert_eq!(paths, vec!["/t/mibs", "/t/mibs", "/t/missing"]);
    assert_eq!(dedup(paths), vec!["/t/mibs", "/t/missing"]);
}
