use mib_rs::scan::{looks_like_mib_content, scan_module_names};

#[test]
fn basic_scan() {
    let content = b"IF-MIB DEFINITIONS ::= BEGIN\nEND";
    let names = scan_module_names(content);
    assert_eq!(names, vec!["IF-MIB"]);
}

#[test]
fn multiple_modules() {
    let content = b"MOD-A DEFINITIONS ::= BEGIN\nEND\n\nMOD-B DEFINITIONS ::= BEGIN\nEND";
    let names = scan_module_names(content);
    assert_eq!(names, vec!["MOD-A", "MOD-B"]);
}

#[test]
fn commented_out_skipped() {
    let content = b"-- FAKE-MIB DEFINITIONS ::= BEGIN\nREAL-MIB DEFINITIONS ::= BEGIN\nEND";
    let names = scan_module_names(content);
    assert_eq!(names, vec!["REAL-MIB"]);
}

#[test]
fn lowercase_name_rejected() {
    let content = b"badname DEFINITIONS ::= BEGIN\nEND";
    let names = scan_module_names(content);
    assert!(names.is_empty());
}

#[test]
fn reserved_keyword_name_is_retained_for_parser_diagnostics() {
    let content = b"TRUE DEFINITIONS ::= BEGIN\nEND";
    let names = scan_module_names(content);
    assert_eq!(names, vec!["TRUE"]);
}

#[test]
fn comment_between_name_and_definitions() {
    let content = b"FROGFOOT-RESOURCES-MIB\n\n-- -*- mib -*-\n\nDEFINITIONS ::= BEGIN\nEND";
    let names = scan_module_names(content);
    assert_eq!(names, vec!["FROGFOOT-RESOURCES-MIB"]);
}

#[test]
fn multiple_comment_lines_between_name_and_definitions() {
    let content = b"MY-MIB\n-- comment 1\n-- comment 2\n\nDEFINITIONS ::= BEGIN\nEND";
    let names = scan_module_names(content);
    assert_eq!(names, vec!["MY-MIB"]);
}

#[test]
fn obsolete_module_oid_is_accepted() {
    let content = b"OLD-MIB { iso 3 } DEFINITIONS ::= BEGIN\nEND";
    let names = scan_module_names(content);
    assert_eq!(names, vec!["OLD-MIB"]);
}

#[test]
fn quoted_and_partial_headers_are_rejected() {
    let content = br#"REAL-MIB DEFINITIONS ::= BEGIN
DESCRIPTION "QUOTED-MIB DEFINITIONS ::= BEGIN"
LONGER-MIB MY-DEFINITIONS ::= BEGIN
NO-ASSIGN-MIB DEFINITIONS MYASSIGN::= BEGIN
NO-BEGIN-MIB DEFINITIONS ::= SOMETHING
END
"#;
    let names = scan_module_names(content);
    assert_eq!(names, vec!["REAL-MIB"]);
}

#[test]
fn header_sequence_after_leading_token_is_rejected() {
    let content = b"LEADING-TOKEN REAL-MIB DEFINITIONS ::= BEGIN\nEND";
    assert!(scan_module_names(content).is_empty());
}

#[test]
fn heuristic_accepts_mib() {
    assert!(looks_like_mib_content(b"FOO DEFINITIONS ::= BEGIN END"));
}

#[test]
fn heuristic_rejects_empty() {
    assert!(!looks_like_mib_content(b""));
}

#[test]
fn heuristic_rejects_binary() {
    assert!(!looks_like_mib_content(b"FOO\0DEFINITIONS ::= BEGIN"));
}

#[test]
fn heuristic_rejects_no_definitions() {
    assert!(!looks_like_mib_content(b"just some text ::="));
}
