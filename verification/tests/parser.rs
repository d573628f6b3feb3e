use mib_rs::ast::{
    Constraint, DefVal, Definition, Module, OidComponent, RangeValue, TypeSyntax,
};
use mib_rs::parser::{parse, strip_string_literal};
use mib_rs::source::{SourceOrigin, SourceSet};
use mib_rs::types::{Access, AccessKeyword, DiagCode, DiagnosticConfig, Status};

fn parse_with_config(input: &str, config: &DiagnosticConfig) -> Vec<Module> {
    let mut sources = SourceSet::new();
    let id = sources
        .insert(
            SourceOrigin::memory("parser-test"),
            "parser-test",
            input.as_bytes(),
        )
        .unwrap();
    parse(sources.get(id).unwrap(), config)
}

fn parse_str(input: &str) -> Vec<Module> {
    parse_with_config(input, &DiagnosticConfig::default())
}

fn parse_strict(input: &str) -> Vec<Module> {
    parse_with_config(input, &DiagnosticConfig::verbose())
}

#[test]
fn empty_input() {
    let modules = parse_str("");
    assert_eq!(modules.len(), 1);
    assert!(modules[0].name.is_none());
    assert_eq!(modules[0].span.byte_range(), 0..0);
}

#[test]
fn minimal_module() {
    let input = "TEST-MIB DEFINITIONS ::= BEGIN\nEND\n";
    let modules = parse_str(input);
    assert_eq!(modules.len(), 1);
    assert_eq!(modules[0].name.as_ref().unwrap().name, "TEST-MIB");
    assert!(modules[0].imports.is_empty());
    assert!(modules[0].body.is_empty());
}

#[test]
fn lexer_diagnostic_in_initial_lookahead_is_preserved() {
    let input = "TEST-MIB { 01 } DEFINITIONS ::= BEGIN\nEND\n";
    let modules = parse_strict(input);

    assert_eq!(modules.len(), 1);
    let diagnostics: Vec<_> = modules[0]
        .diagnostics
        .iter()
        .filter(|diag| diag.code == DiagCode::NumberLeadingZero)
        .collect();
    assert_eq!(diagnostics.len(), 1);
    assert_eq!(diagnostics[0].range.unwrap().byte_range(), 11..13);
    assert_eq!(
        diagnostics[0].range.unwrap().source(),
        modules[0].span.source()
    );
    assert_eq!(diagnostics[0].module.as_deref(), Some("TEST-MIB"));
}

#[test]
fn malformed_terminal_header_preserves_lookahead_lexer_diagnostic() {
    let input = "BAD FOO 01\n";
    let modules = parse_strict(input);

    assert_eq!(modules.len(), 1);
    assert!(modules[0].name.is_none());
    let diagnostics: Vec<_> = modules[0]
        .diagnostics
        .iter()
        .filter(|diag| diag.code == DiagCode::NumberLeadingZero)
        .collect();
    assert_eq!(diagnostics.len(), 1);
    assert_eq!(diagnostics[0].range.unwrap().byte_range(), 8..10);
    assert_eq!(
        diagnostics[0].range.unwrap().source(),
        modules[0].span.source()
    );
}

#[test]
fn leading_skipped_lexer_diagnostic_is_attached_to_first_module() {
    let input = "@\nTEST-MIB DEFINITIONS ::= BEGIN\nEND\n";
    let modules = parse_strict(input);

    assert_eq!(modules.len(), 1);
    let diagnostics: Vec<_> = modules[0]
        .diagnostics
        .iter()
        .filter(|diag| diag.code == DiagCode::UnexpectedCharacter)
        .collect();
    assert_eq!(diagnostics.len(), 1);
    assert_eq!(diagnostics[0].range.unwrap().byte_range(), 0..1);
    assert_eq!(
        diagnostics[0].range.unwrap().source(),
        modules[0].span.source()
    );
}

#[test]
fn trailing_skipped_lexer_diagnostic_is_attached_to_last_module() {
    let input = "TEST-MIB DEFINITIONS ::= BEGIN\n@";
    let modules = parse_strict(input);

    assert_eq!(modules.len(), 1);
    let diagnostics: Vec<_> = modules[0]
        .diagnostics
        .iter()
        .filter(|diag| diag.code == DiagCode::UnexpectedCharacter)
        .collect();
    assert_eq!(diagnostics.len(), 1);
    let at = input.find('@').unwrap();
    assert_eq!(diagnostics[0].range.unwrap().byte_range(), at..at + 1);
    assert_eq!(
        diagnostics[0].range.unwrap().source(),
        modules[0].span.source()
    );
    assert!(
        modules[0]
            .diagnostics
            .iter()
            .any(|diag| diag.code == DiagCode::ParseError)
    );
}

#[test]
fn lexer_diagnostic_from_next_module_is_not_attached_to_previous_module() {
    let input = "FIRST-MIB DEFINITIONS ::= BEGIN\nEND\n\
SECOND-MIB { 02 } DEFINITIONS ::= BEGIN\nEND\n";
    let modules = parse_strict(input);

    assert_eq!(modules.len(), 2);
    assert_eq!(modules[0].name.as_ref().unwrap().name, "FIRST-MIB");
    assert_eq!(modules[1].name.as_ref().unwrap().name, "SECOND-MIB");
    assert!(
        modules[0]
            .diagnostics
            .iter()
            .all(|diag| diag.code != DiagCode::NumberLeadingZero)
    );
    let diagnostics: Vec<_> = modules[1]
        .diagnostics
        .iter()
        .filter(|diag| diag.code == DiagCode::NumberLeadingZero)
        .collect();
    assert_eq!(diagnostics.len(), 1);
    let number_start = input.find("02").unwrap();
    assert_eq!(
        diagnostics[0].range.unwrap().byte_range(),
        number_start..number_start + 2
    );
    assert_eq!(
        diagnostics[0].range.unwrap().source(),
        modules[1].span.source()
    );
}

#[test]
fn module_with_imports() {
    let input = r#"TEST-MIB DEFINITIONS ::= BEGIN
IMPORTS
MODULE-IDENTITY, OBJECT-TYPE, Integer32
    FROM SNMPv2-SMI
DisplayString
    FROM SNMPv2-TC;
END
"#;
    let modules = parse_str(input);
    assert_eq!(modules.len(), 1);
    assert_eq!(modules[0].imports.len(), 2);
    assert_eq!(modules[0].imports[0].symbols.len(), 3);
    assert_eq!(modules[0].imports[0].from_module.name, "SNMPv2-SMI");
    assert_eq!(modules[0].imports[1].symbols.len(), 1);
    assert_eq!(modules[0].imports[1].symbols[0].name, "DisplayString");
    assert_eq!(modules[0].imports[1].from_module.name, "SNMPv2-TC");
}

#[test]
fn many_exports_clauses_are_skipped_iteratively() {
    const EXPORTS_COUNT: usize = 100_000;

    let mut input = String::from("TEST-MIB DEFINITIONS ::= BEGIN\n");
    for _ in 0..EXPORTS_COUNT {
        input.push_str("EXPORTS;\n");
    }
    input.push_str("testObj OBJECT IDENTIFIER ::= { iso 3 }\nEND\n");

    let modules = parse_str(&input);

    assert_eq!(modules.len(), 1);
    assert!(modules[0].diagnostics.is_empty());
    assert_eq!(modules[0].body.len(), 1);
    assert!(matches!(
        &modules[0].body[0],
        Definition::ValueAssignment(d) if d.name.name == "testObj"
    ));
}

#[test]
fn exports_comment_semicolons_do_not_expose_the_remaining_body() {
    for exports_body in ["foo -- ignored;\nbar;", "foo -- ignored; -- bar;"] {
        let input = format!(
            "TEST-MIB DEFINITIONS ::= BEGIN\nEXPORTS {exports_body}\ntestObj OBJECT IDENTIFIER ::= {{ iso 3 }}\nEND\n"
        );

        let modules = parse_str(&input);

        assert_eq!(modules.len(), 1);
        assert!(modules[0].diagnostics.is_empty());
        assert_eq!(modules[0].body.len(), 1);
        assert!(matches!(
            &modules[0].body[0],
            Definition::ValueAssignment(d) if d.name.name == "testObj"
        ));
    }
}

#[test]
fn value_assignment() {
    let input = r#"TEST-MIB DEFINITIONS ::= BEGIN
testObj OBJECT IDENTIFIER ::= { iso 3 }
END
"#;
    let modules = parse_str(input);
    assert_eq!(modules[0].body.len(), 1);
    assert!(matches!(
        &modules[0].body[0],
        Definition::ValueAssignment(d) if d.name.name == "testObj"
    ));
}

#[test]
fn object_type() {
    let input = r#"TEST-MIB DEFINITIONS ::= BEGIN
ifIndex OBJECT-TYPE
SYNTAX      INTEGER
MAX-ACCESS  read-only
STATUS      current
DESCRIPTION "The index."
::= { ifEntry 1 }
END
"#;
    let modules = parse_str(input);
    assert_eq!(modules[0].body.len(), 1);
    match &modules[0].body[0] {
        Definition::ObjectType(d) => {
            assert_eq!(d.name.name, "ifIndex");
            assert!(d.syntax.is_some());
            assert!(d.access.is_some());
            assert!(d.status.is_some());
            assert_eq!(d.status.as_ref().unwrap().value, Status::Current);
            assert!(d.description.is_some());
            assert_eq!(d.oid.components.len(), 2);
        }
        other => panic!("expected ObjectType, got {:?}", other),
    }
}

#[test]
fn module_identity() {
    let input = r#"TEST-MIB DEFINITIONS ::= BEGIN
testMIB MODULE-IDENTITY
LAST-UPDATED "200606140000Z"
ORGANIZATION "Test"
CONTACT-INFO "test@test"
DESCRIPTION  "A test MIB."
REVISION     "200606140000Z"
DESCRIPTION  "Initial version."
::= { enterprises 1 }
END
"#;
    let modules = parse_str(input);
    assert_eq!(modules[0].body.len(), 1);
    match &modules[0].body[0] {
        Definition::ModuleIdentity(d) => {
            assert_eq!(d.name.name, "testMIB");
            assert_eq!(d.last_updated.value, "200606140000Z");
            assert_eq!(d.revisions.len(), 1);
        }
        other => panic!("expected ModuleIdentity, got {:?}", other),
    }
}

#[test]
fn type_assignment() {
    let input = r#"TEST-MIB DEFINITIONS ::= BEGIN
TestType ::= INTEGER (0..255)
END
"#;
    let modules = parse_str(input);
    assert_eq!(modules[0].body.len(), 1);
    match &modules[0].body[0] {
        Definition::TypeAssignment(d) => {
            assert_eq!(d.name.name, "TestType");
            assert!(matches!(d.syntax, TypeSyntax::Constrained { .. }));
        }
        other => panic!("expected TypeAssignment, got {:?}", other),
    }
}

#[test]
fn textual_convention() {
    let input = r#"TEST-MIB DEFINITIONS ::= BEGIN
MyString ::= TEXTUAL-CONVENTION
STATUS current
DESCRIPTION "A string."
SYNTAX OCTET STRING (SIZE (0..255))
END
"#;
    let modules = parse_str(input);
    assert_eq!(modules[0].body.len(), 1);
    assert!(matches!(
        &modules[0].body[0],
        Definition::TextualConvention(d) if d.name.name == "MyString"
    ));
}

#[test]
fn notification_type() {
    let input = r#"TEST-MIB DEFINITIONS ::= BEGIN
testNotif NOTIFICATION-TYPE
OBJECTS { testObj }
STATUS  current
DESCRIPTION "A notification."
::= { testMIB 1 }
END
"#;
    let modules = parse_str(input);
    assert_eq!(modules[0].body.len(), 1);
    match &modules[0].body[0] {
        Definition::NotificationType(d) => {
            assert_eq!(d.name.name, "testNotif");
            assert_eq!(d.objects.len(), 1);
        }
        other => panic!("expected NotificationType, got {:?}", other),
    }
}

#[test]
fn trap_type() {
    let input = r#"TEST-MIB DEFINITIONS ::= BEGIN
testTrap TRAP-TYPE
ENTERPRISE testEnterprise
VARIABLES { testObj }
DESCRIPTION "A trap."
::= 1
END
"#;
    let modules = parse_str(input);
    assert_eq!(modules[0].body.len(), 1);
    match &modules[0].body[0] {
        Definition::TrapType(d) => {
            assert_eq!(d.name.name, "testTrap");
            assert_eq!(d.enterprise.name, "testEnterprise");
            assert_eq!(d.trap_number, 1);
            assert_eq!(d.variables.len(), 1);
        }
        other => panic!("expected TrapType, got {:?}", other),
    }
}

#[test]
fn object_group() {
    let input = r#"TEST-MIB DEFINITIONS ::= BEGIN
testGroup OBJECT-GROUP
OBJECTS { testObj1, testObj2 }
STATUS  current
DESCRIPTION "A group."
::= { testMIB 2 }
END
"#;
    let modules = parse_str(input);
    assert_eq!(modules[0].body.len(), 1);
    match &modules[0].body[0] {
        Definition::ObjectGroup(d) => {
            assert_eq!(d.name.name, "testGroup");
            assert_eq!(d.objects.len(), 2);
        }
        other => panic!("expected ObjectGroup, got {:?}", other),
    }
}

#[test]
fn error_recovery() {
    let input = r#"TEST-MIB DEFINITIONS ::= BEGIN
@@@ garbage @@@
testObj OBJECT IDENTIFIER ::= { iso 3 }
END
"#;
    let modules = parse_str(input);
    // Should recover and parse the value assignment
    assert!(!modules[0].body.is_empty() || !modules[0].diagnostics.is_empty());
}

#[test]
fn multiple_definitions() {
    let input = r#"TEST-MIB DEFINITIONS ::= BEGIN
TestType ::= INTEGER
testObj OBJECT IDENTIFIER ::= { iso 3 }
END
"#;
    let modules = parse_str(input);
    assert_eq!(modules[0].body.len(), 2);
}

#[test]
fn oid_components() {
    let input = r#"TEST-MIB DEFINITIONS ::= BEGIN
testObj OBJECT IDENTIFIER ::= { iso org(3) dod(6) 1 }
END
"#;
    let modules = parse_str(input);
    match &modules[0].body[0] {
        Definition::ValueAssignment(d) => {
            assert_eq!(d.oid.components.len(), 4);
            assert!(matches!(&d.oid.components[0], OidComponent::Name(id) if id.name == "iso"));
            assert!(
                matches!(&d.oid.components[1], OidComponent::NamedNumber { name, num, .. } if name.name == "org" && *num == 3)
            );
        }
        other => panic!("expected ValueAssignment, got {:?}", other),
    }
}

#[test]
fn integer_enum_syntax() {
    let input = r#"TEST-MIB DEFINITIONS ::= BEGIN
TestStatus ::= INTEGER { up(1), down(2), testing(3) }
END
"#;
    let modules = parse_str(input);
    match &modules[0].body[0] {
        Definition::TypeAssignment(d) => {
            match &d.syntax {
                TypeSyntax::IntegerEnum {
                    base,
                    named_numbers,
                    ..
                } => {
                    assert!(base.is_none()); // bare INTEGER
                    assert_eq!(named_numbers.len(), 3);
                    assert_eq!(named_numbers[0].name.name, "up");
                    assert_eq!(named_numbers[0].value, 1);
                }
                other => panic!("expected IntegerEnum, got {:?}", other),
            }
        }
        other => panic!("expected TypeAssignment, got {:?}", other),
    }
}

#[test]
fn sequence_of_type() {
    let input = r#"TEST-MIB DEFINITIONS ::= BEGIN
TestTable ::= SEQUENCE OF TestEntry
END
"#;
    let modules = parse_str(input);
    match &modules[0].body[0] {
        Definition::TypeAssignment(d) => {
            assert!(
                matches!(&d.syntax, TypeSyntax::SequenceOf { entry_type, .. } if entry_type.name == "TestEntry")
            );
        }
        other => panic!("expected TypeAssignment, got {:?}", other),
    }
}

#[test]
fn object_type_with_index() {
    let input = r#"TEST-MIB DEFINITIONS ::= BEGIN
testEntry OBJECT-TYPE
SYNTAX TestEntry
MAX-ACCESS not-accessible
STATUS current
DESCRIPTION "A row."
INDEX { testIndex }
::= { testTable 1 }
END
"#;
    let modules = parse_str(input);
    match &modules[0].body[0] {
        Definition::ObjectType(d) => {
            assert!(d.index.is_some());
            assert_eq!(d.index.as_ref().unwrap().items.len(), 1);
            assert_eq!(d.index.as_ref().unwrap().items[0].object.name, "testIndex");
            assert!(!d.index.as_ref().unwrap().items[0].implied);
        }
        other => panic!("expected ObjectType, got {:?}", other),
    }
}

#[test]
fn object_type_with_augments() {
    let input = r#"TEST-MIB DEFINITIONS ::= BEGIN
testEntry OBJECT-TYPE
SYNTAX TestEntry
MAX-ACCESS not-accessible
STATUS current
DESCRIPTION "A row."
AUGMENTS { otherEntry }
::= { testTable 1 }
END
"#;
    let modules = parse_str(input);
    match &modules[0].body[0] {
        Definition::ObjectType(d) => {
            assert!(d.augments.is_some());
            assert_eq!(d.augments.as_ref().unwrap().target.name, "otherEntry");
        }
        other => panic!("expected ObjectType, got {:?}", other),
    }
}

#[test]
fn size_constraint() {
    let input = r#"TEST-MIB DEFINITIONS ::= BEGIN
TestStr ::= OCTET STRING (SIZE (0..255))
END
"#;
    let modules = parse_str(input);
    match &modules[0].body[0] {
        Definition::TypeAssignment(d) => match &d.syntax {
            TypeSyntax::Constrained {
                base, constraint, ..
            } => {
                assert!(matches!(**base, TypeSyntax::OctetString { .. }));
                match constraint {
                    Constraint::Size { ranges, .. } => {
                        assert_eq!(ranges.len(), 1);
                    }
                    other => panic!("expected Size constraint, got {:?}", other),
                }
            }
            other => panic!("expected Constrained, got {:?}", other),
        },
        other => panic!("expected TypeAssignment, got {:?}", other),
    }
}

#[test]
fn defval_integer() {
    let input = r#"TEST-MIB DEFINITIONS ::= BEGIN
testObj OBJECT-TYPE
SYNTAX INTEGER
MAX-ACCESS read-write
STATUS current
DESCRIPTION "test"
DEFVAL { 42 }
::= { test 1 }
END
"#;
    let modules = parse_str(input);
    match &modules[0].body[0] {
        Definition::ObjectType(d) => {
            assert!(d.defval.is_some());
            assert!(matches!(
                d.defval.as_ref().unwrap().value,
                DefVal::Integer(42)
            ));
        }
        other => panic!("expected ObjectType, got {:?}", other),
    }
}

#[test]
fn defval_bits() {
    let input = r#"TEST-MIB DEFINITIONS ::= BEGIN
testObj OBJECT-TYPE
SYNTAX BITS { flag1(0), flag2(1) }
MAX-ACCESS read-write
STATUS current
DESCRIPTION "test"
DEFVAL { { flag1 } }
::= { test 1 }
END
"#;
    let modules = parse_str(input);
    match &modules[0].body[0] {
        Definition::ObjectType(d) => {
            assert!(d.defval.is_some());
            match &d.defval.as_ref().unwrap().value {
                DefVal::Bits { labels, span } => {
                    assert_eq!(labels.len(), 1);
                    assert_eq!(labels[0].name, "flag1");
                    let start = input.rfind("flag1 }").unwrap();
                    let end = start + "flag1 ".len();
                    assert_eq!(span.byte_range(), start..end);
                    assert_eq!(&input[span.byte_range()], "flag1 ");
                }
                other => panic!("expected Bits DEFVAL, got {:?}", other),
            }
        }
        other => panic!("expected ObjectType, got {:?}", other),
    }
}

#[test]
fn identifier_underscore_diagnostic() {
    let input = r#"TEST_MIB DEFINITIONS ::= BEGIN
END
"#;
    let modules = parse_strict(input);
    assert!(
        modules[0]
            .diagnostics
            .iter()
            .any(|d| d.code == DiagCode::IdentifierUnderscore)
    );
}

#[test]
fn macro_definition_skipped() {
    let input = r#"TEST-MIB DEFINITIONS ::= BEGIN
OBJECT-TYPE MACRO ::= BEGIN
TYPE NOTATION ::= stuff stuff
END
testObj OBJECT IDENTIFIER ::= { iso 3 }
END
"#;
    let modules = parse_str(input);
    // Should have two definitions: the macro and the value assignment
    assert_eq!(modules[0].body.len(), 2);
    assert!(matches!(
        &modules[0].body[0],
        Definition::MacroDefinition(_)
    ));
    assert!(matches!(
        &modules[0].body[1],
        Definition::ValueAssignment(_)
    ));
}

#[test]
fn macro_definition_quoted_end_preserves_following_definition() {
    let input = r#"TEST-MIB DEFINITIONS ::= BEGIN
FOO MACRO ::= BEGIN
TYPE NOTATION ::= "END"
VALUE NOTATION ::= value(VALUE ObjectName)
END
testObj OBJECT IDENTIFIER ::= { iso 3 }
END
"#;
    let modules = parse_strict(input);

    assert_eq!(modules.len(), 1);
    assert_eq!(modules[0].body.len(), 2);
    assert!(matches!(
        &modules[0].body[0],
        Definition::MacroDefinition(_)
    ));
    assert!(matches!(
        &modules[0].body[1],
        Definition::ValueAssignment(d) if d.name.name == "testObj"
    ));
    assert!(
        modules[0]
            .diagnostics
            .iter()
            .all(|d| d.code != DiagCode::UnterminatedString),
        "quoted END in a MACRO body must not corrupt following syntax"
    );
}

#[test]
fn tagged_type() {
    let input = r#"TEST-MIB DEFINITIONS ::= BEGIN
TestType ::= [APPLICATION 0] IMPLICIT OCTET STRING
END
"#;
    let modules = parse_str(input);
    match &modules[0].body[0] {
        Definition::TypeAssignment(d) => {
            assert!(matches!(&d.syntax, TypeSyntax::Tagged { .. }));
        }
        other => panic!("expected TypeAssignment, got {:?}", other),
    }
}

#[test]
fn module_compliance() {
    let input = r#"TEST-MIB DEFINITIONS ::= BEGIN
testCompliance MODULE-COMPLIANCE
STATUS current
DESCRIPTION "Test compliance."
MODULE
    MANDATORY-GROUPS { testGroup }
    GROUP testOptGroup
        DESCRIPTION "Optional group."
    OBJECT testObj
        MIN-ACCESS read-only
        DESCRIPTION "Object refinement."
::= { testMIB 3 }
END
"#;
    let modules = parse_str(input);
    match &modules[0].body[0] {
        Definition::ModuleCompliance(d) => {
            assert_eq!(d.modules.len(), 1);
            assert_eq!(d.modules[0].mandatory_groups.len(), 1);
            assert_eq!(d.modules[0].compliances.len(), 2);
        }
        other => panic!("expected ModuleCompliance, got {:?}", other),
    }
}

#[test]
fn agent_capabilities() {
    let input = r#"TEST-MIB DEFINITIONS ::= BEGIN
testCapability AGENT-CAPABILITIES
PRODUCT-RELEASE "1.0"
STATUS current
DESCRIPTION "Test capability."
SUPPORTS SNMPv2-MIB
    INCLUDES { systemGroup }
    VARIATION sysDescr
        ACCESS read-only
        DESCRIPTION "Read-only."
::= { testMIB 4 }
END
"#;
    let modules = parse_str(input);
    match &modules[0].body[0] {
        Definition::AgentCapabilities(d) => {
            assert_eq!(d.supports.len(), 1);
            assert_eq!(d.supports[0].includes.len(), 1);
            assert_eq!(d.supports[0].variations.len(), 1);
        }
        other => panic!("expected AgentCapabilities, got {:?}", other),
    }
}

#[test]
fn range_constraint_with_pipe() {
    let input = r#"TEST-MIB DEFINITIONS ::= BEGIN
TestType ::= INTEGER (1..10 | 20..30)
END
"#;
    let modules = parse_str(input);
    match &modules[0].body[0] {
        Definition::TypeAssignment(d) => match &d.syntax {
            TypeSyntax::Constrained { constraint, .. } => match constraint {
                Constraint::Range { ranges, .. } => {
                    assert_eq!(ranges.len(), 2);
                }
                other => panic!("expected Range, got {:?}", other),
            },
            other => panic!("expected Constrained, got {:?}", other),
        },
        other => panic!("expected TypeAssignment, got {:?}", other),
    }
}

#[test]
fn strip_string_literal_helper() {
    assert_eq!(strip_string_literal("'0A1B'H"), "0A1B");
    assert_eq!(strip_string_literal("'01010101'B"), "01010101");
    assert_eq!(strip_string_literal("''H"), "");
}

#[test]
fn two_modules_in_one_file() {
    let input = r#"MOD-A DEFINITIONS ::= BEGIN
END
MOD-B DEFINITIONS ::= BEGIN
END
"#;
    let modules = parse_str(input);
    assert_eq!(modules.len(), 2);
    assert_eq!(modules[0].name.as_ref().unwrap().name, "MOD-A");
    assert_eq!(modules[1].name.as_ref().unwrap().name, "MOD-B");
}

#[test]
fn choice_type() {
    let input = r#"TEST-MIB DEFINITIONS ::= BEGIN
TestChoice ::= CHOICE { a INTEGER, b OCTET STRING }
END
"#;
    let modules = parse_str(input);
    match &modules[0].body[0] {
        Definition::TypeAssignment(d) => match &d.syntax {
            TypeSyntax::Choice { alternatives, .. } => {
                assert_eq!(alternatives.len(), 2);
            }
            other => panic!("expected Choice, got {:?}", other),
        },
        other => panic!("expected TypeAssignment, got {:?}", other),
    }
}

#[test]
fn null_type_does_not_admit_other_forbidden_keywords() {
    let input = r#"TEST-MIB DEFINITIONS ::= BEGIN
SimpleSyntax ::= CHOICE { number INTEGER, empty NULL }
RejectedSyntax ::= TRUE
END
"#;
    let modules = parse_strict(input);

    assert!(matches!(
        &modules[0].body[0],
        Definition::TypeAssignment(d)
            if matches!(
                &d.syntax,
                TypeSyntax::Choice { alternatives, .. }
                    if matches!(
                        &alternatives[1].syntax,
                        TypeSyntax::TypeRef(ident) if ident.name == "NULL"
                    )
            )
    ));
    assert!(
        modules[0]
            .diagnostics
            .iter()
            .any(|d| d.code == DiagCode::ParseError),
        "other reserved ASN.1 words must not be accepted as named types"
    );
}

#[test]
fn type_keyword_type_assignment() {
    // Type keywords like IpAddress can appear on LHS of ::= (base modules)
    let input = r#"TEST-MIB DEFINITIONS ::= BEGIN
IpAddress ::= [APPLICATION 0] IMPLICIT OCTET STRING (SIZE (4))
Counter32 ::= [APPLICATION 1] IMPLICIT INTEGER (0..4294967295)
END
"#;
    let modules = parse_str(input);
    assert_eq!(modules[0].body.len(), 2);
    assert!(
        modules[0]
            .diagnostics
            .iter()
            .all(|d| d.code != DiagCode::ParseError)
    );
    match &modules[0].body[0] {
        Definition::TypeAssignment(d) => assert_eq!(d.name.name, "IpAddress"),
        other => panic!("expected TypeAssignment, got {:?}", other),
    }
}

#[test]
fn named_number_missing_comma() {
    let input = r#"TEST-MIB DEFINITIONS ::= BEGIN
TestStatus ::= INTEGER { up(1) down(2) testing(3) }
END
"#;
    let modules = parse_str(input);
    assert!(
        modules[0]
            .diagnostics
            .iter()
            .all(|d| d.code != DiagCode::ParseError)
    );
    let missing_comma_count = modules[0]
        .diagnostics
        .iter()
        .filter(|d| d.code == DiagCode::MissingComma)
        .count();
    assert_eq!(
        missing_comma_count, 2,
        "expected 2 missing-comma diagnostics"
    );
    match &modules[0].body[0] {
        Definition::TypeAssignment(d) => match &d.syntax {
            TypeSyntax::IntegerEnum { named_numbers, .. } => {
                assert_eq!(named_numbers.len(), 3);
            }
            other => panic!("expected IntegerEnum, got {:?}", other),
        },
        other => panic!("expected TypeAssignment, got {:?}", other),
    }
}

#[test]
fn negative_named_number() {
    let input = r#"TEST-MIB DEFINITIONS ::= BEGIN
TestType ::= INTEGER { negative(-1), zero(0), positive(1) }
END
"#;
    let modules = parse_str(input);
    assert!(
        modules[0]
            .diagnostics
            .iter()
            .all(|d| d.code != DiagCode::ParseError)
    );
    match &modules[0].body[0] {
        Definition::TypeAssignment(d) => match &d.syntax {
            TypeSyntax::IntegerEnum { named_numbers, .. } => {
                assert_eq!(named_numbers.len(), 3);
                assert_eq!(named_numbers[0].value, -1);
                assert_eq!(named_numbers[1].value, 0);
                assert_eq!(named_numbers[2].value, 1);
            }
            other => panic!("expected IntegerEnum, got {:?}", other),
        },
        other => panic!("expected TypeAssignment, got {:?}", other),
    }
}

#[test]
fn qualified_oid_component() {
    let input = r#"TEST-MIB DEFINITIONS ::= BEGIN
testObj OBJECT IDENTIFIER ::= { SNMPv2-SMI.enterprises 1 }
END
"#;
    let modules = parse_str(input);
    assert!(
        modules[0]
            .diagnostics
            .iter()
            .all(|d| d.code != DiagCode::ParseError)
    );
    match &modules[0].body[0] {
        Definition::ValueAssignment(d) => {
            assert_eq!(d.oid.components.len(), 2);
            assert!(matches!(
                &d.oid.components[0],
                OidComponent::QualifiedName { module_name, name, .. }
                if module_name.name == "SNMPv2-SMI" && name.name == "enterprises"
            ));
        }
        other => panic!("expected ValueAssignment, got {:?}", other),
    }
}

#[test]
fn constrained_type_ref() {
    // Named type with constraint: DisplayString (SIZE (0..255))
    let input = r#"TEST-MIB DEFINITIONS ::= BEGIN
testObj OBJECT-TYPE
SYNTAX DisplayString (SIZE (0..255))
MAX-ACCESS read-only
STATUS current
DESCRIPTION "test"
::= { test 1 }
END
"#;
    let modules = parse_str(input);
    assert!(
        modules[0]
            .diagnostics
            .iter()
            .all(|d| d.code != DiagCode::ParseError)
    );
    match &modules[0].body[0] {
        Definition::ObjectType(d) => {
            let syntax = d.syntax.as_ref().unwrap();
            match &syntax.syntax {
                TypeSyntax::Constrained {
                    base, constraint, ..
                } => {
                    assert!(
                        matches!(base.as_ref(), TypeSyntax::TypeRef(id) if id.name == "DisplayString")
                    );
                    assert!(matches!(constraint, Constraint::Size { .. }));
                }
                other => panic!("expected Constrained, got {:?}", other),
            }
        }
        other => panic!("expected ObjectType, got {:?}", other),
    }
}

#[test]
fn restricted_integer_enum() {
    // TypeName { val1(1), val2(2) } - restricted integer enum with base type
    let input = r#"TEST-MIB DEFINITIONS ::= BEGIN
testObj OBJECT-TYPE
SYNTAX RowStatus { active(1), notInService(2) }
MAX-ACCESS read-write
STATUS current
DESCRIPTION "test"
::= { test 1 }
END
"#;
    let modules = parse_str(input);
    assert!(
        modules[0]
            .diagnostics
            .iter()
            .all(|d| d.code != DiagCode::ParseError)
    );
    match &modules[0].body[0] {
        Definition::ObjectType(d) => {
            let syntax = d.syntax.as_ref().unwrap();
            match &syntax.syntax {
                TypeSyntax::IntegerEnum {
                    base,
                    named_numbers,
                    ..
                } => {
                    assert!(base.is_some());
                    assert_eq!(base.as_ref().unwrap().name, "RowStatus");
                    assert_eq!(named_numbers.len(), 2);
                }
                other => panic!("expected IntegerEnum, got {:?}", other),
            }
        }
        other => panic!("expected ObjectType, got {:?}", other),
    }
}

#[test]
fn object_type_smiv1_access() {
    // SMIv1 uses ACCESS instead of MAX-ACCESS
    let input = r#"TEST-MIB DEFINITIONS ::= BEGIN
testObj OBJECT-TYPE
SYNTAX INTEGER
ACCESS read-only
STATUS mandatory
DESCRIPTION "SMIv1 style."
::= { test 1 }
END
"#;
    let modules = parse_str(input);
    assert!(
        modules[0]
            .diagnostics
            .iter()
            .all(|d| d.code != DiagCode::ParseError)
    );
    match &modules[0].body[0] {
        Definition::ObjectType(d) => {
            let access = d.access.as_ref().unwrap();
            assert_eq!(access.keyword, AccessKeyword::Access);
            assert_eq!(access.value, Access::ReadOnly);
            assert_eq!(d.status.as_ref().unwrap().value, Status::Mandatory);
        }
        other => panic!("expected ObjectType, got {:?}", other),
    }
}

#[test]
fn defval_hex_string() {
    let input = r#"TEST-MIB DEFINITIONS ::= BEGIN
testObj OBJECT-TYPE
SYNTAX OCTET STRING
MAX-ACCESS read-write
STATUS current
DESCRIPTION "test"
DEFVAL { 'FF00'H }
::= { test 1 }
END
"#;
    let modules = parse_str(input);
    assert!(
        modules[0]
            .diagnostics
            .iter()
            .all(|d| d.code != DiagCode::ParseError)
    );
    match &modules[0].body[0] {
        Definition::ObjectType(d) => match &d.defval.as_ref().unwrap().value {
            DefVal::HexString { content, .. } => assert_eq!(content, "FF00"),
            other => panic!("expected HexString DEFVAL, got {:?}", other),
        },
        other => panic!("expected ObjectType, got {:?}", other),
    }
}

#[test]
fn defval_oid() {
    let input = r#"TEST-MIB DEFINITIONS ::= BEGIN
testObj OBJECT-TYPE
SYNTAX OBJECT IDENTIFIER
MAX-ACCESS read-write
STATUS current
DESCRIPTION "test"
DEFVAL { { 1 3 6 1 } }
::= { test 1 }
END
"#;
    let modules = parse_str(input);
    assert!(
        modules[0]
            .diagnostics
            .iter()
            .all(|d| d.code != DiagCode::ParseError)
    );
    match &modules[0].body[0] {
        Definition::ObjectType(d) => match &d.defval.as_ref().unwrap().value {
            DefVal::ObjectIdentifier { components, span } => {
                assert_eq!(components.len(), 4);
                let start = input.find("1 3 6 1 }").unwrap();
                let end = start + "1 3 6 1 ".len();
                assert_eq!(span.byte_range(), start..end);
                assert_eq!(&input[span.byte_range()], "1 3 6 1 ");
            }
            other => panic!("expected OID DEFVAL, got {:?}", other),
        },
        other => panic!("expected ObjectType, got {:?}", other),
    }
}

#[test]
fn defval_oid_first_ident_and_qualified_component_range() {
    let input = r#"TEST-MIB DEFINITIONS ::= BEGIN
testObj OBJECT-TYPE
SYNTAX OBJECT IDENTIFIER
MAX-ACCESS read-write
STATUS current
DESCRIPTION "test"
DEFVAL { { iso(1) SNMPv2-SMI.enterprises 7 } }
::= { test 1 }
END
"#;
    let modules = parse_str(input);
    assert!(
        modules[0]
            .diagnostics
            .iter()
            .all(|d| d.code != DiagCode::ParseError)
    );
    match &modules[0].body[0] {
        Definition::ObjectType(d) => match &d.defval.as_ref().unwrap().value {
            DefVal::ObjectIdentifier { components, span } => {
                assert_eq!(components.len(), 3);
                assert!(matches!(components[0], OidComponent::NamedNumber { .. }));
                assert!(matches!(components[1], OidComponent::QualifiedName { .. }));
                let start = input.find("iso(1) SNMPv2-SMI.enterprises 7 }").unwrap();
                let end = start + "iso(1) SNMPv2-SMI.enterprises 7 ".len();
                assert_eq!(span.byte_range(), start..end);
                assert_eq!(
                    &input[span.byte_range()],
                    "iso(1) SNMPv2-SMI.enterprises 7 "
                );
            }
            other => panic!("expected OID DEFVAL, got {:?}", other),
        },
        other => panic!("expected ObjectType, got {:?}", other),
    }
}

#[test]
fn object_identity() {
    let input = r#"TEST-MIB DEFINITIONS ::= BEGIN
testOID OBJECT-IDENTITY
STATUS current
DESCRIPTION "An OID registration."
::= { testMIB 1 }
END
"#;
    let modules = parse_str(input);
    assert!(
        modules[0]
            .diagnostics
            .iter()
            .all(|d| d.code != DiagCode::ParseError)
    );
    match &modules[0].body[0] {
        Definition::ObjectIdentity(d) => {
            assert_eq!(d.name.name, "testOID");
        }
        other => panic!("expected ObjectIdentity, got {:?}", other),
    }
}

#[test]
fn notification_group() {
    let input = r#"TEST-MIB DEFINITIONS ::= BEGIN
testNotifGroup NOTIFICATION-GROUP
NOTIFICATIONS { testNotif1, testNotif2 }
STATUS current
DESCRIPTION "A notification group."
::= { testMIB 5 }
END
"#;
    let modules = parse_str(input);
    assert!(
        modules[0]
            .diagnostics
            .iter()
            .all(|d| d.code != DiagCode::ParseError)
    );
    match &modules[0].body[0] {
        Definition::NotificationGroup(d) => {
            assert_eq!(d.name.name, "testNotifGroup");
            assert_eq!(d.notifications.len(), 2);
        }
        other => panic!("expected NotificationGroup, got {:?}", other),
    }
}

#[test]
fn hex_range_value() {
    let input = "TEST-MIB DEFINITIONS ::= BEGIN\n\
Whitespace ::= INTEGER ('7f ff'H | '7f\tff'H | '7f\rff'H | '7f\nff'H)\n\
Malformed ::= INTEGER ('0G'H..'10000000000000000'H)\n\
END\n";
    let modules = parse_strict(input);
    let module = &modules[0];
    assert!(
        module
            .diagnostics
            .iter()
            .all(|d| d.code != DiagCode::ParseError)
    );

    let ranges = match &module.body[0] {
        Definition::TypeAssignment(d) => match &d.syntax {
            TypeSyntax::Constrained {
                constraint: Constraint::Range { ranges, .. },
                ..
            } => ranges,
            other => panic!("expected constrained range, got {other:?}"),
        },
        other => panic!("expected TypeAssignment, got {other:?}"),
    };
    assert_eq!(ranges.len(), 4);
    assert!(
        ranges.iter().all(|range| {
            matches!(range.min, RangeValue::Unsigned(value) if value == 0x7fff)
        })
    );

    let malformed = match &module.body[1] {
        Definition::TypeAssignment(d) => match &d.syntax {
            TypeSyntax::Constrained {
                constraint: Constraint::Range { ranges, .. },
                ..
            } => &ranges[0],
            other => panic!("expected constrained range, got {other:?}"),
        },
        other => panic!("expected TypeAssignment, got {other:?}"),
    };
    assert_eq!(malformed.min, RangeValue::Raw("'0G'H".to_string()));
    assert_eq!(
        malformed.max,
        Some(RangeValue::Raw("'10000000000000000'H".to_string()))
    );
    assert_eq!(
        module
            .diagnostics
            .iter()
            .filter(|d| d.code == DiagCode::InvalidHexRange)
            .count(),
        2
    );

    let mut ignored = DiagnosticConfig::verbose();
    ignored.ignore.push("invalid-hex-range".to_string());
    let ignored_modules = parse_with_config(input, &ignored);
    assert!(
        ignored_modules[0]
            .diagnostics
            .iter()
            .all(|d| d.code != DiagCode::InvalidHexRange)
    );
}

#[test]
fn overflowing_decimal_range_values_preserve_raw_source() {
    let input = r#"TEST-MIB DEFINITIONS ::= BEGIN
Overflow ::= INTEGER (18446744073709551616)
Underflow ::= INTEGER (-9223372036854775809)
END
"#;
    let modules = parse_strict(input);
    let module = &modules[0];

    let raw_values: Vec<&str> = module
        .body
        .iter()
        .map(|definition| match definition {
            Definition::TypeAssignment(d) => match &d.syntax {
                TypeSyntax::Constrained {
                    constraint: Constraint::Range { ranges, .. },
                    ..
                } => match &ranges[0].min {
                    RangeValue::Raw(raw) => raw.as_str(),
                    other => panic!("expected raw range value, got {other:?}"),
                },
                other => panic!("expected constrained range, got {other:?}"),
            },
            other => panic!("expected type assignment, got {other:?}"),
        })
        .collect();
    assert_eq!(raw_values, ["18446744073709551616", "-9223372036854775809"]);
    assert_eq!(
        module
            .diagnostics
            .iter()
            .filter(|d| d.code == DiagCode::UnknownRangeValue)
            .count(),
        2
    );
    assert!(
        module
            .diagnostics
            .iter()
            .all(|d| d.code != DiagCode::InvalidI64)
    );
}

#[test]
fn keyword_as_enum_label() {
    // Keywords like "current", "deprecated" can be used as enum labels
    let input = r#"TEST-MIB DEFINITIONS ::= BEGIN
TestType ::= INTEGER { current(1), deprecated(2), optional(3) }
END
"#;
    let modules = parse_str(input);
    assert!(
        modules[0]
            .diagnostics
            .iter()
            .all(|d| d.code != DiagCode::ParseError)
    );
    match &modules[0].body[0] {
        Definition::TypeAssignment(d) => match &d.syntax {
            TypeSyntax::IntegerEnum { named_numbers, .. } => {
                assert_eq!(named_numbers.len(), 3);
                assert_eq!(named_numbers[0].name.name, "current");
                assert_eq!(named_numbers[1].name.name, "deprecated");
                assert_eq!(named_numbers[2].name.name, "optional");
            }
            other => panic!("expected IntegerEnum, got {:?}", other),
        },
        other => panic!("expected TypeAssignment, got {:?}", other),
    }
}

#[test]
fn object_identifier_syntax() {
    let input = r#"TEST-MIB DEFINITIONS ::= BEGIN
testObj OBJECT-TYPE
SYNTAX OBJECT IDENTIFIER
MAX-ACCESS read-only
STATUS current
DESCRIPTION "An OID."
::= { test 1 }
END
"#;
    let modules = parse_str(input);
    assert!(
        modules[0]
            .diagnostics
            .iter()
            .all(|d| d.code != DiagCode::ParseError)
    );
    match &modules[0].body[0] {
        Definition::ObjectType(d) => {
            let syntax = d.syntax.as_ref().unwrap();
            assert!(matches!(
                &syntax.syntax,
                TypeSyntax::ObjectIdentifier { .. }
            ));
        }
        other => panic!("expected ObjectType, got {:?}", other),
    }
}

#[test]
fn module_oid_before_definitions() {
    // Some old-style modules have an OID block before DEFINITIONS
    let input = r#"TEST-MIB { iso 3 } DEFINITIONS ::= BEGIN
END
"#;
    let modules = parse_str(input);
    assert_eq!(modules[0].name.as_ref().unwrap().name, "TEST-MIB");
    assert!(
        modules[0]
            .diagnostics
            .iter()
            .all(|d| d.code != DiagCode::ParseError)
    );
}

#[test]
fn implied_index() {
    let input = r#"TEST-MIB DEFINITIONS ::= BEGIN
testEntry OBJECT-TYPE
SYNTAX TestEntry
MAX-ACCESS not-accessible
STATUS current
DESCRIPTION "row"
INDEX { testIdx, IMPLIED testName }
::= { testTable 1 }
END
"#;
    let modules = parse_str(input);
    match &modules[0].body[0] {
        Definition::ObjectType(d) => {
            let index = d.index.as_ref().unwrap();
            assert_eq!(index.items.len(), 2);
            assert!(!index.items[0].implied);
            assert!(index.items[1].implied);
            assert_eq!(index.items[1].object.name, "testName");
        }
        other => panic!("expected ObjectType, got {:?}", other),
    }
}
#[test]
fn concatenated_modules_follow_each_other() {
    let input = "A-MIB DEFINITIONS ::= BEGIN\nEND\n\nB-MIB DEFINITIONS ::= BEGIN\nEND\n";
    let modules = parse_str(input);
    assert_eq!(modules.len(), 2);
    assert_eq!(modules[0].name.as_ref().unwrap().name, "A-MIB");
    assert_eq!(modules[1].name.as_ref().unwrap().name, "B-MIB");
    assert_eq!(modules[0].span.byte_range(), 0..31);
    assert_eq!(modules[1].span.byte_range(), 33..64);
    assert!(modules[0].span.byte_range().end <= modules[1].span.byte_range().start);
}

#[test]
fn plain_headers_always_name_their_module() {
    let input = "-- leading comment\nA-MIB DEFINITIONS ::= BEGIN\nEND\nB-MIB DEFINITIONS ::= BEGIN\nEND\n";
    let modules = parse_str(input);
    assert_eq!(modules.len(), 2);
    assert_eq!(modules[0].name.as_ref().unwrap().name, "A-MIB");
    assert_eq!(modules[1].name.as_ref().unwrap().name, "B-MIB");
}

#[test]
fn plain_header_imports_are_read_clause_by_clause() {
    let input = "A-MIB DEFINITIONS ::= BEGIN\nIMPORTS a, OBJECT-TYPE FROM X-MIB c FROM Y-MIB;\nEND\n";
    let modules = parse_str(input);
    assert_eq!(modules.len(), 1);
    let imports = &modules[0].imports;
    assert_eq!(imports.len(), 2);
    let names: Vec<&str> = imports[0].symbols.iter().map(|s| s.name.as_str()).collect();
    assert_eq!(names, vec!["a", "OBJECT-TYPE"]);
    assert_eq!(imports[0].from_module.name, "X-MIB");
    assert_eq!(imports[0].span.byte_range(), 36..61);
    assert_eq!(imports[1].symbols[0].name, "c");
    assert_eq!(imports[1].from_module.name, "Y-MIB");
}

#[test]
fn broken_import_list_leaves_no_imports() {
    let input = "A-MIB DEFINITIONS ::= BEGIN\nIMPORTS a FROM 7;\nEND\n";
    let modules = parse_str(input);
    assert!(modules[0].name.is_some());
    assert!(modules[0].imports.is_empty());
}

#[test]
fn lexical_diagnostics_go_to_the_module_that_holds_them() {
    let input = "A-MIB DEFINITIONS ::= BEGIN\nx OBJECT IDENTIFIER ::= { iso 01 }\nEND\nB-MIB DEFINITIONS ::= BEGIN\ny OBJECT IDENTIFIER ::= { iso 02 }\nEND\n";
    let modules = parse_strict(input);
    assert_eq!(modules.len(), 2);
    let zeros = |m: &Module| -> Vec<std::ops::Range<usize>> {
        m.diagnostics
            .iter()
            .filter(|d| d.code == DiagCode::NumberLeadingZero)
            .map(|d| d.range.unwrap().byte_range())
            .collect()
    };
    let first = input.find("01").unwrap();
    let second = input.find("02").unwrap();
    assert_eq!(zeros(&modules[0]), vec![first..first + 2]);
    assert_eq!(zeros(&modules[1]), vec![second..second + 2]);
    assert_eq!(modules[0].diagnostics[0].code, DiagCode::NumberLeadingZero);
}

#[test]
fn header_with_obsolete_oid_is_named_and_broken_header_is_not() {
    let with_oid = parse_str("A-MIB { iso 3 { 6 } } DEFINITIONS ::= BEGIN\nEND\n");
    assert_eq!(with_oid.len(), 1);
    assert_eq!(with_oid[0].name.as_ref().unwrap().name, "A-MIB");
    let broken = parse_str("A-MIB DEFINITIONS BEGIN\nEND\n");
    assert_eq!(broken.len(), 1);
    assert!(broken[0].name.is_none());
}

#[test]
fn plain_definitions_after_imports_make_up_the_body() {
    let input = r#"PLAIN-MIB DEFINITIONS ::= BEGIN
IMPORTS Counter32 FROM SNMPv2-SMI;
MyCounter ::= Counter32
myRoot OBJECT IDENTIFIER ::= { iso 3 6 1 }
Status ::= OCTET STRING
END
"#;
    let modules = parse_str(input);
    assert_eq!(modules.len(), 1);
    let body = &modules[0].body;
    assert_eq!(body.len(), 3);
    match &body[0] {
        Definition::TypeAssignment(d) => {
            assert_eq!(d.name.name, "MyCounter");
            assert!(matches!(&d.syntax, TypeSyntax::TypeRef(id) if id.name == "Counter32"));
        }
        other => panic!("expected type assignment, got {:?}", other),
    }
    match &body[1] {
        Definition::ValueAssignment(d) => {
            assert_eq!(d.name.name, "myRoot");
            assert_eq!(d.oid.components.len(), 4);
        }
        other => panic!("expected value assignment, got {:?}", other),
    }
    match &body[2] {
        Definition::TypeAssignment(d) => {
            assert!(matches!(&d.syntax, TypeSyntax::OctetString { .. }));
        }
        other => panic!("expected type assignment, got {:?}", other),
    }
}
