use mib_rs::mib::resolver::context::UnresolvedReason;
use mib_rs::mib::resolver::import_resolution::{
    importing_module_of, lookup_definer_for_module, resolve_import_group, resolve_imports,
    resolve_imports_for_module,
    ImportDecl, ImportResolutionMode, ImportingModule, ModuleImportResolution, ResolvedImport,
};
use mib_rs::parser::parse;
use mib_rs::source::{SourceOrigin, SourceSet};
use mib_rs::types::{DiagnosticConfig, ResolverStrictness};

/// Parse each labelled text and describe every module it holds; the labels
/// come back index for index with the modules.
fn load(inputs: &[(&str, &str)]) -> (Vec<ImportingModule>, Vec<String>) {
    let mut sources = SourceSet::new();
    let config = DiagnosticConfig::silent();
    let mut modules = Vec::new();
    let mut labels = Vec::new();
    for (label, text) in inputs {
        let id = sources
            .insert(SourceOrigin::memory(label), label, text.as_bytes())
            .unwrap();
        for module in parse(sources.get(id).unwrap(), &config) {
            modules.push(importing_module_of(&module));
            labels.push(label.to_string());
        }
    }
    (modules, labels)
}

fn index_of(labels: &[String], label: &str) -> usize {
    labels.iter().position(|l| l == label).unwrap()
}

fn resolution<'a>(r: &'a ModuleImportResolution, symbol: &str) -> &'a ResolvedImport {
    r.resolved.iter().find(|x| x.symbol == symbol).unwrap()
}

fn path_labels(labels: &[String], path: &[usize]) -> Vec<String> {
    path.iter().map(|&i| labels[i].clone()).collect()
}

fn module(name: &str, imports: &[(&str, &str)], definitions: &[&str], last_updated: &str) -> ImportingModule {
    ImportingModule {
        name: name.to_string(),
        imports: imports
            .iter()
            .map(|(symbol, module)| ImportDecl {
                symbol: symbol.to_string(),
                module: module.to_string(),
            })
            .collect(),
        definitions: definitions.iter().map(|d| d.to_string()).collect(),
        last_updated: last_updated.to_string(),
    }
}

#[test]
fn forwarding_provenance_retains_selected_duplicate_module_version() {
    let (modules, labels) = load(&[
        (
            "old-version",
            r#"TRACE-VERSION-MIB DEFINITIONS ::= BEGIN
versionIdentity MODULE-IDENTITY
    LAST-UPDATED "200001010000Z"
    ORGANIZATION "Old"
    CONTACT-INFO "Old"
    DESCRIPTION "Old."
    ::= { iso 424280 }
versionSymbol OBJECT IDENTIFIER ::= { versionIdentity 1 }
END
"#,
        ),
        (
            "new-version",
            r#"TRACE-VERSION-MIB DEFINITIONS ::= BEGIN
versionIdentity MODULE-IDENTITY
    LAST-UPDATED "202608180000Z"
    ORGANIZATION "New"
    CONTACT-INFO "New"
    DESCRIPTION "New."
    ::= { iso 424281 }
versionSymbol OBJECT IDENTIFIER ::= { versionIdentity 1 }
END
"#,
        ),
        (
            "bridge",
            r#"TRACE-VERSION-BRIDGE-MIB DEFINITIONS ::= BEGIN
IMPORTS versionSymbol FROM TRACE-VERSION-MIB;
END
"#,
        ),
        (
            "consumer",
            r#"TRACE-VERSION-CONSUMER-MIB DEFINITIONS ::= BEGIN
IMPORTS versionSymbol FROM TRACE-VERSION-BRIDGE-MIB;
versionUse OBJECT IDENTIFIER ::= { versionSymbol 1 }
END
"#,
        ),
    ]);

    let consumer = index_of(&labels, "consumer");
    assert_eq!(modules[consumer].name, "TRACE-VERSION-CONSUMER-MIB");
    let result = resolve_imports_for_module(&modules, consumer, ResolverStrictness::Normal);
    let provenance = resolution(&result, "versionSymbol");
    assert_eq!(provenance.mode, ImportResolutionMode::Forwarded);
    assert_eq!(path_labels(&labels, &provenance.path), ["bridge", "new-version"]);
    assert_eq!(labels[provenance.source], "new-version");
    assert!(result.unresolved.is_empty());

    // Both versions of TRACE-VERSION-MIB are loaded under the same name.
    let versions: Vec<&str> = modules
        .iter()
        .zip(labels.iter())
        .filter(|(m, _)| m.name == "TRACE-VERSION-MIB")
        .map(|(_, l)| l.as_str())
        .collect();
    assert_eq!(versions.len(), 2);
}

#[test]
fn live_forwarding_attempts_preserve_multi_symbol_short_circuit() {
    let (modules, labels) = load(&[
        (
            "first-definer",
            r#"TRACE-FIRST-DEFINER-MIB DEFINITIONS ::= BEGIN
firstSymbol OBJECT IDENTIFIER ::= { iso 424282 }
END
"#,
        ),
        (
            "later-definer",
            r#"TRACE-LATER-DEFINER-MIB DEFINITIONS ::= BEGIN
laterSymbol OBJECT IDENTIFIER ::= { iso 424283 }
END
"#,
        ),
        (
            "first-root",
            r#"TRACE-MULTI-ROOT-MIB DEFINITIONS ::= BEGIN
IMPORTS firstSymbol FROM TRACE-FIRST-DEFINER-MIB;
END
"#,
        ),
        (
            "second-root",
            r#"TRACE-MULTI-ROOT-MIB DEFINITIONS ::= BEGIN
IMPORTS laterSymbol FROM TRACE-LATER-DEFINER-MIB;
END
"#,
        ),
        (
            "short-circuit-consumer",
            r#"TRACE-SHORT-CIRCUIT-MIB DEFINITIONS ::= BEGIN
IMPORTS firstSymbol, laterSymbol FROM TRACE-MULTI-ROOT-MIB;
firstUse OBJECT IDENTIFIER ::= { firstSymbol 1 }
laterUse OBJECT IDENTIFIER ::= { laterSymbol 1 }
END
"#,
        ),
    ]);

    let consumer = index_of(&labels, "short-circuit-consumer");
    assert_eq!(modules[consumer].name, "TRACE-SHORT-CIRCUIT-MIB");
    let result = resolve_imports_for_module(&modules, consumer, ResolverStrictness::Normal);
    let first = resolution(&result, "firstSymbol");
    let later = resolution(&result, "laterSymbol");
    assert_eq!(first.mode, ImportResolutionMode::Partial);
    assert_eq!(later.mode, ImportResolutionMode::Partial);
    assert_eq!(path_labels(&labels, &first.path), ["first-root", "first-definer"]);
    assert_eq!(path_labels(&labels, &later.path), ["second-root", "later-definer"]);
}

#[test]
fn parsed_module_is_described_for_import_resolution() {
    let (modules, _) = load(&[(
        "described",
        r#"DESCRIBED-MIB DEFINITIONS ::= BEGIN
IMPORTS a, b FROM X-MIB c FROM Y-MIB;
describedIdentity MODULE-IDENTITY
    LAST-UPDATED "9901010000Z"
    ORGANIZATION "O"
    CONTACT-INFO "C"
    DESCRIPTION "D."
    ::= { iso 1 }
described OBJECT IDENTIFIER ::= { describedIdentity 1 }
END
"#,
    )]);
    assert_eq!(modules.len(), 1);
    let m = &modules[0];
    assert_eq!(m.name, "DESCRIBED-MIB");
    let imports: Vec<(&str, &str)> = m
        .imports
        .iter()
        .map(|d| (d.symbol.as_str(), d.module.as_str()))
        .collect();
    assert_eq!(imports, [("a", "X-MIB"), ("b", "X-MIB"), ("c", "Y-MIB")]);
    assert_eq!(m.definitions, ["describedIdentity", "described"]);
    assert_eq!(m.last_updated, "9901010000Z");
}

#[test]
fn direct_resolution_prefers_newest_version_and_first_among_equals() {
    let modules = vec![
        module("SRC-MIB", &[], &["x", "y"], "199901010000Z"),
        module("SRC-MIB", &[], &["x", "y"], "202001010000Z"),
        module("SRC-MIB", &[], &["x", "y"], "202001010000Z"),
        module("SRC-MIB", &[], &["x"], "203001010000Z"),
        module("USER-MIB", &[("x", "SRC-MIB"), ("y", "SRC-MIB")], &[], ""),
    ];
    let r = resolve_imports_for_module(&modules, 4, ResolverStrictness::Strict);
    assert_eq!(r.resolved.len(), 2);
    for x in &r.resolved {
        assert_eq!(x.mode, ImportResolutionMode::Direct);
        assert_eq!(x.source, 1);
        assert_eq!(x.path, [1]);
    }
    assert!(r.unresolved.is_empty());
}

#[test]
fn alias_resolution_needs_fallbacks() {
    let modules = vec![
        module("SNMPv2-SMI", &[], &["enterprises"], ""),
        module("USER-MIB", &[("enterprises", "SNMPv2-SMI-v1")], &[], ""),
    ];
    let normal = resolve_imports_for_module(&modules, 1, ResolverStrictness::Normal);
    assert_eq!(normal.resolved.len(), 1);
    assert_eq!(normal.resolved[0].mode, ImportResolutionMode::Alias);
    assert_eq!(normal.resolved[0].source, 0);

    let strict = resolve_imports_for_module(&modules, 1, ResolverStrictness::Strict);
    assert!(strict.resolved.is_empty());
    assert_eq!(strict.unresolved.len(), 1);
    assert_eq!(strict.unresolved[0].symbol, "enterprises");
    assert_eq!(strict.unresolved[0].from_module, "SNMPv2-SMI-v1");
    assert_eq!(strict.unresolved[0].reason, UnresolvedReason::ModuleNotFound);
}

#[test]
fn missing_symbol_is_not_exported_and_missing_module_not_found() {
    let modules = vec![
        module("SRC-MIB", &[], &["x"], ""),
        module(
            "USER-MIB",
            &[("x", "SRC-MIB"), ("z", "SRC-MIB"), ("w", "GONE-MIB")],
            &[],
            "",
        ),
    ];
    let r = resolve_imports_for_module(&modules, 1, ResolverStrictness::Normal);
    assert_eq!(r.resolved.len(), 1);
    assert_eq!(r.resolved[0].symbol, "x");
    assert_eq!(r.resolved[0].mode, ImportResolutionMode::Partial);
    assert_eq!(r.resolved[0].path, [0]);
    assert_eq!(r.unresolved.len(), 2);
    assert_eq!(r.unresolved[0].symbol, "z");
    assert_eq!(r.unresolved[0].reason, UnresolvedReason::SymbolNotExported);
    assert_eq!(r.unresolved[1].symbol, "w");
    assert_eq!(r.unresolved[1].from_module, "GONE-MIB");
    assert_eq!(r.unresolved[1].reason, UnresolvedReason::ModuleNotFound);
}

#[test]
fn macro_names_are_skipped_and_duplicates_reported() {
    let modules = vec![
        module("A-MIB", &[], &["s"], ""),
        module("B-MIB", &[], &["s"], ""),
        module(
            "USER-MIB",
            &[("OBJECT-TYPE", "SNMPv2-SMI"), ("s", "A-MIB"), ("s", "B-MIB"), ("s", "A-MIB")],
            &[],
            "",
        ),
    ];
    let r = resolve_imports_for_module(&modules, 2, ResolverStrictness::Normal);
    assert_eq!(r.resolved.len(), 1);
    assert_eq!(r.resolved[0].symbol, "s");
    assert_eq!(r.resolved[0].source, 0);
    assert!(r.unresolved.is_empty());
    assert_eq!(r.duplicates.len(), 1);
    assert_eq!(r.duplicates[0].symbol, "s");
    assert_eq!(r.duplicates[0].first_module, "A-MIB");
    assert_eq!(r.duplicates[0].second_module, "B-MIB");
}

#[test]
fn forwarding_cycle_ends_unresolved() {
    let modules = vec![
        module("P-MIB", &[("s", "Q-MIB")], &[], ""),
        module("Q-MIB", &[("s", "P-MIB")], &[], ""),
        module("USER-MIB", &[("s", "P-MIB")], &[], ""),
    ];
    let r = resolve_imports_for_module(&modules, 2, ResolverStrictness::Permissive);
    assert!(r.resolved.is_empty());
    assert_eq!(r.unresolved.len(), 1);
    assert_eq!(r.unresolved[0].reason, UnresolvedReason::SymbolNotExported);
}

#[test]
fn group_resolution_resolves_whole_group_directly() {
    let modules = vec![module("SRC-MIB", &[], &["x", "y"], "")];
    let symbols = vec!["x".to_string(), "y".to_string()];
    let (res, unres) = resolve_import_group(&modules, "SRC-MIB", &symbols, ResolverStrictness::Normal);
    assert_eq!(res.len(), 2);
    assert!(res.iter().all(|r| r.mode == ImportResolutionMode::Direct && r.source == 0));
    assert!(unres.is_empty());
}

#[test]
fn every_module_is_resolved_in_order() {
    let modules = vec![
        module("SRC-MIB", &[], &["x"], ""),
        module("USER-MIB", &[("x", "SRC-MIB")], &[], ""),
    ];
    let all = resolve_imports(&modules, ResolverStrictness::Normal);
    assert_eq!(all.len(), 2);
    assert!(all[0].resolved.is_empty() && all[0].unresolved.is_empty());
    assert_eq!(all[1].resolved.len(), 1);
    assert_eq!(all[1].resolved[0].source, 0);
}

#[test]
fn scope_lookup_prefers_local_then_one_import_hop() {
    let modules = vec![
        module("SRC-MIB", &[], &["x", "both"], ""),
        module("USER-MIB", &[("x", "SRC-MIB"), ("both", "SRC-MIB")], &["both", "own"], ""),
    ];
    let r = resolve_imports_for_module(&modules, 1, ResolverStrictness::Normal);
    assert_eq!(lookup_definer_for_module(&modules, &r, 1, "own"), Some((1, false)));
    assert_eq!(lookup_definer_for_module(&modules, &r, 1, "both"), Some((1, false)));
    assert_eq!(lookup_definer_for_module(&modules, &r, 1, "x"), Some((0, true)));
    assert_eq!(lookup_definer_for_module(&modules, &r, 1, "nowhere"), None);
}

#[test]
fn every_non_macro_import_is_answered() {
    let modules = vec![
        module("A-MIB", &[("y", "B-MIB")], &["x"], ""),
        module("B-MIB", &[], &["y"], ""),
        module(
            "USER-MIB",
            &[("x", "A-MIB"), ("y", "A-MIB"), ("q", "A-MIB"), ("OBJECT-TYPE", "SNMPv2-SMI")],
            &[],
            "",
        ),
    ];
    let r = resolve_imports_for_module(&modules, 2, ResolverStrictness::Normal);
    for symbol in ["x", "y"] {
        let found = resolution(&r, symbol);
        assert!(modules[found.source].definitions.iter().any(|d| d == symbol));
    }
    assert_eq!(resolution(&r, "y").source, 1);
    assert_eq!(r.unresolved.len(), 1);
    assert_eq!(r.unresolved[0].symbol, "q");
    assert_eq!(r.unresolved[0].reason, UnresolvedReason::SymbolNotExported);
    assert!(r.resolved.iter().all(|x| x.symbol != "OBJECT-TYPE"));
}
